//! The relaunch counter.
use winrestyle::guardian::{RelaunchState, RELAUNCH_LIMIT, RELAUNCH_WINDOW_SECS};

#[test]
fn unset_or_garbage_parses_as_fresh() {
    for raw in [
        None,
        Some(""),
        Some("junk"),
        Some("1:"),
        Some(":5"),
        Some("a:b"),
    ] {
        assert_eq!(
            RelaunchState::parse(raw),
            RelaunchState::default(),
            "{raw:?}"
        );
    }
}

#[test]
fn round_trips_through_env_form() {
    let state = RelaunchState::parse(Some("2:1000"));
    assert_eq!(state.count, 2);
    assert_eq!(RelaunchState::parse(Some(&state.to_env_value())), state);
}

#[test]
fn bump_counts_within_window_and_resets_after() {
    let first = RelaunchState::default().bump(1000);
    assert_eq!((first.count, first.first_unix_secs), (1, 1000));

    let second = first.bump(1030);
    assert_eq!((second.count, second.first_unix_secs), (2, 1000));

    // Window expired → new window, count restarts.
    let later = second.bump(1000 + RELAUNCH_WINDOW_SECS + 1);
    assert_eq!((later.count, later.first_unix_secs), (1, 1061));
}

#[test]
fn exhausts_only_past_the_limit() {
    let mut state = RelaunchState::default();
    for _ in 0..RELAUNCH_LIMIT {
        state = state.bump(1000);
        assert!(!state.exhausted());
    }
    assert!(state.bump(1000).exhausted());
}

#[test]
fn numbers_beyond_their_width_are_garbage() {
    assert_eq!(
        RelaunchState::parse(Some("4294967296:1")),
        RelaunchState::default()
    );
    assert_eq!(
        RelaunchState::parse(Some("1:18446744073709551616")),
        RelaunchState::default()
    );
}
