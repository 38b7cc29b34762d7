//! Crash-loop accounting.
use winrestyle::crash_loop::{note_exit, CRASH_LIMIT, CRASH_WINDOW_NS};

#[test]
fn a_fourth_exit_within_the_window_is_a_loop() {
    let mut times = Vec::new();
    for i in 0..CRASH_LIMIT as u64 {
        assert!(!note_exit(&mut times, 1_000 + i));
    }
    assert!(note_exit(&mut times, 2_000));
}

#[test]
fn exits_further_apart_are_no_loop() {
    let mut times = Vec::new();
    for i in 0..20u64 {
        assert!(!note_exit(&mut times, i * CRASH_WINDOW_NS));
        assert_eq!(times, vec![i * CRASH_WINDOW_NS]);
    }
}
