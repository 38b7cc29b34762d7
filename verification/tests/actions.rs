//! The menu's administrative actions.
use winrestyle::taskbar::actions::{actions, filter_indices, ActionKind};

#[test]
fn dev_gate_hides_dev_actions_outside_dev_builds() {
    let shipped = actions(false);
    assert!(shipped.iter().all(|a| !a.dev_only));
    assert_eq!(shipped.len(), 2); // Restore + Settings
    assert_eq!(shipped[0].kind, ActionKind::Restore);

    let dev = actions(true);
    assert_eq!(dev.len(), 4);
    assert!(dev.iter().any(|a| a.kind == ActionKind::RunTests));
    // Admin actions still lead the list in dev mode.
    assert_eq!(dev[0].kind, ActionKind::Restore);
    assert_eq!(dev[1].kind, ActionKind::Settings);
}

#[test]
fn filter_matches_labels_case_insensitively() {
    let dev = actions(true);
    assert_eq!(filter_indices(&dev, ""), vec![0, 1, 2, 3]);
    // "test" hits only "Run VM test suite".
    let hits = filter_indices(&dev, "TEST");
    assert_eq!(hits.len(), 1);
    assert_eq!(dev[hits[0]].kind, ActionKind::RunTests);
    // "restore" hits Restore.
    assert_eq!(
        dev[filter_indices(&dev, "restore")[0]].kind,
        ActionKind::Restore
    );
    assert!(filter_indices(&dev, "zzz").is_empty());
}
