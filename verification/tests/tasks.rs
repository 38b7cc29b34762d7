//! The window-button list and its icons.
use winrestyle::taskbar::tasks::{build_icon, click_action, merge, ClickAction, TaskWindow};

fn w(hwnd: isize, title: &str) -> TaskWindow {
    TaskWindow {
        hwnd,
        title: title.to_string(),
    }
}

#[test]
fn merge_keeps_stable_order_and_appends_new() {
    let old = [w(1, "a"), w(2, "b")];
    // Fresh enumeration in a different (z) order, plus a newcomer.
    let fresh = [w(3, "c"), w(2, "b"), w(1, "a")];
    let (merged, added, removed) = merge(&old, &fresh);
    assert_eq!(merged, vec![w(1, "a"), w(2, "b"), w(3, "c")]);
    assert_eq!(added, vec![w(3, "c")]);
    assert!(removed.is_empty());
}

#[test]
fn merge_drops_closed_windows() {
    let old = [w(1, "a"), w(2, "b"), w(3, "c")];
    let fresh = [w(3, "c"), w(1, "a")];
    let (merged, added, removed) = merge(&old, &fresh);
    assert_eq!(merged, vec![w(1, "a"), w(3, "c")]);
    assert!(added.is_empty());
    assert_eq!(removed, vec![w(2, "b")]);
}

#[test]
fn merge_refreshes_titles_in_place() {
    let old = [w(1, "Document1 - Editor")];
    let fresh = [w(1, "Document2 - Editor")];
    let (merged, added, removed) = merge(&old, &fresh);
    assert_eq!(merged, vec![w(1, "Document2 - Editor")]);
    assert!(added.is_empty() && removed.is_empty());
    assert_ne!(merged, old.to_vec()); // callers detect the repaint this way
}

#[test]
fn merge_of_identical_lists_is_equal() {
    let old = [w(1, "a"), w(2, "b")];
    let (merged, added, removed) = merge(&old, &old.to_vec());
    assert_eq!(merged, old.to_vec());
    assert!(added.is_empty() && removed.is_empty());
}

#[test]
fn icon_with_alpha_is_premultiplied() {
    // One pixel: b=200 g=100 r=50, a=128 → channels scaled by 128/255.
    let icon = build_icon(1, 1, vec![200, 100, 50, 128], None).unwrap();
    assert_eq!(icon.bgra, vec![100, 50, 25, 128]);
}

#[test]
fn legacy_icon_gets_alpha_from_the_mask() {
    // Two pixels, no alpha; mask says: first opaque (black), second
    // transparent (white).
    let color = vec![10, 20, 30, 0, 40, 50, 60, 0];
    let mask = vec![0, 0, 0, 0, 255, 255, 255, 0];
    let icon = build_icon(2, 1, color, Some(&mask)).unwrap();
    assert_eq!(&icon.bgra[..4], &[10, 20, 30, 255]);
    assert_eq!(&icon.bgra[4..], &[0, 0, 0, 0]); // premultiplied to nothing
}

#[test]
fn no_alpha_no_mask_means_opaque() {
    let icon = build_icon(1, 1, vec![10, 20, 30, 0], None).unwrap();
    assert_eq!(icon.bgra, vec![10, 20, 30, 255]);
}

#[test]
fn bad_icon_dimensions_are_rejected() {
    assert!(build_icon(2, 2, vec![0; 4], None).is_none()); // too short
    assert!(build_icon(0, 0, Vec::new(), None).is_none());
    // A mask of the wrong size is ignored, not fatal.
    let icon = build_icon(1, 1, vec![1, 2, 3, 0], Some(&[0, 0])).unwrap();
    assert_eq!(icon.bgra[3], 255);
}

#[test]
fn click_rules() {
    assert_eq!(click_action(false, false), ClickAction::Focus);
    assert_eq!(click_action(true, false), ClickAction::Minimize);
    assert_eq!(click_action(false, true), ClickAction::RestoreAndFocus);
    // A minimized-but-foreground oddity restores rather than re-minimizes.
    assert_eq!(click_action(true, true), ClickAction::RestoreAndFocus);
}
