//! Which shortcut icons are decoded, and when.
use winrestyle::taskbar::iconload::{needed, IconLoader};
use winrestyle::taskbar::tasks::Icon;

fn p(s: &str) -> String {
    s.to_string()
}

#[test]
fn needed_returns_all_when_nothing_requested_yet() {
    let apps = vec![p("/a.lnk"), p("/b.lnk")];
    assert_eq!(needed(&apps, &Vec::new()), vec![p("/a.lnk"), p("/b.lnk")]);
}

#[test]
fn needed_skips_already_requested_paths() {
    let apps = vec![p("/a.lnk"), p("/b.lnk"), p("/c.lnk")];
    let requested = vec![p("/b.lnk")];
    assert_eq!(needed(&apps, &requested), vec![p("/a.lnk"), p("/c.lnk")]);
}

#[test]
fn needed_dedups_within_one_call_preserving_first_seen_order() {
    let apps = vec![p("/a.lnk"), p("/b.lnk"), p("/a.lnk")];
    assert_eq!(needed(&apps, &Vec::new()), vec![p("/a.lnk"), p("/b.lnk")]);
}

#[test]
fn needed_is_empty_once_everything_is_requested() {
    let apps = vec![p("/a.lnk"), p("/b.lnk")];
    let requested = apps.clone();
    assert!(needed(&apps, &requested).is_empty());
}

#[test]
fn a_path_written_otherwise_is_not_asked_for_again() {
    assert!(needed(&vec![p("C:/a/x.lnk")], &vec![p("C:/a//x.lnk")]).is_empty());
    assert_eq!(
        needed(&vec![p(r"C:\a\x.lnk"), p("c:/a/./x.lnk")], &Vec::new()),
        vec![p(r"C:\a\x.lnk")]
    );
    assert_eq!(
        needed(&vec![p("C:/A/x.lnk")], &vec![p("C:/a/x.lnk")]),
        vec![p("C:/A/x.lnk")]
    );
}

#[test]
fn a_loader_asks_once_and_hands_out_once() {
    let mut loader = IconLoader::new();
    assert_eq!(
        loader.request(&vec![p("/a.lnk"), p("/b.lnk"), p("/a.lnk")]),
        vec![p("/a.lnk"), p("/b.lnk")]
    );
    assert!(loader.request(&vec![p("/b.lnk"), p("/a.lnk")]).is_empty());
    loader.finish(p("/a.lnk"), None);
    let icon = Icon {
        width: 1,
        height: 1,
        bgra: vec![1, 2, 3, 255],
    };
    loader.finish(p("/b.lnk"), Some(icon));
    let drained = loader.drain();
    assert_eq!(drained.len(), 2);
    assert_eq!(drained[0].0, "/a.lnk");
    assert!(drained[0].1.is_none());
    assert_eq!(drained[1].1.as_ref().unwrap().bgra, vec![1, 2, 3, 255]);
    assert!(loader.drain().is_empty());
    // What was asked for stays asked for.
    assert!(loader.request(&vec![p("/a.lnk")]).is_empty());
}
