//! What the start menu lists.
use winrestyle::taskbar::actions::{actions, ActionKind};
use winrestyle::taskbar::apps::AppEntry;
use winrestyle::taskbar::content::{build_content, selectable, symbol, Group, MenuEntry};

fn apps(names: &[&str]) -> Vec<AppEntry> {
    names
        .iter()
        .map(|n| AppEntry {
            name: n.to_string(),
            path: String::new(),
        })
        .collect()
}

#[test]
fn entries_stand_in_groups_under_headers() {
    let content = build_content(&actions(true), &apps(&["Paint", "Terminal"]), "");
    assert_eq!(
        content,
        vec![
            MenuEntry::Header(Group::Admin),
            MenuEntry::Action(0),
            MenuEntry::Action(1),
            MenuEntry::Header(Group::Dev),
            MenuEntry::Action(2),
            MenuEntry::Action(3),
            MenuEntry::Header(Group::Apps),
            MenuEntry::App(0),
            MenuEntry::App(1),
        ]
    );
    assert_eq!(
        selectable(&content),
        vec![false, true, true, false, true, true, false, true, true]
    );
    assert_eq!(Group::Dev.label(), "Dev");
}

#[test]
fn a_filter_that_empties_a_group_drops_its_header() {
    let list = apps(&["Paint", "Terminal"]);
    assert_eq!(
        build_content(&actions(true), &list, "TERM"),
        vec![
            MenuEntry::Header(Group::Dev),
            MenuEntry::Action(2),
            MenuEntry::Header(Group::Apps),
            MenuEntry::App(1),
        ]
    );
    // A shipped build never lists the dev helpers.
    assert_eq!(
        build_content(&actions(false), &list, "term"),
        vec![MenuEntry::Header(Group::Apps), MenuEntry::App(1)]
    );
    assert_eq!(build_content(&actions(true), &list, "zzz"), vec![]);
}

#[test]
fn every_action_has_its_symbol() {
    let symbols: String = actions(true).iter().map(|a| symbol(a.kind)).collect();
    assert_eq!(symbols, "\u{21ba}\u{2699}\u{276f}\u{2713}");
    assert_eq!(symbol(ActionKind::Settings), "\u{2699}");
}
