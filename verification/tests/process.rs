//! Process trees.
use std::collections::HashSet;

use winrestyle::process::{
    ancestor_pids, any_named, descendant_pids, kill_all_named, kill_tree_named, pids_named,
    process_entry, ProcessEntry,
};

#[test]
fn descendants_are_transitive_and_exclude_seeds() {
    // 1 → 2 → 4, 1 → 3; 5 is unrelated (parent 9 not in the forest).
    let procs = [(1, 0), (2, 1), (3, 1), (4, 2), (5, 9)];
    let mut d = descendant_pids(&procs, &[1]);
    d.sort();
    assert_eq!(d, vec![2, 3, 4]);
    // Seeds are never in their own descendant set.
    let mut sub = descendant_pids(&procs, &[2]);
    sub.sort();
    assert_eq!(sub, vec![4]);
    // A leaf seed has no descendants.
    assert!(descendant_pids(&procs, &[5]).is_empty());
}

#[test]
fn descendants_survive_a_pid_reuse_cycle() {
    // A forged loop 1 ↔ 2 must terminate, not spin.
    let procs = [(1, 2), (2, 1)];
    let _ = descendant_pids(&procs, &[1]);
}

#[test]
fn ancestors_walk_to_the_root() {
    let procs = [(1, 0), (2, 1), (4, 2)];
    assert_eq!(ancestor_pids(&procs, 4), vec![2, 1]);
    assert!(ancestor_pids(&procs, 1).is_empty()); // parent 0 = root
}

#[test]
fn ancestors_survive_a_cycle() {
    let procs = [(1, 2), (2, 1)];
    let _ = ancestor_pids(&procs, 1);
}

#[test]
fn tree_kill_spares_the_invoking_branch() {
    // desktop(10) → terminal(20) → installer(30, "self"); desktop → app(40).
    // Activating from the terminal must kill the desktop and the sibling
    // app, but never the terminal (ancestor) or the installer (self).
    let procs = [(10, 1), (20, 10), (30, 20), (40, 10)];
    let seeds = [10u32];
    let mut protected: HashSet<u32> = ancestor_pids(&procs, 30).into_iter().collect();
    protected.insert(30);
    let mut victims: Vec<u32> = descendant_pids(&procs, &seeds)
        .into_iter()
        .filter(|p| !protected.contains(p))
        .collect();
    victims.sort();
    assert_eq!(victims, vec![40]); // 20 (ancestor) and 30 (self) spared
    assert!(protected.contains(&20) && protected.contains(&10));
}

fn units(s: &str) -> Vec<u16> {
    s.encode_utf16().collect()
}

/// A snapshot from (pid, parent, name).
fn snapshot(list: &[(u32, u32, &str)]) -> Vec<ProcessEntry> {
    list.iter()
        .map(|(pid, parent, name)| process_entry(*pid, *parent, &units(name)))
        .collect()
}

#[test]
fn names_end_at_a_zero_unit_and_are_lowered() {
    let e = process_entry(1, 2, &units("Explorer.EXE\0junk"));
    assert_eq!(e.name, "explorer.exe");
    assert_eq!((e.pid, e.parent), (1, 2));
}

#[test]
fn kills_by_name_spare_the_caller() {
    let procs = snapshot(&[(1, 0, "a.exe"), (2, 1, "A.EXE"), (3, 1, "b.exe")]);
    assert_eq!(kill_all_named(&procs, "A.exe", 9), vec![1, 2]);
    assert_eq!(pids_named(&procs, "a.exe", 2), vec![1]);
    assert!(any_named(&procs, "b.exe", 1));
    assert!(!any_named(&procs, "b.exe", 3));
}

#[test]
fn a_tree_kill_ends_the_desktop_but_not_the_caller() {
    let procs = snapshot(&[
        (10, 1, "explorer.exe"),
        (20, 10, "terminal.exe"),
        (30, 20, "wr-installer.exe"),
        (40, 10, "app.exe"),
        (50, 40, "child.exe"),
    ]);
    let mut doomed = kill_tree_named(&procs, "explorer.exe", 30);
    assert_eq!(doomed.pop(), Some(10));
    doomed.sort();
    assert_eq!(doomed, vec![40, 50]);
}
