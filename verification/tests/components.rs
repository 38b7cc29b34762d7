//! The components the manager offers.
use std::collections::BTreeSet;

use winrestyle::components::{Component, Registry, TaskbarComponent};
use winrestyle::config::Config;

fn ids(set: &[&str]) -> Vec<String> {
    set.iter().map(|s| s.to_string()).collect()
}

#[test]
fn every_component_has_unique_id_and_nonempty_text() {
    let reg = Registry::all();
    let mut seen = BTreeSet::new();
    for c in reg.components() {
        assert!(seen.insert(c.id()), "duplicate id {}", c.id());
        assert!(!c.name().is_empty());
        assert!(!c.summary().is_empty());
    }
}

#[test]
fn defaults_have_every_component_installed() {
    // A fresh install: taskbar, wallpaper, autostart all on.
    let reg = Registry::all();
    let installed = reg.installed_ids(&Config::default());
    assert_eq!(installed, ids(&["taskbar", "wallpaper", "autostart"]));
}

#[test]
fn apply_installs_selected_and_uninstalls_the_rest() {
    let reg = Registry::all();
    let config = reg.apply(&Config::default(), &ids(&["taskbar"]));
    assert!(config.taskbar.enabled);
    assert!(!config.wallpaper.enabled);
    assert!(!config.autostart.enabled);
    assert_eq!(reg.installed_ids(&config), ids(&["taskbar"]));
}

#[test]
fn apply_preserves_unrelated_settings() {
    let reg = Registry::all();
    let mut base = Config::default();
    base.taskbar.pinned = vec![r"C:\Windows\notepad.exe".to_string()];
    base.wallpaper.color = "#010203".parse().unwrap();
    base.autostart.disabled = vec!["hkcu-run:OneDrive".into()];

    let config = reg.apply(&base, &ids(&["wallpaper"]));
    // Selection changed, but the fiddly bits survive.
    assert_eq!(config.taskbar.pinned, base.taskbar.pinned);
    assert_eq!(config.wallpaper.color, base.wallpaper.color);
    assert_eq!(config.autostart.disabled, base.autostart.disabled);
}

#[test]
fn install_uninstall_are_idempotent() {
    let c = TaskbarComponent;
    let mut config = Config::default();
    c.install(&mut config);
    c.install(&mut config);
    assert!(c.is_installed(&config));
    c.uninstall(&mut config);
    c.uninstall(&mut config);
    assert!(!c.is_installed(&config));
}

#[test]
fn unknown_ids_in_selection_are_ignored() {
    let reg = Registry::all();
    let config = reg.apply(&Config::default(), &ids(&["taskbar", "does-not-exist"]));
    assert_eq!(reg.installed_ids(&config), ids(&["taskbar"]));
}

#[test]
fn empty_selection_uninstalls_everything() {
    let reg = Registry::all();
    let config = reg.apply(&Config::default(), &Vec::new());
    assert!(reg.installed_ids(&config).is_empty());
}
