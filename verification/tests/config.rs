//! User configuration.
use winrestyle::config::{
    default_path, Autostart, Backdrop, Color, Config, ConfigStore, FileState, Wallpaper,
};

#[test]
fn bad_colors_are_parse_errors() {
    for bad in ["", "#fff", "#12345", "#1234567", "1a1a2e", "#gggggg"] {
        assert!(bad.parse::<Color>().is_err(), "{bad:?}");
        assert_eq!(
            Color::parse(bad),
            Err(format!("invalid color {bad:?} (expected \"#rrggbb\")"))
        );
    }
}

#[test]
fn color_round_trips_through_display() {
    let color: Color = "#1A2b3C".parse().unwrap();
    assert_eq!(color.to_text(), "#1a2b3c");
    assert_eq!(color.to_text().parse::<Color>().unwrap(), color);
}

#[test]
fn colors_are_six_digits_without_a_sign() {
    for bad in ["#+12345", "#-12345", "# 12345", "#12345+"] {
        assert!(bad.parse::<Color>().is_err(), "{bad:?}");
    }
    let color: Color = "#fF00aA".parse().unwrap();
    assert_eq!((color.r, color.g, color.b), (0xff, 0x00, 0xaa));
}

#[test]
fn color_errors_escape_what_they_quote() {
    assert_eq!(
        Color::parse("a\"b\n"),
        Err("invalid color \"a\\\"b\\n\" (expected \"#rrggbb\")".to_string())
    );
}

/// A configuration that differs from the default one in its colour.
fn coloured() -> Config {
    let mut config = Config::default();
    config.wallpaper.color = "#010203".parse().unwrap();
    config
}

#[test]
fn store_defaults_when_file_is_missing_or_path_unknown() {
    assert_eq!(
        ConfigStore::load(Some("missing".to_string()), FileState::Missing).get(),
        Config::default()
    );
    assert_eq!(
        ConfigStore::load(None, FileState::Missing).get(),
        Config::default()
    );
    // Without a path nothing that was read counts.
    assert_eq!(
        ConfigStore::load(None, FileState::Parsed(coloured())).get(),
        Config::default()
    );
}

#[test]
fn store_defaults_on_broken_file_at_startup() {
    let path = "broken-start".to_string();
    assert_eq!(
        ConfigStore::load(Some(path), FileState::Broken).get(),
        Config::default()
    );
}

#[test]
fn reload_swaps_good_keeps_current_on_broken_defaults_on_missing() {
    let path = "reload".to_string();
    let mut store = ConfigStore::load(Some(path), FileState::Missing);

    let loaded = store.reload(FileState::Parsed(coloured()));
    assert_eq!(loaded.wallpaper.color.to_text(), "#010203");
    assert_eq!(store.get(), loaded);

    // Broken file: the good config stays in effect.
    assert_eq!(store.reload(FileState::Broken), loaded);
    assert_eq!(store.get(), loaded);

    // Removed file: back to defaults.
    assert_eq!(store.reload(FileState::Missing), Config::default());
}

#[test]
fn default_path_is_under_appdata() {
    assert_eq!(
        default_path(Some(r"C:\Users\me\AppData\Roaming")),
        Some(r"C:\Users\me\AppData\Roaming\WinRestyle\config.toml".to_string())
    );
    assert_eq!(default_path(None), None);
}

#[test]
fn the_default_store_knows_its_path() {
    let store = ConfigStore::load_default(Some(r"C:\A"), FileState::Parsed(coloured()));
    assert_eq!(store.path.as_deref(), Some(r"C:\A\WinRestyle\config.toml"));
    assert_eq!(store.get(), coloured());
    let nowhere = ConfigStore::load_default(None, FileState::Parsed(coloured()));
    assert_eq!(nowhere.path, None);
    assert_eq!(nowhere.get(), Config::default());
}

#[test]
fn defaults_are_those_of_a_fresh_install() {
    let c = Config::default();
    assert_eq!(c.wallpaper.color.to_text(), "#1a1a2e");
    assert_eq!(c.wallpaper.image, None);
    assert_eq!(c.taskbar.color.to_text(), "#10101a");
    assert_eq!((c.taskbar.height, c.taskbar.margin), (48, 8));
    assert_eq!(c.taskbar.alpha, 224);
    assert_eq!(c.taskbar.backdrop, Backdrop::Plain);
    assert!(c.taskbar.show_date);
    assert!(c.taskbar.pinned.is_empty());
    assert!(c.autostart.enabled && c.autostart.disabled.is_empty());
}

#[test]
fn the_wallpaper_switch_folds_into_what_shows() {
    let mut w = Wallpaper {
        enabled: true,
        color: "#010203".parse().unwrap(),
        image: Some("bg.jpg".to_string()),
    };
    assert_eq!(w.effective_color().to_text(), "#010203");
    assert_eq!(w.effective_image().map(|s| s.as_str()), Some("bg.jpg"));
    w.enabled = false;
    assert_eq!(w.effective_color().to_text(), "#1a1a2e");
    assert_eq!(w.effective_image(), None);
}

#[test]
fn switching_an_entry_ignores_case_and_leaves_the_others() {
    let mut a = Autostart::default();
    a.set_disabled("hkcu-run:OneDrive", true);
    a.set_disabled("HKCU-RUN:onedrive", true);
    a.set_disabled("hklm-run:Foo", true);
    assert_eq!(a.disabled, vec!["hkcu-run:OneDrive", "hklm-run:Foo"]);
    assert!(a.is_disabled("HKCU-run:ONEDRIVE"));
    assert!(!a.allows("hkcu-run:OneDrive"));
    assert!(a.allows("hkcu-run:Other"));
    a.set_disabled("Hkcu-Run:OneDrive", false);
    assert_eq!(a.disabled, vec!["hklm-run:Foo"]);
    a.enabled = false;
    assert!(!a.allows("hkcu-run:Other"));
}

#[test]
fn configurations_compare_by_their_settings() {
    assert!(Config::default() == Config::default());
    assert!(Config::default() != coloured());
    let mut pinned = Config::default();
    pinned.taskbar.pinned = vec!["a.lnk".to_string()];
    assert!(pinned != Config::default());
    assert!(pinned == pinned.clone());
    let mut blocked = Config::default();
    blocked.autostart.disabled = vec!["hkcu-run:X".to_string()];
    assert!(blocked != Config::default());
}

#[test]
fn configurations_compare_their_paths_by_component() {
    let mut a = Config::default();
    a.wallpaper.image = Some(r"C:\pics\a.png".to_string());
    a.taskbar.pinned = vec![r"C:\apps\x.lnk".to_string()];
    let mut b = a.clone();
    b.wallpaper.image = Some("c:/pics//a.png".to_string());
    b.taskbar.pinned = vec![r"C:\apps\.\x.lnk".to_string()];
    assert!(a == b);
    b.taskbar.pinned = vec![r"C:\apps\X.lnk".to_string()];
    assert!(a != b);
}
