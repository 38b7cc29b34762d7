//! User configuration.
//!
//! Loading must never take the shell down. The rules, in order of paranoia:
//!
//! - **Missing file**: defaults. A fresh install has no config.
//! - **Invalid file at startup**: defaults. The desktop always comes up.
//! - **Invalid file on reload**: keep the config we already had. A typo saved
//!   mid-edit must not yank settings out from under a running shell.
//!
//! [`ConfigStore`] is the shared handle: load once at startup, `get()` from
//! wherever settings are consumed, `reload()` when a reload is asked for. It is
//! handed what became of reading the file ([`FileState`]).
use vstd::prelude::*;

use crate::number;
use crate::paths;
use crate::text;

verus! {

/// An sRGB colour, written as `"#rrggbb"`.
#[derive(Debug, Clone, Copy, PartialEq, Eq, Structural)]
pub struct Color {
    pub r: u8,
    pub g: u8,
    pub b: u8,
}

/// `str`'s `Debug` text of a string: quoted and escaped.
pub uninterp spec fn debug_text(s: Seq<char>) -> Seq<char>;

/// Quotes and escapes a string with `{:?}` of `format!`, whose result is a
/// function of the string alone.
#[verifier::external_body]
pub(crate) fn quoted(s: &str) -> (r: String)
    ensures
        r@ == debug_text(s@),
{
    format!("{s:?}")
}

/// Whether a text is a colour: a `#` and six hexadecimal digits.
pub open spec fn is_color_text(s: Seq<char>) -> bool {
    &&& s.len() == 7
    &&& s[0] == '#'
    &&& forall|i: int| 1 <= i < 7 ==> number::is_hex(#[trigger] s[i])
}

/// The value of two hexadecimal digits.
pub open spec fn pair_value(high: char, low: char) -> int {
    number::hex_of(high) * 16 + number::hex_of(low)
}

/// The colour a colour text stands for: two digits per channel.
pub open spec fn color_in(s: Seq<char>) -> Color {
    Color {
        r: pair_value(s[1], s[2]) as u8,
        g: pair_value(s[3], s[4]) as u8,
        b: pair_value(s[5], s[6]) as u8,
    }
}

/// The text of a colour: `#rrggbb` in lower case.
pub open spec fn color_text(c: Color) -> Seq<char> {
    seq![
        '#',
        number::hex_char(c.r as int / 16),
        number::hex_char(c.r as int % 16),
        number::hex_char(c.g as int / 16),
        number::hex_char(c.g as int % 16),
        number::hex_char(c.b as int / 16),
        number::hex_char(c.b as int % 16),
    ]
}

/// What a text that is no colour is answered.
pub open spec fn color_error(s: Seq<char>) -> Seq<char> {
    "invalid color "@ + debug_text(s) + " (expected \"#rrggbb\")"@
}

impl Color {
    /// The colour `"#rrggbb"` stands for, in either case of digits; an error
    /// that quotes the text otherwise.
    pub fn parse(s: &str) -> (r: Result<Color, String>)
        ensures
            r is Ok <==> is_color_text(s@),
            r matches Ok(c) ==> c == color_in(s@),
            r matches Err(e) ==> e@ == color_error(s@),
    {
        match parse_color(s) {
            Some(c) => Ok(c),
            None => {
                let head = text::joined("invalid color ", quoted(s).as_str());
                Err(text::joined(head.as_str(), " (expected \"#rrggbb\")"))
            },
        }
    }

    /// The colour as `"#rrggbb"`, in lower case.
    pub fn to_text(self) -> (r: String)
        ensures
            r@ == color_text(self),
    {
        let mut out = String::new();
        out.push('#');
        number::push_hex_byte(&mut out, self.r);
        number::push_hex_byte(&mut out, self.g);
        number::push_hex_byte(&mut out, self.b);
        proof {
            assert(out@ =~= color_text(self));
        }
        out
    }
}

impl std::str::FromStr for Color {
    type Err = String;

    fn from_str(s: &str) -> (r: Result<Self, Self::Err>)
        ensures
            r is Ok <==> is_color_text(s@),
            r matches Ok(c) ==> c == color_in(s@),
            r matches Err(e) ==> e@ == color_error(s@),
    {
        Color::parse(s)
    }
}

/// The value of two hexadecimal digits, if they are.
fn parse_pair(high: char, low: char) -> (r: Option<u8>)
    ensures
        r is Some <==> number::is_hex(high) && number::is_hex(low),
        r matches Some(v) ==> v == pair_value(high, low),
{
    match (number::hex_digit(high), number::hex_digit(low)) {
        (Some(h), Some(l)) => Some((h * 16 + l) as u8),
        _ => None,
    }
}

/// The colour a text stands for, if it is one.
fn parse_color(s: &str) -> (r: Option<Color>)
    ensures
        r is Some <==> is_color_text(s@),
        r matches Some(c) ==> c == color_in(s@),
{
    let chars = text::chars_of(s);
    if chars.len() != 7 || chars[0] != '#' {
        return None;
    }
    let red = parse_pair(chars[1], chars[2]);
    let green = parse_pair(chars[3], chars[4]);
    let blue = parse_pair(chars[5], chars[6]);
    match (red, green, blue) {
        (Some(r), Some(g), Some(b)) => Some(Color { r, g, b }),
        _ => None,
    }
}

/// Reading back the text of a colour gives that colour.
pub proof fn law_color_round_trips(c: Color)
    ensures
        is_color_text(color_text(c)),
        color_in(color_text(c)) == c,
{
    number::lemma_hex_char(c.r as int / 16);
    number::lemma_hex_char(c.r as int % 16);
    number::lemma_hex_char(c.g as int / 16);
    number::lemma_hex_char(c.g as int % 16);
    number::lemma_hex_char(c.b as int / 16);
    number::lemma_hex_char(c.b as int % 16);
}

/// The material behind the bar, written `"none"`, `"acrylic"` or `"mica"`.
#[derive(Debug, Clone, Copy, PartialEq, Eq, Structural)]
pub enum Backdrop {
    /// No system material: the bar's own colour and alpha.
    Plain,
    Acrylic,
    Mica,
}

/// What is painted behind everything.
#[derive(Debug, Eq)]
pub struct Wallpaper {
    /// Whether the wallpaper is ours to paint. Off leaves a neutral background.
    pub enabled: bool,
    /// Solid fill colour.
    pub color: Color,
    /// Path of an optional image; when set it wins over `color` (which still
    /// shows while the image loads or if it fails to).
    pub image: Option<String>,
}

/// The taskbar.
#[derive(Debug, Eq)]
pub struct Taskbar {
    pub enabled: bool,
    /// Height at 96 DPI.
    pub height: u32,
    /// Distance from the screen edges at 96 DPI; 0 docks the bar.
    pub margin: u32,
    pub color: Color,
    /// Opacity of the bar, 0 to 255.
    pub alpha: u8,
    /// Corner radius at 96 DPI.
    pub corner_radius: u32,
    pub backdrop: Backdrop,
    pub text_color: Color,
    /// Whether the clock shows the date too.
    pub show_date: bool,
    /// Paths of the pinned apps, in order.
    pub pinned: Vec<String>,
}

/// Logon autostart.
#[derive(Debug, PartialEq, Eq)]
pub struct Autostart {
    /// Master switch.
    pub enabled: bool,
    /// Ids of the entries that are not to run, matched without regard to case.
    pub disabled: Vec<String>,
}

/// The whole configuration.
#[derive(Debug, Eq)]
pub struct Config {
    pub wallpaper: Wallpaper,
    pub taskbar: Taskbar,
    pub autostart: Autostart,
}

/// A wallpaper section as a value.
#[verifier::ext_equal]
pub ghost struct WallpaperModel {
    pub enabled: bool,
    pub color: Color,
    pub image: Option<Seq<char>>,
}

/// A taskbar section as a value.
#[verifier::ext_equal]
pub ghost struct TaskbarModel {
    pub enabled: bool,
    pub height: u32,
    pub margin: u32,
    pub color: Color,
    pub alpha: u8,
    pub corner_radius: u32,
    pub backdrop: Backdrop,
    pub text_color: Color,
    pub show_date: bool,
    pub pinned: Seq<Seq<char>>,
}

/// An autostart section as a value.
#[verifier::ext_equal]
pub ghost struct AutostartModel {
    pub enabled: bool,
    pub disabled: Seq<Seq<char>>,
}

/// A configuration as a value.
#[verifier::ext_equal]
pub ghost struct ConfigModel {
    pub wallpaper: WallpaperModel,
    pub taskbar: TaskbarModel,
    pub autostart: AutostartModel,
}

/// The text of an optional string.
pub open spec fn optional_text(s: Option<String>) -> Option<Seq<char>> {
    match s {
        Some(t) => Some(t@),
        None => None,
    }
}

impl View for Wallpaper {
    type V = WallpaperModel;

    open spec fn view(&self) -> WallpaperModel {
        WallpaperModel {
            enabled: self.enabled,
            color: self.color,
            image: optional_text(self.image),
        }
    }
}

impl View for Taskbar {
    type V = TaskbarModel;

    open spec fn view(&self) -> TaskbarModel {
        TaskbarModel {
            enabled: self.enabled,
            height: self.height,
            margin: self.margin,
            color: self.color,
            alpha: self.alpha,
            corner_radius: self.corner_radius,
            backdrop: self.backdrop,
            text_color: self.text_color,
            show_date: self.show_date,
            pinned: text::texts(self.pinned@),
        }
    }
}

impl View for Autostart {
    type V = AutostartModel;

    open spec fn view(&self) -> AutostartModel {
        AutostartModel { enabled: self.enabled, disabled: text::texts(self.disabled@) }
    }
}

impl View for Config {
    type V = ConfigModel;

    open spec fn view(&self) -> ConfigModel {
        ConfigModel {
            wallpaper: self.wallpaper@,
            taskbar: self.taskbar@,
            autostart: self.autostart@,
        }
    }
}

/// A copy of an optional string.
fn copy_optional(s: &Option<String>) -> (r: Option<String>)
    ensures
        optional_text(r) == optional_text(*s),
{
    match s {
        Some(t) => Some(t.clone()),
        None => None,
    }
}

impl Clone for Wallpaper {
    fn clone(&self) -> (r: Self)
        ensures
            r@ == self@,
    {
        Wallpaper {
            enabled: self.enabled,
            color: self.color,
            image: copy_optional(&self.image),
        }
    }
}

impl Clone for Taskbar {
    fn clone(&self) -> (r: Self)
        ensures
            r@ == self@,
    {
        Taskbar {
            enabled: self.enabled,
            height: self.height,
            margin: self.margin,
            color: self.color,
            alpha: self.alpha,
            corner_radius: self.corner_radius,
            backdrop: self.backdrop,
            text_color: self.text_color,
            show_date: self.show_date,
            pinned: text::copy_strings(&self.pinned),
        }
    }
}

impl Clone for Autostart {
    fn clone(&self) -> (r: Self)
        ensures
            r@ == self@,
    {
        Autostart { enabled: self.enabled, disabled: text::copy_strings(&self.disabled) }
    }
}

impl Clone for Config {
    fn clone(&self) -> (r: Self)
        ensures
            r@ == self@,
    {
        Config {
            wallpaper: self.wallpaper.clone(),
            taskbar: self.taskbar.clone(),
            autostart: self.autostart.clone(),
        }
    }
}

/// Whether two wallpaper sections hold the same settings: the image is compared
/// as a path.
pub open spec fn same_wallpaper(a: WallpaperModel, b: WallpaperModel) -> bool {
    &&& a.enabled == b.enabled
    &&& a.color == b.color
    &&& paths::same_optional_path(a.image, b.image)
}

/// Whether two taskbar sections hold the same settings: pinned apps are compared
/// as paths.
pub open spec fn same_taskbar(a: TaskbarModel, b: TaskbarModel) -> bool {
    &&& a == (TaskbarModel { pinned: a.pinned, ..b })
    &&& paths::same_paths(a.pinned, b.pinned)
}

/// Whether two configurations hold the same settings, however their paths are
/// written.
pub open spec fn same_settings(a: ConfigModel, b: ConfigModel) -> bool {
    &&& same_wallpaper(a.wallpaper, b.wallpaper)
    &&& same_taskbar(a.taskbar, b.taskbar)
    &&& a.autostart == b.autostart
}

impl PartialEq for Wallpaper {
    fn eq(&self, other: &Self) -> (r: bool) {
        self.enabled == other.enabled && self.color == other.color && paths::same_optional(
            self.image.as_ref(),
            other.image.as_ref(),
        )
    }
}

impl vstd::std_specs::cmp::PartialEqSpecImpl for Wallpaper {
    open spec fn obeys_eq_spec() -> bool {
        true
    }

    open spec fn eq_spec(&self, other: &Self) -> bool {
        same_wallpaper(self@, other@)
    }
}

impl PartialEq for Taskbar {
    fn eq(&self, other: &Self) -> (r: bool) {
        self.enabled == other.enabled && self.height == other.height && self.margin == other.margin
            && self.color == other.color && self.alpha == other.alpha && self.corner_radius
            == other.corner_radius && self.backdrop == other.backdrop && self.text_color
            == other.text_color && self.show_date == other.show_date && paths::same_list(
            &self.pinned,
            &other.pinned,
        )
    }
}

impl vstd::std_specs::cmp::PartialEqSpecImpl for Taskbar {
    open spec fn obeys_eq_spec() -> bool {
        true
    }

    open spec fn eq_spec(&self, other: &Self) -> bool {
        same_taskbar(self@, other@)
    }
}

impl PartialEq for Config {
    fn eq(&self, other: &Self) -> (r: bool) {
        self.wallpaper == other.wallpaper && self.taskbar == other.taskbar && self.autostart.enabled
            == other.autostart.enabled && text::same_list(
            &self.autostart.disabled,
            &other.autostart.disabled,
        )
    }
}

impl vstd::std_specs::cmp::PartialEqSpecImpl for Config {
    open spec fn obeys_eq_spec() -> bool {
        true
    }

    open spec fn eq_spec(&self, other: &Self) -> bool {
        same_settings(self@, other@)
    }
}

/// The neutral desktop colour.
pub open spec fn default_wallpaper_color() -> Color {
    Color { r: 0x1a, g: 0x1a, b: 0x2e }
}

/// The configuration of a fresh install: every surface on.
pub open spec fn default_config() -> ConfigModel {
    ConfigModel {
        wallpaper: WallpaperModel {
            enabled: true,
            color: default_wallpaper_color(),
            image: None,
        },
        taskbar: TaskbarModel {
            enabled: true,
            height: 48,
            margin: 8,
            color: Color { r: 0x10, g: 0x10, b: 0x1a },
            alpha: 224,
            corner_radius: 12,
            backdrop: Backdrop::Plain,
            text_color: Color { r: 0xff, g: 0xff, b: 0xff },
            show_date: true,
            pinned: Seq::empty(),
        },
        autostart: AutostartModel { enabled: true, disabled: Seq::empty() },
    }
}

impl Default for Wallpaper {
    fn default() -> (r: Self)
        ensures
            r@ == default_config().wallpaper,
    {
        Wallpaper { enabled: true, color: Color { r: 0x1a, g: 0x1a, b: 0x2e }, image: None }
    }
}

impl Default for Taskbar {
    fn default() -> (r: Self)
        ensures
            r@ == default_config().taskbar,
    {
        Taskbar {
            enabled: true,
            height: 48,
            margin: 8,
            color: Color { r: 0x10, g: 0x10, b: 0x1a },
            alpha: 224,
            corner_radius: 12,
            backdrop: Backdrop::Plain,
            text_color: Color { r: 0xff, g: 0xff, b: 0xff },
            show_date: true,
            pinned: Vec::new(),
        }
    }
}

impl Default for Autostart {
    fn default() -> (r: Self)
        ensures
            r@ == default_config().autostart,
    {
        Autostart { enabled: true, disabled: Vec::new() }
    }
}

impl Default for Config {
    fn default() -> (r: Self)
        ensures
            r@ == default_config(),
    {
        Config {
            wallpaper: Wallpaper::default(),
            taskbar: Taskbar::default(),
            autostart: Autostart::default(),
        }
    }
}

impl Wallpaper {
    /// The colour to fill with: the configured one, or the neutral default
    /// where the wallpaper is off.
    pub fn effective_color(&self) -> (r: Color)
        ensures
            r == if self.enabled {
                self.color
            } else {
                default_wallpaper_color()
            },
    {
        if self.enabled {
            self.color
        } else {
            Color { r: 0x1a, g: 0x1a, b: 0x2e }
        }
    }

    /// The image to show: the configured one, or none where the wallpaper is
    /// off.
    pub fn effective_image(&self) -> (r: Option<&String>)
        ensures
            r == if self.enabled {
                match self.image {
                    Some(path) => Some(&path),
                    None => None,
                }
            } else {
                None
            },
    {
        if self.enabled {
            self.image.as_ref()
        } else {
            None
        }
    }
}

/// The list without the entries that match `id` but for case, in order.
pub open spec fn without_id(list: Seq<Seq<char>>, id: Seq<char>) -> Seq<Seq<char>>
    decreases list.len(),
{
    if list.len() == 0 {
        Seq::empty()
    } else if text::same_ignoring_case(list.last(), id) {
        without_id(list.drop_last(), id)
    } else {
        without_id(list.drop_last(), id).push(list.last())
    }
}

/// The `disabled` list after switching one id: added at the end where it is
/// not there in any case, or removed in every case it is there in.
pub open spec fn disabled_after(
    list: Seq<Seq<char>>,
    id: Seq<char>,
    disabled: bool,
) -> Seq<Seq<char>> {
    if !disabled {
        without_id(list, id)
    } else if text::listed_ignoring_case(list, id) {
        list
    } else {
        list.push(id)
    }
}

impl Autostart {
    /// Whether an id is on the `disabled` list, without regard to case.
    pub open spec fn disables(&self, id: Seq<char>) -> bool {
        text::listed_ignoring_case(text::texts(self.disabled@), id)
    }

    /// Whether the entry with this id is switched off.
    pub fn is_disabled(&self, id: &str) -> (r: bool)
        ensures
            r == self.disables(id@),
    {
        text::contains_ignoring_case(&self.disabled, id)
    }

    /// Whether the entry with this id may run.
    pub fn allows(&self, id: &str) -> (r: bool)
        ensures
            r == (self.enabled && !self.disables(id@)),
    {
        self.enabled && !self.is_disabled(id)
    }

    /// Switch the entry with this id off or on.
    pub fn set_disabled(&mut self, id: &str, disabled: bool)
        ensures
            final(self).enabled == old(self).enabled,
            final(self)@.disabled == disabled_after(old(self)@.disabled, id@, disabled),
    {
        if disabled {
            if !self.is_disabled(id) {
                let ghost before = self.disabled@;
                self.disabled.push(id.to_owned());
                proof {
                    assert(text::texts(self.disabled@) =~= text::texts(before).push(id@));
                }
            }
            return;
        }
        let mut kept: Vec<String> = Vec::new();
        let mut i: usize = 0;
        let ghost all = text::texts(self.disabled@);
        while i < self.disabled.len()
            invariant
                i <= self.disabled@.len(),
                all == text::texts(self.disabled@),
                self.enabled == old(self).enabled,
                self.disabled == old(self).disabled,
                text::texts(kept@) == without_id(all.take(i as int), id@),
            decreases self.disabled@.len() - i,
        {
            proof {
                assert(all.take(i + 1).drop_last() =~= all.take(i as int));
                assert(all.take(i + 1).last() == self.disabled@[i as int]@);
            }
            if !text::eq_ignore_case(self.disabled[i].as_str(), id) {
                let copy = self.disabled[i].clone();
                proof {
                    assert(text::texts(kept@.push(copy)) =~= text::texts(kept@).push(copy@));
                }
                kept.push(copy);
            }
            i = i + 1;
        }
        proof {
            assert(all.take(all.len() as int) =~= all);
        }
        self.disabled = kept;
    }
}

/// An entry survives `without_id` exactly when it does not match.
proof fn lemma_without_id(list: Seq<Seq<char>>, id: Seq<char>, other: Seq<char>)
    ensures
        text::listed_ignoring_case(without_id(list, id), other) <==> text::listed_ignoring_case(
            list,
            other,
        ) && !text::same_ignoring_case(other, id),
    decreases list.len(),
{
    let kept = without_id(list, id);
    if list.len() > 0 {
        let init = list.drop_last();
        let rest = without_id(init, id);
        lemma_without_id(init, id, other);
        if text::listed_ignoring_case(kept, other) {
            let i = choose|i: int|
                0 <= i < kept.len() && text::same_ignoring_case(#[trigger] kept[i], other);
            if i < rest.len() {
                assert(kept[i] == rest[i]);
                assert(text::listed_ignoring_case(rest, other));
                let k = choose|k: int|
                    0 <= k < init.len() && text::same_ignoring_case(#[trigger] init[k], other);
                assert(list[k] == init[k]);
            } else {
                assert(list[list.len() - 1] == kept[i]);
            }
        }
        if text::listed_ignoring_case(list, other) && !text::same_ignoring_case(other, id) {
            let k = choose|k: int|
                0 <= k < list.len() && text::same_ignoring_case(#[trigger] list[k], other);
            if k < init.len() {
                assert(init[k] == list[k]);
                assert(text::listed_ignoring_case(rest, other));
                let m = choose|m: int|
                    0 <= m < rest.len() && text::same_ignoring_case(#[trigger] rest[m], other);
                assert(kept[m] == rest[m]);
            } else {
                assert(kept[kept.len() - 1] == list[k]);
            }
        }
    }
}

/// Switching an entry off or on does exactly that, and touches no entry with
/// another id.
pub proof fn law_switching_one_entry_leaves_the_others(
    list: Seq<Seq<char>>,
    id: Seq<char>,
    disabled: bool,
    other: Seq<char>,
)
    ensures
        text::listed_ignoring_case(disabled_after(list, id, disabled), id) == disabled,
        !text::same_ignoring_case(other, id) ==> (text::listed_ignoring_case(
            disabled_after(list, id, disabled),
            other,
        ) <==> text::listed_ignoring_case(list, other)),
{
    let after = disabled_after(list, id, disabled);
    if !disabled {
        lemma_without_id(list, id, id);
        lemma_without_id(list, id, other);
    } else if !text::listed_ignoring_case(list, id) {
        assert(after[list.len() as int] == id);
        assert(text::same_ignoring_case(after[list.len() as int], id));
        if text::listed_ignoring_case(after, other) {
            let i = choose|i: int|
                0 <= i < after.len() && text::same_ignoring_case(#[trigger] after[i], other);
            if i < list.len() {
                assert(list[i] == after[i]);
            }
        }
        if text::listed_ignoring_case(list, other) {
            let i = choose|i: int|
                0 <= i < list.len() && text::same_ignoring_case(#[trigger] list[i], other);
            assert(after[i] == list[i]);
        }
    }
}

/// What became of reading the config file.
pub enum FileState {
    /// There is no file: a normal state, not an error.
    Missing,
    /// The file exists but is unreadable or malformed.
    Broken,
    /// The file parsed.
    Parsed(Config),
}

/// The current config plus where it came from.
pub struct ConfigStore {
    pub path: Option<String>,
    pub current: Config,
}

/// The config in effect after the startup load.
pub open spec fn config_at_startup(path: Option<String>, file: FileState) -> ConfigModel {
    match (path, file) {
        (Some(_), FileState::Parsed(config)) => config@,
        _ => default_config(),
    }
}

/// The config in effect after a reload.
pub open spec fn config_after_reload(
    path: Option<String>,
    current: ConfigModel,
    file: FileState,
) -> ConfigModel {
    match (path, file) {
        (None, _) => current,
        (Some(_), FileState::Parsed(config)) => config@,
        (Some(_), FileState::Missing) => default_config(),
        (Some(_), FileState::Broken) => current,
    }
}

/// Where the config lives: `WinRestyle\config.toml` below the roaming
/// application data directory, or nowhere known where that is unset (never the
/// case in a real logon session).
pub open spec fn config_location(appdata: Option<Seq<char>>) -> Option<Seq<char>> {
    match appdata {
        Some(base) => Some(
            paths::below(paths::below(base, "WinRestyle"@), "config.toml"@),
        ),
        None => None,
    }
}

/// The path of the config file, given the roaming application data directory
/// (`%APPDATA%`).
pub fn default_path(appdata: Option<&str>) -> (r: Option<String>)
    ensures
        optional_text(r) == config_location(
            match appdata {
                Some(base) => Some(base@),
                None => None,
            },
        ),
{
    match appdata {
        Some(base) => {
            let dir = paths::join(base, "WinRestyle");
            Some(paths::join(dir.as_str(), "config.toml"))
        },
        None => None,
    }
}

impl ConfigStore {
    /// Load from [`default_path`], given what became of reading that file.
    pub fn load_default(appdata: Option<&str>, file: FileState) -> (r: Self)
        ensures
            optional_text(r.path) == config_location(
                match appdata {
                    Some(base) => Some(base@),
                    None => None,
                },
            ),
            r.current@ == config_at_startup(r.path, file),
    {
        Self::load(default_path(appdata), file)
    }

    /// Load with the startup fallback rules, given what became of reading the
    /// file at `path` (missing or invalid: defaults). `path: None` (no known
    /// location) also means defaults.
    pub fn load(path: Option<String>, file: FileState) -> (r: Self)
        ensures
            r.path == path,
            r.current@ == config_at_startup(path, file),
    {
        let config = match (&path, file) {
            (Some(_), FileState::Parsed(config)) => config,
            _ => Config::default(),
        };
        ConfigStore { path, current: config }
    }

    /// A snapshot of the current config.
    pub fn get(&self) -> (r: Config)
        ensures
            r@ == self.current@,
    {
        self.current.clone()
    }

    /// Take over a re-read of the file. Missing file: defaults (the file's
    /// absence is what it now says); broken file: keep what we have. Returns
    /// the config now in effect.
    pub fn reload(&mut self, file: FileState) -> (r: Config)
        ensures
            final(self).path == old(self).path,
            final(self).current@ == config_after_reload(
                old(self).path,
                old(self).current@,
                file,
            ),
            r@ == final(self).current@,
    {
        if self.path.is_none() {
            return self.get();
        }
        match file {
            FileState::Parsed(config) => {
                self.current = config;
            },
            FileState::Missing => {
                self.current = Config::default();
            },
            FileState::Broken => {},
        }
        self.get()
    }
}

/// A broken file never changes anything but at startup, where it means the
/// defaults; a removed one means the defaults again.
pub proof fn law_broken_files_never_take_settings_away(
    path: Option<String>,
    current: ConfigModel,
)
    ensures
        config_at_startup(path, FileState::Broken) == default_config(),
        config_at_startup(path, FileState::Missing) == default_config(),
        config_after_reload(path, current, FileState::Broken) == current,
        path is Some ==> config_after_reload(path, current, FileState::Missing)
            == default_config(),
        path is None ==> config_after_reload(path, current, FileState::Missing) == current,
{
}

/// A text is a colour where it is a `#` and six hexadecimal digits of either case;
/// the digits are red, green and blue, two for each.
pub proof fn law_colors_are_written_in_pairs(s: Seq<char>)
    ensures
        is_color_text(s) <==> s.len() == 7 && s[0] == '#' && forall|i: int|
            1 <= i < 7 ==> 48 <= (#[trigger] s[i]) as int <= 57 || 65 <= s[i] as int <= 70 || 97
                <= s[i] as int <= 102,
        is_color_text(s) ==> {
            &&& color_in(s).r == number::hex_value(s.subrange(1, 3))
            &&& color_in(s).g == number::hex_value(s.subrange(3, 5))
            &&& color_in(s).b == number::hex_value(s.subrange(5, 7))
        },
{
    if s.len() == 7 && s[0] == '#' && forall|i: int|
        1 <= i < 7 ==> 48 <= (#[trigger] s[i]) as int <= 57 || 65 <= s[i] as int <= 70 || 97
            <= s[i] as int <= 102 {
        assert forall|i: int| 1 <= i < 7 implies number::is_hex(#[trigger] s[i]) by {}
    }
    if is_color_text(s) {
        lemma_pair(s, 1);
        lemma_pair(s, 3);
        lemma_pair(s, 5);
    }
}

proof fn lemma_pair(s: Seq<char>, at: int)
    requires
        is_color_text(s),
        1 <= at <= 5,
    ensures
        pair_value(s[at], s[at + 1]) == number::hex_value(s.subrange(at, at + 2)),
        0 <= pair_value(s[at], s[at + 1]) < 256,
{
    let none = Seq::<char>::empty();
    number::lemma_hex_push(none, s[at]);
    number::lemma_hex_push(none.push(s[at]), s[at + 1]);
    assert(s.subrange(at, at + 2) =~= none.push(s[at]).push(s[at + 1]));
    assert(number::hex_value(none) == 0);
    assert(number::is_hex(s[at]));
    assert(number::is_hex(s[at + 1]));
}

/// A colour is written with its digits in lower case, and reads back.
pub proof fn law_colors_are_written_in_lower_case(c: Color)
    ensures
        color_text(c).len() == 7,
        color_text(c)[0] == '#',
        forall|i: int|
            1 <= i < 7 ==> 48 <= (#[trigger] color_text(c)[i]) as int <= 57 || 97 <= color_text(
                c,
            )[i] as int <= 102,
        number::hex_value(color_text(c).subrange(1, 3)) == c.r,
        number::hex_value(color_text(c).subrange(3, 5)) == c.g,
        number::hex_value(color_text(c).subrange(5, 7)) == c.b,
{
    law_color_round_trips(c);
    law_colors_are_written_in_pairs(color_text(c));
}

/// What a text that is no colour is answered quotes it and says what was expected.
pub proof fn law_a_bad_color_is_quoted(s: Seq<char>)
    ensures
        color_error(s) == "invalid color "@ + debug_text(s) + " (expected \"#rrggbb\")"@,
{
}

/// Two configurations hold the same settings exactly where every setting is the
/// same: the image and the pinned apps as paths, in order, all others as they are.
pub proof fn law_configurations_compare_setting_by_setting(a: Config, b: Config)
    ensures
        same_settings(a@, b@) <==> {
            &&& a.wallpaper.enabled == b.wallpaper.enabled
            &&& a.wallpaper.color == b.wallpaper.color
            &&& a.wallpaper.image is Some <==> b.wallpaper.image is Some
            &&& a.wallpaper.image is Some ==> paths::same_path(
                (a.wallpaper.image->0)@,
                (b.wallpaper.image->0)@,
            )
            &&& a.taskbar.enabled == b.taskbar.enabled
            &&& a.taskbar.height == b.taskbar.height
            &&& a.taskbar.margin == b.taskbar.margin
            &&& a.taskbar.color == b.taskbar.color
            &&& a.taskbar.alpha == b.taskbar.alpha
            &&& a.taskbar.corner_radius == b.taskbar.corner_radius
            &&& a.taskbar.backdrop == b.taskbar.backdrop
            &&& a.taskbar.text_color == b.taskbar.text_color
            &&& a.taskbar.show_date == b.taskbar.show_date
            &&& a.taskbar.pinned@.len() == b.taskbar.pinned@.len()
            &&& forall|i: int|
                0 <= i < a.taskbar.pinned@.len() ==> paths::same_path(
                    (#[trigger] a.taskbar.pinned@[i])@,
                    b.taskbar.pinned@[i]@,
                )
            &&& a.autostart.enabled == b.autostart.enabled
            &&& a.autostart.disabled@.len() == b.autostart.disabled@.len()
            &&& forall|i: int|
                0 <= i < a.autostart.disabled@.len() ==> (#[trigger] a.autostart.disabled@[i])@
                    == b.autostart.disabled@[i]@
        },
{
    let p = text::texts(a.taskbar.pinned@);
    let q = text::texts(b.taskbar.pinned@);
    let x = text::texts(a.autostart.disabled@);
    let y = text::texts(b.autostart.disabled@);
    assert(p.len() == a.taskbar.pinned@.len() && q.len() == b.taskbar.pinned@.len());
    assert(x.len() == a.autostart.disabled@.len() && y.len() == b.autostart.disabled@.len());
    assert forall|i: int| 0 <= i < p.len() implies #[trigger] p[i] == a.taskbar.pinned@[i]@ by {}
    assert forall|i: int| 0 <= i < q.len() implies #[trigger] q[i] == b.taskbar.pinned@[i]@ by {}
    if same_settings(a@, b@) {
        assert(x == y);
        assert forall|i: int| 0 <= i < a.autostart.disabled@.len() implies (
        #[trigger] a.autostart.disabled@[i])@ == b.autostart.disabled@[i]@ by {
            assert(x[i] == y[i]);
        }
        assert forall|i: int| 0 <= i < a.taskbar.pinned@.len() implies paths::same_path(
            (#[trigger] a.taskbar.pinned@[i])@,
            b.taskbar.pinned@[i]@,
        ) by {
            assert(paths::same_path(p[i], q[i]));
        }
    }
    if a.autostart.disabled@.len() == b.autostart.disabled@.len() && forall|i: int|
        0 <= i < a.autostart.disabled@.len() ==> (#[trigger] a.autostart.disabled@[i])@
            == b.autostart.disabled@[i]@ {
        assert(x =~= y);
        assert(a.autostart@ =~= b.autostart@ || a.autostart.enabled != b.autostart.enabled);
    }
    if a.taskbar.pinned@.len() == b.taskbar.pinned@.len() && forall|i: int|
        0 <= i < a.taskbar.pinned@.len() ==> paths::same_path(
            (#[trigger] a.taskbar.pinned@[i])@,
            b.taskbar.pinned@[i]@,
        ) {
        assert forall|i: int| 0 <= i < p.len() implies paths::same_path(#[trigger] p[i], q[i]) by {
            assert(paths::same_path(a.taskbar.pinned@[i]@, b.taskbar.pinned@[i]@));
        }
        assert(paths::same_paths(p, q));
    }
}

/// What a fresh install is set to: every surface on, a dark desktop without an
/// image, and a floating bar that shows the date.
pub proof fn law_a_fresh_install_has_everything_on()
    ensures
        default_config().wallpaper.enabled,
        default_config().taskbar.enabled,
        default_config().autostart.enabled,
        default_config().wallpaper.image is None,
        default_config().wallpaper.color == (Color { r: 26, g: 26, b: 46 }),
        default_config().taskbar.height == 48,
        default_config().taskbar.margin == 8,
        default_config().taskbar.color == (Color { r: 16, g: 16, b: 26 }),
        default_config().taskbar.alpha == 224,
        default_config().taskbar.corner_radius == 12,
        default_config().taskbar.backdrop == Backdrop::Plain,
        default_config().taskbar.text_color == (Color { r: 255, g: 255, b: 255 }),
        default_config().taskbar.show_date,
        default_config().taskbar.pinned.len() == 0,
        default_config().autostart.disabled.len() == 0,
        default_wallpaper_color() == default_config().wallpaper.color,
{
}

/// Switching an entry off puts its id at the end of the list, unless it is there in
/// some case; switching it on takes it out in every case. All other ids keep their
/// place.
pub proof fn law_the_disabled_list_keeps_its_order(
    list: Seq<Seq<char>>,
    last: Seq<char>,
    id: Seq<char>,
)
    ensures
        disabled_after(Seq::empty(), id, false).len() == 0,
        disabled_after(list.push(last), id, false) == if text::same_ignoring_case(last, id) {
            disabled_after(list, id, false)
        } else {
            disabled_after(list, id, false).push(last)
        },
        (exists|i: int| 0 <= i < list.len() && text::same_ignoring_case(#[trigger] list[i], id))
            ==> disabled_after(list, id, true) == list,
        (forall|i: int| 0 <= i < list.len() ==> !text::same_ignoring_case(#[trigger] list[i], id))
            ==> disabled_after(list, id, true) == list.push(id),
{
    assert(list.push(last).drop_last() =~= list);
    assert(list.push(last).last() == last);
}

/// A file that parses is what is in effect from then on, at startup and on a
/// reload, where there is a place for it.
pub proof fn law_a_parsed_file_takes_effect(path: Option<String>, current: ConfigModel, c: Config)
    ensures
        path is Some ==> config_at_startup(path, FileState::Parsed(c)) == c@,
        path is Some ==> config_after_reload(path, current, FileState::Parsed(c)) == c@,
        path is None ==> config_at_startup(path, FileState::Parsed(c)) == default_config(),
        path is None ==> config_after_reload(path, current, FileState::Parsed(c)) == current,
{
}

/// The configuration stands in the project's folder below the application data.
pub proof fn law_the_configuration_has_its_place(base: Seq<char>)
    requires
        base.len() > 2,
        base.last() != '\\' && base.last() != '/',
    ensures
        config_location(Some(base)) == Some(base + "\\WinRestyle\\config.toml"@),
        config_location(None) is None,
{
    reveal_strlit("WinRestyle");
    reveal_strlit("config.toml");
    reveal_strlit("\\WinRestyle\\config.toml");
    let dir = base + seq!['\\'] + "WinRestyle"@;
    assert(dir.last() == 'e');
    assert(paths::below(base, "WinRestyle"@) == dir);
    assert(paths::below(dir, "config.toml"@) =~= base + "\\WinRestyle\\config.toml"@);
}

/// An entry is off exactly where its id is on the list, in any case.
pub proof fn law_listed_ids_are_off(a: Autostart, id: Seq<char>)
    ensures
        a.disables(id) <==> exists|i: int|
            0 <= i < a.disabled@.len() && text::same_ignoring_case(
                (#[trigger] a.disabled@[i])@,
                id,
            ),
{
    let list = text::texts(a.disabled@);
    if a.disables(id) {
        let i = choose|i: int| 0 <= i < list.len() && text::same_ignoring_case(#[trigger] list[i], id);
        assert(list[i] == a.disabled@[i]@);
    }
    if exists|i: int|
        0 <= i < a.disabled@.len() && text::same_ignoring_case((#[trigger] a.disabled@[i])@, id) {
        let i = choose|i: int|
            0 <= i < a.disabled@.len() && text::same_ignoring_case((#[trigger] a.disabled@[i])@, id);
        assert(list[i] == a.disabled@[i]@);
    }
}

} // verus!
