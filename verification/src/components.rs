//! The component registry: the restylable surfaces the manager shows as a
//! checklist. Each [`Component`] knows how to read and flip its own on/off
//! state in a [`Config`], so the manager renders one row per component and
//! calls the trait, never special-casing taskbar or wallpaper.
//!
//! [`Component::install`] turns a component on in a config,
//! [`Component::uninstall`] turns it off, and [`Registry::apply`] is the
//! plural: given the ids the user checked, it produces the config that reflects
//! exactly that selection.
use vstd::prelude::*;

use crate::config::Config;
use crate::text;

verus! {

/// One restylable surface (taskbar, wallpaper, autostart management).
pub trait Component {
    /// The stable id.
    spec fn id_text(&self) -> Seq<char>;

    /// The display name.
    spec fn name_text(&self) -> Seq<char>;

    /// The one-line description.
    spec fn summary_text(&self) -> Seq<char>;

    /// Whether the component is on in a configuration.
    spec fn is_on(&self, config: crate::config::ConfigModel) -> bool;

    /// The configuration with the component switched on or off, and nothing
    /// else changed.
    spec fn switched(
        &self,
        config: crate::config::ConfigModel,
        on: bool,
    ) -> crate::config::ConfigModel;

    /// Stable id, used in the selection. Kebab-case, e.g. `"taskbar"`.
    fn id(&self) -> (r: &'static str)
        ensures
            r@ == self.id_text(),
    ;

    /// Display name for the checklist row.
    fn name(&self) -> (r: &'static str)
        ensures
            r@ == self.name_text(),
    ;

    /// One-line description of what turning it on does.
    fn summary(&self) -> (r: &'static str)
        ensures
            r@ == self.summary_text(),
    ;

    /// Is the component currently on in `config`?
    fn is_installed(&self, config: &Config) -> (r: bool)
        ensures
            r == self.is_on(config@),
    ;

    /// Turn it on.
    fn install(&self, config: &mut Config)
        ensures
            final(config)@ == self.switched(old(config)@, true),
    ;

    /// Turn it off.
    fn uninstall(&self, config: &mut Config)
        ensures
            final(config)@ == self.switched(old(config)@, false),
    ;
}

/// The taskbar surface.
#[derive(Debug, Clone, Copy, PartialEq, Eq, Structural)]
pub struct TaskbarComponent;

impl Component for TaskbarComponent {
    open spec fn id_text(&self) -> Seq<char> {
        "taskbar"@
    }

    open spec fn name_text(&self) -> Seq<char> {
        "Taskbar"@
    }

    open spec fn summary_text(&self) -> Seq<char> {
        "Rounded, translucent taskbar with Start, pinned apps, window buttons, tray, and clock."@
    }

    open spec fn is_on(&self, config: crate::config::ConfigModel) -> bool {
        config.taskbar.enabled
    }

    open spec fn switched(
        &self,
        config: crate::config::ConfigModel,
        on: bool,
    ) -> crate::config::ConfigModel {
        crate::config::ConfigModel {
            taskbar: crate::config::TaskbarModel { enabled: on, ..config.taskbar },
            ..config
        }
    }

    fn id(&self) -> &'static str {
        "taskbar"
    }

    fn name(&self) -> &'static str {
        "Taskbar"
    }

    fn summary(&self) -> &'static str {
        "Rounded, translucent taskbar with Start, pinned apps, window buttons, tray, and clock."
    }

    fn is_installed(&self, config: &Config) -> bool {
        config.taskbar.enabled
    }

    fn install(&self, config: &mut Config) {
        config.taskbar.enabled = true;
    }

    fn uninstall(&self, config: &mut Config) {
        config.taskbar.enabled = false;
    }
}

/// The desktop wallpaper.
#[derive(Debug, Clone, Copy, PartialEq, Eq, Structural)]
pub struct WallpaperComponent;

impl Component for WallpaperComponent {
    open spec fn id_text(&self) -> Seq<char> {
        "wallpaper"@
    }

    open spec fn name_text(&self) -> Seq<char> {
        "Wallpaper"@
    }

    open spec fn summary_text(&self) -> Seq<char> {
        "Paint a custom desktop color or image. Off leaves a neutral background."@
    }

    open spec fn is_on(&self, config: crate::config::ConfigModel) -> bool {
        config.wallpaper.enabled
    }

    open spec fn switched(
        &self,
        config: crate::config::ConfigModel,
        on: bool,
    ) -> crate::config::ConfigModel {
        crate::config::ConfigModel {
            wallpaper: crate::config::WallpaperModel { enabled: on, ..config.wallpaper },
            ..config
        }
    }

    fn id(&self) -> &'static str {
        "wallpaper"
    }

    fn name(&self) -> &'static str {
        "Wallpaper"
    }

    fn summary(&self) -> &'static str {
        "Paint a custom desktop color or image. Off leaves a neutral background."
    }

    fn is_installed(&self, config: &Config) -> bool {
        config.wallpaper.enabled
    }

    fn install(&self, config: &mut Config) {
        config.wallpaper.enabled = true;
    }

    fn uninstall(&self, config: &mut Config) {
        config.wallpaper.enabled = false;
    }
}

/// Logon-autostart management. Turning it on lets the shell run what the stock
/// desktop would at logon; the per-entry opt-outs are the manager's
/// startup-programs list.
#[derive(Debug, Clone, Copy, PartialEq, Eq, Structural)]
pub struct AutostartComponent;

impl Component for AutostartComponent {
    open spec fn id_text(&self) -> Seq<char> {
        "autostart"@
    }

    open spec fn name_text(&self) -> Seq<char> {
        "Startup programs"@
    }

    open spec fn summary_text(&self) -> Seq<char> {
        "Run your logon startup apps (Run keys and Startup folders) in explorer's stead."@
    }

    open spec fn is_on(&self, config: crate::config::ConfigModel) -> bool {
        config.autostart.enabled
    }

    open spec fn switched(
        &self,
        config: crate::config::ConfigModel,
        on: bool,
    ) -> crate::config::ConfigModel {
        crate::config::ConfigModel {
            autostart: crate::config::AutostartModel { enabled: on, ..config.autostart },
            ..config
        }
    }

    fn id(&self) -> &'static str {
        "autostart"
    }

    fn name(&self) -> &'static str {
        "Startup programs"
    }

    fn summary(&self) -> &'static str {
        "Run your logon startup apps (Run keys and Startup folders) in explorer's stead."
    }

    fn is_installed(&self, config: &Config) -> bool {
        config.autostart.enabled
    }

    fn install(&self, config: &mut Config) {
        config.autostart.enabled = true;
    }

    fn uninstall(&self, config: &mut Config) {
        config.autostart.enabled = false;
    }
}

/// Any of the components, so that a list can hold all of them.
#[derive(Debug, Clone, Copy, PartialEq, Eq, Structural)]
pub enum AnyComponent {
    Taskbar(TaskbarComponent),
    Wallpaper(WallpaperComponent),
    Autostart(AutostartComponent),
}

impl Component for AnyComponent {
    open spec fn id_text(&self) -> Seq<char> {
        match self {
            AnyComponent::Taskbar(c) => c.id_text(),
            AnyComponent::Wallpaper(c) => c.id_text(),
            AnyComponent::Autostart(c) => c.id_text(),
        }
    }

    open spec fn name_text(&self) -> Seq<char> {
        match self {
            AnyComponent::Taskbar(c) => c.name_text(),
            AnyComponent::Wallpaper(c) => c.name_text(),
            AnyComponent::Autostart(c) => c.name_text(),
        }
    }

    open spec fn summary_text(&self) -> Seq<char> {
        match self {
            AnyComponent::Taskbar(c) => c.summary_text(),
            AnyComponent::Wallpaper(c) => c.summary_text(),
            AnyComponent::Autostart(c) => c.summary_text(),
        }
    }

    open spec fn is_on(&self, config: crate::config::ConfigModel) -> bool {
        match self {
            AnyComponent::Taskbar(c) => c.is_on(config),
            AnyComponent::Wallpaper(c) => c.is_on(config),
            AnyComponent::Autostart(c) => c.is_on(config),
        }
    }

    open spec fn switched(
        &self,
        config: crate::config::ConfigModel,
        on: bool,
    ) -> crate::config::ConfigModel {
        match self {
            AnyComponent::Taskbar(c) => c.switched(config, on),
            AnyComponent::Wallpaper(c) => c.switched(config, on),
            AnyComponent::Autostart(c) => c.switched(config, on),
        }
    }

    fn id(&self) -> &'static str {
        match self {
            AnyComponent::Taskbar(c) => c.id(),
            AnyComponent::Wallpaper(c) => c.id(),
            AnyComponent::Autostart(c) => c.id(),
        }
    }

    fn name(&self) -> &'static str {
        match self {
            AnyComponent::Taskbar(c) => c.name(),
            AnyComponent::Wallpaper(c) => c.name(),
            AnyComponent::Autostart(c) => c.name(),
        }
    }

    fn summary(&self) -> &'static str {
        match self {
            AnyComponent::Taskbar(c) => c.summary(),
            AnyComponent::Wallpaper(c) => c.summary(),
            AnyComponent::Autostart(c) => c.summary(),
        }
    }

    fn is_installed(&self, config: &Config) -> bool {
        match self {
            AnyComponent::Taskbar(c) => c.is_installed(config),
            AnyComponent::Wallpaper(c) => c.is_installed(config),
            AnyComponent::Autostart(c) => c.is_installed(config),
        }
    }

    fn install(&self, config: &mut Config) {
        match self {
            AnyComponent::Taskbar(c) => c.install(config),
            AnyComponent::Wallpaper(c) => c.install(config),
            AnyComponent::Autostart(c) => c.install(config),
        }
    }

    fn uninstall(&self, config: &mut Config) {
        match self {
            AnyComponent::Taskbar(c) => c.uninstall(config),
            AnyComponent::Wallpaper(c) => c.uninstall(config),
            AnyComponent::Autostart(c) => c.uninstall(config),
        }
    }
}

/// The set of components the manager offers, in display order.
pub struct Registry {
    pub components: Vec<AnyComponent>,
}

/// Every shippable component, in display order.
pub open spec fn all_components() -> Seq<AnyComponent> {
    seq![
        AnyComponent::Taskbar(TaskbarComponent),
        AnyComponent::Wallpaper(WallpaperComponent),
        AnyComponent::Autostart(AutostartComponent),
    ]
}

/// The ids of the components that are on in a configuration, in order.
pub open spec fn ids_on(
    components: Seq<AnyComponent>,
    config: crate::config::ConfigModel,
) -> Seq<Seq<char>>
    decreases components.len(),
{
    if components.len() == 0 {
        Seq::empty()
    } else {
        let rest = ids_on(components.drop_last(), config);
        if components.last().is_on(config) {
            rest.push(components.last().id_text())
        } else {
            rest
        }
    }
}

/// The configuration with each component on exactly where its id is selected.
pub open spec fn selected_config(
    components: Seq<AnyComponent>,
    base: crate::config::ConfigModel,
    selected: Seq<Seq<char>>,
) -> crate::config::ConfigModel
    decreases components.len(),
{
    if components.len() == 0 {
        base
    } else {
        let c = components.last();
        c.switched(
            selected_config(components.drop_last(), base, selected),
            selected.contains(c.id_text()),
        )
    }
}

impl Registry {
    /// Every shippable component, in the order the checklist shows them.
    pub fn all() -> (r: Self)
        ensures
            r.components@ == all_components(),
    {
        let mut components: Vec<AnyComponent> = Vec::new();
        components.push(AnyComponent::Taskbar(TaskbarComponent));
        components.push(AnyComponent::Wallpaper(WallpaperComponent));
        components.push(AnyComponent::Autostart(AutostartComponent));
        proof {
            assert(components@ =~= all_components());
        }
        Registry { components }
    }

    /// The components, in display order.
    pub fn components(&self) -> (r: &[AnyComponent])
        ensures
            r@ == self.components@,
    {
        self.components.as_slice()
    }

    /// The ids currently installed (on) in `config`, in display order.
    pub fn installed_ids(&self, config: &Config) -> (r: Vec<String>)
        ensures
            text::texts(r@) == ids_on(self.components@, config@),
    {
        let mut out: Vec<String> = Vec::new();
        let mut i: usize = 0;
        while i < self.components.len()
            invariant
                i <= self.components@.len(),
                text::texts(out@) == ids_on(self.components@.take(i as int), config@),
            decreases self.components@.len() - i,
        {
            proof {
                assert(self.components@.take(i + 1).drop_last() =~= self.components@.take(
                    i as int,
                ));
                assert(self.components@.take(i + 1).last() == self.components@[i as int]);
            }
            if self.components[i].is_installed(config) {
                let id = self.components[i].id().to_owned();
                proof {
                    assert(text::texts(out@.push(id)) =~= text::texts(out@).push(id@));
                }
                out.push(id);
            }
            i = i + 1;
        }
        proof {
            assert(self.components@.take(self.components@.len() as int) =~= self.components@);
        }
        out
    }

    /// Produce the config that reflects exactly `selected`: install every
    /// component whose id is in the list, uninstall the rest. Starts from
    /// `base` so unrelated settings (colours, pinned apps, the `disabled` list)
    /// are preserved. Ids in `selected` that name no known component are
    /// ignored.
    pub fn apply(&self, base: &Config, selected: &Vec<String>) -> (r: Config)
        ensures
            r@ == selected_config(self.components@, base@, text::texts(selected@)),
    {
        let mut config = base.clone();
        let mut i: usize = 0;
        while i < self.components.len()
            invariant
                i <= self.components@.len(),
                config@ == selected_config(
                    self.components@.take(i as int),
                    base@,
                    text::texts(selected@),
                ),
            decreases self.components@.len() - i,
        {
            proof {
                assert(self.components@.take(i + 1).drop_last() =~= self.components@.take(
                    i as int,
                ));
                assert(self.components@.take(i + 1).last() == self.components@[i as int]);
            }
            let component = self.components[i];
            if text::contains_text(selected, component.id()) {
                component.install(&mut config);
            } else {
                component.uninstall(&mut config);
            }
            i = i + 1;
        }
        proof {
            assert(self.components@.take(self.components@.len() as int) =~= self.components@);
        }
        config
    }
}

impl Default for Registry {
    fn default() -> (r: Self)
        ensures
            r.components@ == all_components(),
    {
        Self::all()
    }
}

/// Switching a component on makes it on, switching it off makes it off, doing
/// either twice is doing it once, and the other components keep their state.
pub proof fn law_switching_is_idempotent(
    c: AnyComponent,
    other: AnyComponent,
    config: crate::config::ConfigModel,
    on: bool,
)
    ensures
        c.is_on(c.switched(config, on)) == on,
        c.switched(c.switched(config, on), on) == c.switched(config, on),
        other != c ==> other.is_on(c.switched(config, on)) == other.is_on(config),
{
}

/// The ids of the components differ from each other, and no component is
/// without a name or a summary.
pub proof fn law_components_are_told_apart(i: int, j: int)
    requires
        0 <= i < j < all_components().len(),
    ensures
        all_components()[i].id_text() != all_components()[j].id_text(),
        all_components()[i].name_text().len() > 0,
        all_components()[i].summary_text().len() > 0,
        all_components()[j].name_text().len() > 0,
        all_components()[j].summary_text().len() > 0,
{
    reveal_strlit("taskbar");
    reveal_strlit("wallpaper");
    reveal_strlit("autostart");
    reveal_strlit("Taskbar");
    reveal_strlit("Wallpaper");
    reveal_strlit("Startup programs");
    reveal_strlit(
        "Rounded, translucent taskbar with Start, pinned apps, window buttons, tray, and clock.",
    );
    reveal_strlit("Paint a custom desktop color or image. Off leaves a neutral background.");
    reveal_strlit(
        "Run your logon startup apps (Run keys and Startup folders) in explorer's stead.",
    );
    assert("taskbar"@[0] == 't');
    assert("wallpaper"@[0] == 'w');
    assert("autostart"@[0] == 'a');
}

/// Applying a selection turns on exactly the selected components and leaves
/// every other setting as it is.
pub proof fn law_apply_reflects_the_selection(
    base: crate::config::ConfigModel,
    selected: Seq<Seq<char>>,
)
    ensures
        ({
            let r = selected_config(all_components(), base, selected);
            &&& r.taskbar.enabled == selected.contains("taskbar"@)
            &&& r.wallpaper.enabled == selected.contains("wallpaper"@)
            &&& r.autostart.enabled == selected.contains("autostart"@)
            &&& r.taskbar == crate::config::TaskbarModel {
                enabled: r.taskbar.enabled,
                ..base.taskbar
            }
            &&& r.wallpaper == crate::config::WallpaperModel {
                enabled: r.wallpaper.enabled,
                ..base.wallpaper
            }
            &&& r.autostart == crate::config::AutostartModel {
                enabled: r.autostart.enabled,
                ..base.autostart
            }
        }),
{
    let all = all_components();
    let two = all.drop_last();
    let one = two.drop_last();
    assert(one.drop_last().len() == 0);
    assert(all.last() == AnyComponent::Autostart(AutostartComponent));
    assert(two.last() == AnyComponent::Wallpaper(WallpaperComponent));
    assert(one.last() == AnyComponent::Taskbar(TaskbarComponent));
    assert(selected_config(one.drop_last(), base, selected) == base);
    let a = selected_config(one, base, selected);
    assert(a == one.last().switched(base, selected.contains(one.last().id_text())));
    let b = selected_config(two, base, selected);
    assert(b == two.last().switched(a, selected.contains(two.last().id_text())));
}

/// What is on after applying a selection is what was selected of what exists:
/// applying what is on changes nothing.
pub proof fn law_installed_ids_round_trip(config: crate::config::ConfigModel)
    ensures
        selected_config(all_components(), config, ids_on(all_components(), config)) == config,
{
    let all = all_components();
    let two = all.drop_last();
    let one = two.drop_last();
    assert(one.drop_last().len() == 0);
    assert(all.last() == AnyComponent::Autostart(AutostartComponent));
    assert(two.last() == AnyComponent::Wallpaper(WallpaperComponent));
    assert(one.last() == AnyComponent::Taskbar(TaskbarComponent));
    law_components_are_told_apart(0, 1);
    law_components_are_told_apart(0, 2);
    law_components_are_told_apart(1, 2);
    let i0 = ids_on(one.drop_last(), config);
    assert(i0 =~= Seq::<Seq<char>>::empty());
    let i1 = ids_on(one, config);
    let i2 = ids_on(two, config);
    let ids = ids_on(all, config);
    lemma_push_text(i0, "taskbar"@, "taskbar"@);
    lemma_push_text(i0, "taskbar"@, "wallpaper"@);
    lemma_push_text(i0, "taskbar"@, "autostart"@);
    lemma_push_text(i1, "wallpaper"@, "taskbar"@);
    lemma_push_text(i1, "wallpaper"@, "wallpaper"@);
    lemma_push_text(i1, "wallpaper"@, "autostart"@);
    lemma_push_text(i2, "autostart"@, "taskbar"@);
    lemma_push_text(i2, "autostart"@, "wallpaper"@);
    lemma_push_text(i2, "autostart"@, "autostart"@);
    law_apply_reflects_the_selection(config, ids);
}

proof fn lemma_push_text(s: Seq<Seq<char>>, x: Seq<char>, y: Seq<char>)
    ensures
        s.push(x).contains(y) <==> s.contains(y) || x == y,
{
    if s.contains(y) {
        let m = choose|m: int| 0 <= m < s.len() && s[m] == y;
        assert(s.push(x)[m] == y);
    }
    if x == y {
        assert(s.push(x)[s.len() as int] == y);
    }
}

/// The checklist: the taskbar, the wallpaper and the startup programs, in that
/// order, each under its id and its name.
pub proof fn law_the_checklist_has_its_rows()
    ensures
        all_components().len() == 3,
        all_components()[0].id_text() == "taskbar"@,
        all_components()[1].id_text() == "wallpaper"@,
        all_components()[2].id_text() == "autostart"@,
        all_components()[0].name_text() == "Taskbar"@,
        all_components()[1].name_text() == "Wallpaper"@,
        all_components()[2].name_text() == "Startup programs"@,
        all_components()[0].summary_text()
            == "Rounded, translucent taskbar with Start, pinned apps, window buttons, tray, and clock."@,
        all_components()[1].summary_text()
            == "Paint a custom desktop color or image. Off leaves a neutral background."@,
        all_components()[2].summary_text()
            == "Run your logon startup apps (Run keys and Startup folders) in explorer's stead."@,
{
}

/// A component is on where its own section is enabled, and is listed as
/// installed, in the order of the checklist, exactly then.
pub proof fn law_what_is_enabled_is_installed(config: crate::config::ConfigModel)
    ensures
        all_components()[0].is_on(config) == config.taskbar.enabled,
        all_components()[1].is_on(config) == config.wallpaper.enabled,
        all_components()[2].is_on(config) == config.autostart.enabled,
        ids_on(all_components(), config) == (if config.taskbar.enabled {
            seq!["taskbar"@]
        } else {
            Seq::empty()
        }) + (if config.wallpaper.enabled {
            seq!["wallpaper"@]
        } else {
            Seq::empty()
        }) + (if config.autostart.enabled {
            seq!["autostart"@]
        } else {
            Seq::empty()
        }),
{
    let all = all_components();
    let two = all.drop_last();
    let one = two.drop_last();
    assert(all.last() == all[2] && two.last() == all[1] && one.last() == all[0]);
    assert(one.drop_last() =~= Seq::<AnyComponent>::empty());
    let i0 = ids_on(one.drop_last(), config);
    assert(i0 =~= Seq::<Seq<char>>::empty());
    let i1 = ids_on(one, config);
    let i2 = ids_on(two, config);
    let ids = ids_on(all, config);
    assert(ids =~= (if config.taskbar.enabled {
        seq!["taskbar"@]
    } else {
        Seq::<Seq<char>>::empty()
    }) + (if config.wallpaper.enabled {
        seq!["wallpaper"@]
    } else {
        Seq::<Seq<char>>::empty()
    }) + (if config.autostart.enabled {
        seq!["autostart"@]
    } else {
        Seq::<Seq<char>>::empty()
    }));
}

/// Switching a component sets the flag of its own section and leaves the whole
/// rest of the configuration as it is.
pub proof fn law_a_switch_changes_one_section(config: crate::config::ConfigModel, on: bool)
    ensures
        ({
            let t = all_components()[0].switched(config, on);
            &&& t.taskbar == (crate::config::TaskbarModel { enabled: on, ..config.taskbar })
            &&& t.wallpaper == config.wallpaper && t.autostart == config.autostart
        }),
        ({
            let w = all_components()[1].switched(config, on);
            &&& w.wallpaper == (crate::config::WallpaperModel { enabled: on, ..config.wallpaper })
            &&& w.taskbar == config.taskbar && w.autostart == config.autostart
        }),
        ({
            let a = all_components()[2].switched(config, on);
            &&& a.autostart == (crate::config::AutostartModel { enabled: on, ..config.autostart })
            &&& a.taskbar == config.taskbar && a.wallpaper == config.wallpaper
        }),
{
}

} // verus!
