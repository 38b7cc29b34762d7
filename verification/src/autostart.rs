//! Logon autostart: which entries there are, what they are called, which of
//! them run, and how.
//!
//! The shell matches a config's `disabled` list against the id of each entry it
//! is about to launch; the manager writes that same list from checkboxes. Both
//! build ids through [`entry_id`], so that a checkbox and the launch filter
//! always speak of the same entry.
//!
//! - Machine-wide run-once entries are never run: honouring them requires
//!   deleting machine-wide values, and running them without deleting would
//!   re-run installers every logon. No listing here has them.
//! - Per-user run-once values are deleted before their command runs (after, for
//!   names that start with `!`).
//! - Entries run once per logon session, and never in a session where another
//!   desktop shell is on screen.
use vstd::prelude::*;

use crate::text;

verus! {

/// Where an autostart entry comes from; drives the manager's grouping and the
/// human-readable "source" label.
#[derive(Debug, Clone, Copy, PartialEq, Eq, Structural)]
pub enum Source {
    /// A per-user `Run` registry value.
    HkcuRun,
    /// A machine-wide `Run` registry value (launched, never written).
    HklmRun,
    /// A per-user `RunOnce` value (deleted as it runs).
    HkcuRunOnce,
    /// A per-user Startup-folder item.
    StartupUser,
    /// A machine-wide Startup-folder item.
    StartupCommon,
    /// A session helper the shell supplies itself (e.g. `rdpclip` in remote
    /// sessions).
    Session,
}

impl Source {
    /// The id prefix, as text.
    pub open spec fn prefix_text(self) -> Seq<char> {
        match self {
            Source::HkcuRun => "hkcu-run"@,
            Source::HklmRun => "hklm-run"@,
            Source::HkcuRunOnce => "hkcu-runonce"@,
            Source::StartupUser => "startup-user"@,
            Source::StartupCommon => "startup-common"@,
            Source::Session => "session"@,
        }
    }

    /// The label, as text.
    pub open spec fn label_text(self) -> Seq<char> {
        match self {
            Source::HkcuRun => "Run (user)"@,
            Source::HklmRun => "Run (machine)"@,
            Source::HkcuRunOnce => "RunOnce (user)"@,
            Source::StartupUser => "Startup folder (user)"@,
            Source::StartupCommon => "Startup folder (machine)"@,
            Source::Session => "Session helper"@,
        }
    }

    /// The id prefix: the text before the `:` in an entry id. Changing any of
    /// these is a breaking change to the `disabled` list on disk.
    pub fn prefix(self) -> (r: &'static str)
        ensures
            r@ == self.prefix_text(),
    {
        match self {
            Source::HkcuRun => "hkcu-run",
            Source::HklmRun => "hklm-run",
            Source::HkcuRunOnce => "hkcu-runonce",
            Source::StartupUser => "startup-user",
            Source::StartupCommon => "startup-common",
            Source::Session => "session",
        }
    }

    /// A short human label for the manager ("what kind of thing is this").
    pub fn label(self) -> (r: &'static str)
        ensures
            r@ == self.label_text(),
    {
        match self {
            Source::HkcuRun => "Run (user)",
            Source::HklmRun => "Run (machine)",
            Source::HkcuRunOnce => "RunOnce (user)",
            Source::StartupUser => "Startup folder (user)",
            Source::StartupCommon => "Startup folder (machine)",
            Source::Session => "Session helper",
        }
    }
}

/// Different sources have different prefixes, so that no two sources can be
/// told the same id for entries of one name, and every source has a label.
pub proof fn law_sources_are_told_apart(a: Source, b: Source)
    ensures
        a != b ==> a.prefix_text() != b.prefix_text(),
        a.label_text().len() > 0,
{
    reveal_strlit("hkcu-run");
    reveal_strlit("hklm-run");
    reveal_strlit("hkcu-runonce");
    reveal_strlit("startup-user");
    reveal_strlit("startup-common");
    reveal_strlit("session");
    reveal_strlit("Run (user)");
    reveal_strlit("Run (machine)");
    reveal_strlit("RunOnce (user)");
    reveal_strlit("Startup folder (user)");
    reveal_strlit("Startup folder (machine)");
    reveal_strlit("Session helper");
    assert("hkcu-run"@[2] == 'c');
    assert("hklm-run"@[2] == 'l');
    assert("hkcu-run"@.len() == 8);
    assert("hklm-run"@.len() == 8);
    assert("hkcu-runonce"@.len() == 12);
    assert("startup-user"@.len() == 12);
    assert("startup-common"@.len() == 14);
    assert("session"@.len() == 7);
    assert("hkcu-runonce"@[0] == 'h');
    assert("startup-user"@[0] == 's');
}

/// The id of an entry: the source's prefix, a colon, and the entry's name.
pub open spec fn id_text(source: Source, name: Seq<char>) -> Seq<char> {
    source.prefix_text() + seq![':'] + name
}

/// The id the shell logs and the config `disabled` list matches, e.g.
/// `hkcu-run:OneDrive` or `startup-user:Foo.lnk`.
pub fn entry_id(source: Source, name: &str) -> (r: String)
    ensures
        r@ == id_text(source, name@),
{
    let mut out = source.prefix().to_owned();
    out.push(':');
    proof {
        assert(out@ =~= source.prefix_text() + seq![':']);
    }
    out.append(name);
    out
}

/// One enumerated autostart entry, as the manager needs to display and toggle
/// it.
#[derive(Debug, Clone, PartialEq, Eq)]
pub struct AutostartEntry {
    /// Stable id ([`entry_id`]); what goes in the config `disabled` list.
    pub id: String,
    /// The entry's own name (registry value name or file name).
    pub name: String,
    /// Where it came from.
    pub source: Source,
    /// A one-line detail for the UI: the command line or the file path.
    pub detail: String,
}

/// An entry as a value.
#[verifier::ext_equal]
pub ghost struct EntryModel {
    pub source: Source,
    pub name: Seq<char>,
    pub detail: Seq<char>,
}

impl AutostartEntry {
    /// Whether this is the entry of that source, name and detail.
    pub open spec fn is_entry(&self, model: EntryModel) -> bool {
        &&& self.id@ == id_text(model.source, model.name)
        &&& self.name@ == model.name
        &&& self.source == model.source
        &&& self.detail@ == model.detail
    }

    /// The entry of that source, name and detail.
    pub fn new(source: Source, name: &str, detail: &str) -> (r: Self)
        ensures
            r.is_entry(EntryModel { source, name: name@, detail: detail@ }),
    {
        AutostartEntry {
            id: entry_id(source, name),
            name: name.to_owned(),
            source,
            detail: detail.to_owned(),
        }
    }
}

/// A string value of a registry key, as read: its name, its text, and what the
/// system expanded the trimmed text to (`None` where it could not).
#[derive(Debug, Clone, PartialEq, Eq)]
pub struct RawValue {
    pub name: String,
    pub raw: String,
    pub expanded: Option<String>,
}

impl RawValue {
    /// The command as written, without white space around it.
    pub open spec fn written(&self) -> Seq<char> {
        text::trimmed(self.raw@)
    }

    /// The command to launch: as written, or expanded where it mentions a
    /// variable and the system could expand it.
    pub open spec fn command(&self) -> Seq<char> {
        if self.written().contains('%') {
            match self.expanded {
                Some(e) => e@,
                None => self.written(),
            }
        } else {
            self.written()
        }
    }

    /// Whether the manager lists the value: it has a name and a command.
    pub open spec fn is_shown(&self) -> bool {
        self.name@.len() > 0 && self.written().len() > 0
    }

    /// Whether the shell launches the value: it has a name and a command.
    pub open spec fn is_launchable(&self) -> bool {
        self.name@.len() > 0 && self.command().len() > 0
    }
}

/// An item of a Startup folder.
#[derive(Debug, Clone, PartialEq, Eq)]
pub struct FolderItem {
    pub name: String,
    pub path: String,
    pub is_file: bool,
}

impl FolderItem {
    /// Whether the item is an entry: a file, and not the folder's own settings.
    pub open spec fn is_item(&self) -> bool {
        self.is_file && !text::same_ignoring_case(self.name@, "desktop.ini"@)
    }
}

/// Everything read from the system that autostart is made of. A source that
/// cannot be read is an empty list.
#[derive(Debug, Clone, PartialEq, Eq)]
pub struct Listing {
    /// Per-user run-once values.
    pub user_run_once: Vec<RawValue>,
    /// Machine-wide run values.
    pub machine_run: Vec<RawValue>,
    /// Per-user run values.
    pub user_run: Vec<RawValue>,
    /// Items of the machine-wide Startup folder.
    pub common_items: Vec<FolderItem>,
    /// Items of the per-user Startup folder.
    pub user_items: Vec<FolderItem>,
    /// Whether the session is a remote one.
    pub remote: bool,
}

/// The entries the manager shows of a registry key, in order.
pub open spec fn shown_values(values: Seq<RawValue>, source: Source) -> Seq<EntryModel>
    decreases values.len(),
{
    if values.len() == 0 {
        Seq::empty()
    } else {
        let rest = shown_values(values.drop_last(), source);
        let v = values.last();
        if v.is_shown() {
            rest.push(EntryModel { source, name: v.name@, detail: v.written() })
        } else {
            rest
        }
    }
}

/// The entries of a Startup folder, in order.
pub open spec fn shown_items(items: Seq<FolderItem>, source: Source) -> Seq<EntryModel>
    decreases items.len(),
{
    if items.len() == 0 {
        Seq::empty()
    } else {
        let rest = shown_items(items.drop_last(), source);
        let item = items.last();
        if item.is_item() {
            rest.push(EntryModel { source, name: item.name@, detail: item.path@ })
        } else {
            rest
        }
    }
}

/// The session helpers of a session.
pub open spec fn shown_helpers(remote: bool) -> Seq<EntryModel> {
    if remote {
        seq![
            EntryModel {
                source: Source::Session,
                name: "rdpclip"@,
                detail: "rdpclip.exe (clipboard redirection)"@,
            },
        ]
    } else {
        Seq::empty()
    }
}

/// What the manager lists, in roughly launch order.
pub open spec fn shown_entries(l: Listing) -> Seq<EntryModel> {
    shown_values(l.user_run_once@, Source::HkcuRunOnce) + shown_values(
        l.machine_run@,
        Source::HklmRun,
    ) + shown_values(l.user_run@, Source::HkcuRun) + shown_items(
        l.common_items@,
        Source::StartupCommon,
    ) + shown_items(l.user_items@, Source::StartupUser) + shown_helpers(l.remote)
}

/// Whether a list of entries is the one described.
pub open spec fn are_entries(list: Seq<AutostartEntry>, models: Seq<EntryModel>) -> bool {
    &&& list.len() == models.len()
    &&& forall|i: int| 0 <= i < list.len() ==> (#[trigger] list[i]).is_entry(models[i])
}

fn show_values(out: &mut Vec<AutostartEntry>, values: &Vec<RawValue>, source: Source)
    ensures
        forall|before: Seq<EntryModel>|
            #[trigger] are_entries(old(out)@, before) ==> are_entries(
                final(out)@,
                before + shown_values(values@, source),
            ),
{
    let mut i: usize = 0;
    proof {
        assert forall|before: Seq<EntryModel>| #[trigger]
            are_entries(out@, before) implies are_entries(
            out@,
            before + shown_values(values@.take(0), source),
        ) by {
            assert(before + shown_values(values@.take(0), source) =~= before);
        }
    }
    while i < values.len()
        invariant
            i <= values@.len(),
            forall|before: Seq<EntryModel>|
                #[trigger] are_entries(old(out)@, before) ==> are_entries(
                    out@,
                    before + shown_values(values@.take(i as int), source),
                ),
        decreases values@.len() - i,
    {
        let v = &values[i];
        let command = text::trim(v.raw.as_str());
        let ghost seen = shown_values(values@.take(i as int), source);
        proof {
            assert(values@.take(i + 1).drop_last() =~= values@.take(i as int));
            assert(values@.take(i + 1).last() == values@[i as int]);
        }
        let ghost prior = out@;
        if !v.name.as_str().is_empty() && !command.as_str().is_empty() {
            out.push(AutostartEntry::new(source, v.name.as_str(), command.as_str()));
        }
        proof {
            assert forall|before: Seq<EntryModel>| #[trigger]
                are_entries(old(out)@, before) implies are_entries(
                out@,
                before + shown_values(values@.take(i + 1), source),
            ) by {
                assert(are_entries(prior, before + seen));
                if v.is_shown() {
                    let model = EntryModel { source, name: v.name@, detail: v.written() };
                    assert(before + seen.push(model) =~= (before + seen).push(model));
                }
            }
        }
        i = i + 1;
    }
    proof {
        assert(values@.take(values@.len() as int) =~= values@);
    }
}

fn show_items(out: &mut Vec<AutostartEntry>, items: &Vec<FolderItem>, source: Source)
    ensures
        forall|before: Seq<EntryModel>|
            #[trigger] are_entries(old(out)@, before) ==> are_entries(
                final(out)@,
                before + shown_items(items@, source),
            ),
{
    let mut i: usize = 0;
    proof {
        assert forall|before: Seq<EntryModel>| #[trigger]
            are_entries(out@, before) implies are_entries(
            out@,
            before + shown_items(items@.take(0), source),
        ) by {
            assert(before + shown_items(items@.take(0), source) =~= before);
        }
    }
    while i < items.len()
        invariant
            i <= items@.len(),
            forall|before: Seq<EntryModel>|
                #[trigger] are_entries(old(out)@, before) ==> are_entries(
                    out@,
                    before + shown_items(items@.take(i as int), source),
                ),
        decreases items@.len() - i,
    {
        let item = &items[i];
        let ghost seen = shown_items(items@.take(i as int), source);
        proof {
            assert(items@.take(i + 1).drop_last() =~= items@.take(i as int));
            assert(items@.take(i + 1).last() == items@[i as int]);
        }
        let ghost prior = out@;
        if is_startup_item(item) {
            out.push(AutostartEntry::new(source, item.name.as_str(), item.path.as_str()));
        }
        proof {
            assert forall|before: Seq<EntryModel>| #[trigger]
                are_entries(old(out)@, before) implies are_entries(
                out@,
                before + shown_items(items@.take(i + 1), source),
            ) by {
                assert(are_entries(prior, before + seen));
                if item.is_item() {
                    let model = EntryModel { source, name: item.name@, detail: item.path@ };
                    assert(before + seen.push(model) =~= (before + seen).push(model));
                }
            }
        }
        i = i + 1;
    }
    proof {
        assert(items@.take(items@.len() as int) =~= items@);
    }
}

/// Whether a folder item is an entry.
fn is_startup_item(item: &FolderItem) -> (r: bool)
    ensures
        r == item.is_item(),
{
    item.is_file && !text::eq_ignore_case(item.name.as_str(), "desktop.ini")
}

/// Everything the shell would launch at logon, as display metadata, in roughly
/// launch order. The commands are shown as written, which is what the user
/// recognizes.
pub fn enumerate(listing: &Listing) -> (r: Vec<AutostartEntry>)
    ensures
        are_entries(r@, shown_entries(*listing)),
{
    let mut out: Vec<AutostartEntry> = Vec::new();
    proof {
        assert(are_entries(out@, Seq::<EntryModel>::empty()));
    }
    show_values(&mut out, &listing.user_run_once, Source::HkcuRunOnce);
    let ghost a = shown_values(listing.user_run_once@, Source::HkcuRunOnce);
    proof {
        assert(Seq::<EntryModel>::empty() + a =~= a);
        assert(are_entries(out@, a));
    }
    show_values(&mut out, &listing.machine_run, Source::HklmRun);
    show_values(&mut out, &listing.user_run, Source::HkcuRun);
    show_items(&mut out, &listing.common_items, Source::StartupCommon);
    show_items(&mut out, &listing.user_items, Source::StartupUser);
    let ghost before = shown_values(listing.user_run_once@, Source::HkcuRunOnce) + shown_values(
        listing.machine_run@,
        Source::HklmRun,
    ) + shown_values(listing.user_run@, Source::HkcuRun) + shown_items(
        listing.common_items@,
        Source::StartupCommon,
    ) + shown_items(listing.user_items@, Source::StartupUser);
    proof {
        assert(are_entries(out@, before));
    }
    if listing.remote {
        out.push(
            AutostartEntry::new(
                Source::Session,
                "rdpclip",
                "rdpclip.exe (clipboard redirection)",
            ),
        );
        proof {
            let model = shown_helpers(true)[0];
            assert(before + shown_helpers(true) =~= before.push(model));
        }
    } else {
        proof {
            assert(before + shown_helpers(false) =~= before);
        }
    }
    out
}

/// How an entry is launched.
#[derive(Debug, PartialEq, Eq)]
pub enum Action {
    /// A raw command line (registry `Run` entries).
    CommandLine(String),
    /// A per-user `RunOnce` value: delete, then run (reversed for `!` names).
    RunOnce { name: String, command: String, delete_after: bool },
    /// A Startup-folder item (usually a shortcut), opened by the system.
    OpenPath(String),
    /// The clipboard helper of remote sessions.
    Rdpclip,
}

/// One entry to launch.
#[derive(Debug, PartialEq, Eq)]
pub struct Entry {
    pub id: String,
    pub action: Action,
}

/// An action as a value.
pub ghost enum ActionModel {
    CommandLine(Seq<char>),
    RunOnce { name: Seq<char>, command: Seq<char>, delete_after: bool },
    OpenPath(Seq<char>),
    Rdpclip,
}

impl View for Action {
    type V = ActionModel;

    open spec fn view(&self) -> ActionModel {
        match self {
            Action::CommandLine(c) => ActionModel::CommandLine(c@),
            Action::RunOnce { name, command, delete_after } => ActionModel::RunOnce {
                name: name@,
                command: command@,
                delete_after: *delete_after,
            },
            Action::OpenPath(p) => ActionModel::OpenPath(p@),
            Action::Rdpclip => ActionModel::Rdpclip,
        }
    }
}

/// An entry to launch as a value.
pub ghost struct LaunchModel {
    pub id: Seq<char>,
    pub action: ActionModel,
}

impl View for Entry {
    type V = LaunchModel;

    open spec fn view(&self) -> LaunchModel {
        LaunchModel { id: self.id@, action: self.action@ }
    }
}

/// The values of a list of entries.
pub open spec fn launches(entries: Seq<Entry>) -> Seq<LaunchModel> {
    entries.map_values(|e: Entry| e@)
}

/// The action of a registry value: run-once values are deleted as they run,
/// after running where the name starts with `!`.
pub open spec fn value_action(v: RawValue, source: Source) -> ActionModel {
    if source == Source::HkcuRunOnce {
        ActionModel::RunOnce {
            name: v.name@,
            command: v.command(),
            delete_after: v.name@[0] == '!',
        }
    } else {
        ActionModel::CommandLine(v.command())
    }
}

/// What is launched of a registry key, in order.
pub open spec fn launched_values(values: Seq<RawValue>, source: Source) -> Seq<LaunchModel>
    decreases values.len(),
{
    if values.len() == 0 {
        Seq::empty()
    } else {
        let rest = launched_values(values.drop_last(), source);
        let v = values.last();
        if v.is_launchable() {
            rest.push(
                LaunchModel { id: id_text(source, v.name@), action: value_action(v, source) },
            )
        } else {
            rest
        }
    }
}

/// What is launched of a Startup folder, in order.
pub open spec fn launched_items(items: Seq<FolderItem>, source: Source) -> Seq<LaunchModel>
    decreases items.len(),
{
    if items.len() == 0 {
        Seq::empty()
    } else {
        let rest = launched_items(items.drop_last(), source);
        let item = items.last();
        if item.is_item() {
            rest.push(
                LaunchModel {
                    id: id_text(source, item.name@),
                    action: ActionModel::OpenPath(item.path@),
                },
            )
        } else {
            rest
        }
    }
}

/// The session helpers that are launched.
pub open spec fn launched_helpers(remote: bool) -> Seq<LaunchModel> {
    if remote {
        seq![
            LaunchModel {
                id: id_text(Source::Session, "rdpclip"@),
                action: ActionModel::Rdpclip,
            },
        ]
    } else {
        Seq::empty()
    }
}

/// Everything that is launched, in roughly the stock desktop's order.
pub open spec fn launched_entries(l: Listing) -> Seq<LaunchModel> {
    launched_values(l.user_run_once@, Source::HkcuRunOnce) + launched_values(
        l.machine_run@,
        Source::HklmRun,
    ) + launched_values(l.user_run@, Source::HkcuRun) + launched_items(
        l.common_items@,
        Source::StartupCommon,
    ) + launched_items(l.user_items@, Source::StartupUser) + launched_helpers(l.remote)
}

/// The text of a registry value to launch.
fn command_of(v: &RawValue) -> (r: String)
    ensures
        r@ == v.command(),
{
    let written = text::trim(v.raw.as_str());
    if !mentions_variable(written.as_str()) {
        return written;
    }
    match &v.expanded {
        Some(e) => e.clone(),
        None => written,
    }
}

/// Whether a command mentions an environment variable, so that it needs the
/// system to expand it.
pub fn mentions_variable(s: &str) -> (r: bool)
    ensures
        r == s@.contains('%'),
{
    let chars = text::chars_of(s);
    let mut i: usize = 0;
    while i < chars.len()
        invariant
            chars@ == s@,
            i <= chars@.len(),
            forall|j: int| 0 <= j < i ==> chars@[j] != '%',
        decreases chars@.len() - i,
    {
        if chars[i] == '%' {
            return true;
        }
        i = i + 1;
    }
    false
}

fn launch_values(out: &mut Vec<Entry>, values: &Vec<RawValue>, source: Source)
    ensures
        launches(final(out)@) == launches(old(out)@) + launched_values(values@, source),
{
    let mut i: usize = 0;
    proof {
        assert(launches(out@) + launched_values(values@.take(0), source) =~= launches(out@));
    }
    while i < values.len()
        invariant
            i <= values@.len(),
            launches(out@) == launches(old(out)@) + launched_values(
                values@.take(i as int),
                source,
            ),
        decreases values@.len() - i,
    {
        let v = &values[i];
        let command = command_of(v);
        proof {
            assert(values@.take(i + 1).drop_last() =~= values@.take(i as int));
            assert(values@.take(i + 1).last() == values@[i as int]);
        }
        if !v.name.as_str().is_empty() && !command.as_str().is_empty() {
            let id = entry_id(source, v.name.as_str());
            let action = if let Source::HkcuRunOnce = source {
                let chars = text::chars_of(v.name.as_str());
                Action::RunOnce { name: v.name.clone(), command, delete_after: chars[0] == '!' }
            } else {
                Action::CommandLine(command)
            };
            let entry = Entry { id, action };
            let ghost seen = launched_values(values@.take(i as int), source);
            proof {
                assert(entry.action@ == value_action(*v, source));
                assert(launches(out@.push(entry)) =~= launches(out@).push(entry@));
                assert((launches(old(out)@) + seen).push(entry@) =~= launches(old(out)@)
                    + seen.push(entry@));
            }
            out.push(entry);
        }
        i = i + 1;
    }
    proof {
        assert(values@.take(values@.len() as int) =~= values@);
    }
}

fn launch_items(out: &mut Vec<Entry>, items: &Vec<FolderItem>, source: Source)
    ensures
        launches(final(out)@) == launches(old(out)@) + launched_items(items@, source),
{
    let mut i: usize = 0;
    proof {
        assert(launches(out@) + launched_items(items@.take(0), source) =~= launches(out@));
    }
    while i < items.len()
        invariant
            i <= items@.len(),
            launches(out@) == launches(old(out)@) + launched_items(items@.take(i as int), source),
        decreases items@.len() - i,
    {
        let item = &items[i];
        proof {
            assert(items@.take(i + 1).drop_last() =~= items@.take(i as int));
            assert(items@.take(i + 1).last() == items@[i as int]);
        }
        if is_startup_item(item) {
            let entry = Entry {
                id: entry_id(source, item.name.as_str()),
                action: Action::OpenPath(item.path.clone()),
            };
            let ghost seen = launched_items(items@.take(i as int), source);
            proof {
                assert(launches(out@.push(entry)) =~= launches(out@).push(entry@));
                assert((launches(old(out)@) + seen).push(entry@) =~= launches(old(out)@)
                    + seen.push(entry@));
            }
            out.push(entry);
        }
        i = i + 1;
    }
    proof {
        assert(items@.take(items@.len() as int) =~= items@);
    }
}

/// Everything to launch at logon, in roughly the stock desktop's order.
pub fn launch_list(listing: &Listing) -> (r: Vec<Entry>)
    ensures
        launches(r@) == launched_entries(*listing),
{
    let mut out: Vec<Entry> = Vec::new();
    launch_values(&mut out, &listing.user_run_once, Source::HkcuRunOnce);
    proof {
        assert(launches(Seq::<Entry>::empty()) =~= Seq::<LaunchModel>::empty());
        let a = launched_values(listing.user_run_once@, Source::HkcuRunOnce);
        assert(Seq::<LaunchModel>::empty() + a =~= a);
    }
    launch_values(&mut out, &listing.machine_run, Source::HklmRun);
    launch_values(&mut out, &listing.user_run, Source::HkcuRun);
    launch_items(&mut out, &listing.common_items, Source::StartupCommon);
    launch_items(&mut out, &listing.user_items, Source::StartupUser);
    let ghost before = launches(out@);
    if listing.remote {
        let entry = Entry { id: entry_id(Source::Session, "rdpclip"), action: Action::Rdpclip };
        proof {
            assert(launches(out@.push(entry)) =~= before.push(entry@));
            assert(before.push(entry@) =~= before + launched_helpers(true));
        }
        out.push(entry);
    } else {
        proof {
            assert(before + launched_helpers(false) =~= before);
        }
    }
    out
}

/// The ids of what the manager lists.
pub open spec fn shown_ids(models: Seq<EntryModel>) -> Seq<Seq<char>> {
    models.map_values(|m: EntryModel| id_text(m.source, m.name))
}

/// The ids of what the shell launches.
pub open spec fn launched_ids(models: Seq<LaunchModel>) -> Seq<Seq<char>> {
    models.map_values(|m: LaunchModel| m.id)
}

/// Whether no command of the listing expands to nothing.
pub open spec fn none_expands_to_nothing(values: Seq<RawValue>) -> bool {
    forall|i: int|
        0 <= i < values.len() && (#[trigger] values[i]).written().len() > 0
            ==> values[i].command().len() > 0
}

proof fn lemma_value_ids(values: Seq<RawValue>, source: Source)
    requires
        none_expands_to_nothing(values),
    ensures
        shown_ids(shown_values(values, source)) == launched_ids(launched_values(values, source)),
    decreases values.len(),
{
    if values.len() > 0 {
        let init = values.drop_last();
        assert forall|i: int|
            0 <= i < init.len() && (#[trigger] init[i]).written().len() > 0 implies init[i].command()
            .len() > 0 by {
            assert(init[i] == values[i]);
        }
        lemma_value_ids(init, source);
        let v = values.last();
        assert(v == values[values.len() - 1]);
        if v.written().len() == 0 {
            assert(!v.written().contains('%'));
        }
        let shown = shown_values(init, source);
        let launched = launched_values(init, source);
        if v.is_shown() {
            let m = EntryModel { source, name: v.name@, detail: v.written() };
            let l = LaunchModel { id: id_text(source, v.name@), action: value_action(v, source) };
            assert(shown_ids(shown.push(m)) =~= shown_ids(shown).push(id_text(source, v.name@)));
            assert(launched_ids(launched.push(l)) =~= launched_ids(launched).push(
                id_text(source, v.name@),
            ));
        }
    } else {
        assert(shown_ids(shown_values(values, source)) =~= launched_ids(
            launched_values(values, source),
        ));
    }
}

proof fn lemma_item_ids(items: Seq<FolderItem>, source: Source)
    ensures
        shown_ids(shown_items(items, source)) == launched_ids(launched_items(items, source)),
    decreases items.len(),
{
    if items.len() > 0 {
        lemma_item_ids(items.drop_last(), source);
        let item = items.last();
        let shown = shown_items(items.drop_last(), source);
        let launched = launched_items(items.drop_last(), source);
        if item.is_item() {
            let m = EntryModel { source, name: item.name@, detail: item.path@ };
            let l = LaunchModel {
                id: id_text(source, item.name@),
                action: ActionModel::OpenPath(item.path@),
            };
            assert(shown_ids(shown.push(m)) =~= shown_ids(shown).push(id_text(source, item.name@)));
            assert(launched_ids(launched.push(l)) =~= launched_ids(launched).push(
                id_text(source, item.name@),
            ));
        }
    } else {
        assert(shown_ids(shown_items(items, source)) =~= launched_ids(
            launched_items(items, source),
        ));
    }
}

/// The manager lists exactly the ids the shell goes by, in the same order, as
/// long as no command expands to nothing: a checkbox and the launch filter
/// speak of the same entries.
pub proof fn law_manager_and_shell_speak_of_the_same_entries(l: Listing)
    requires
        none_expands_to_nothing(l.user_run_once@),
        none_expands_to_nothing(l.machine_run@),
        none_expands_to_nothing(l.user_run@),
    ensures
        shown_ids(shown_entries(l)) == launched_ids(launched_entries(l)),
{
    lemma_value_ids(l.user_run_once@, Source::HkcuRunOnce);
    lemma_value_ids(l.machine_run@, Source::HklmRun);
    lemma_value_ids(l.user_run@, Source::HkcuRun);
    lemma_item_ids(l.common_items@, Source::StartupCommon);
    lemma_item_ids(l.user_items@, Source::StartupUser);
    let s1 = shown_values(l.user_run_once@, Source::HkcuRunOnce);
    let s2 = shown_values(l.machine_run@, Source::HklmRun);
    let s3 = shown_values(l.user_run@, Source::HkcuRun);
    let s4 = shown_items(l.common_items@, Source::StartupCommon);
    let s5 = shown_items(l.user_items@, Source::StartupUser);
    let l1 = launched_values(l.user_run_once@, Source::HkcuRunOnce);
    let l2 = launched_values(l.machine_run@, Source::HklmRun);
    let l3 = launched_values(l.user_run@, Source::HkcuRun);
    let l4 = launched_items(l.common_items@, Source::StartupCommon);
    let l5 = launched_items(l.user_items@, Source::StartupUser);
    assert(shown_ids(shown_helpers(l.remote)) =~= launched_ids(launched_helpers(l.remote)));
    assert(shown_ids(shown_entries(l)) =~= shown_ids(s1) + shown_ids(s2) + shown_ids(s3)
        + shown_ids(s4) + shown_ids(s5) + shown_ids(shown_helpers(l.remote)));
    assert(launched_ids(launched_entries(l)) =~= launched_ids(l1) + launched_ids(l2)
        + launched_ids(l3) + launched_ids(l4) + launched_ids(l5) + launched_ids(
        launched_helpers(l.remote),
    ));
}

/// The ids by which entries are switched off on disk.
pub proof fn law_ids_name_source_and_entry(name: Seq<char>)
    ensures
        id_text(Source::HkcuRun, name) == "hkcu-run:"@ + name,
        id_text(Source::HklmRun, name) == "hklm-run:"@ + name,
        id_text(Source::HkcuRunOnce, name) == "hkcu-runonce:"@ + name,
        id_text(Source::StartupUser, name) == "startup-user:"@ + name,
        id_text(Source::StartupCommon, name) == "startup-common:"@ + name,
        id_text(Source::Session, name) == "session:"@ + name,
{
    reveal_strlit("hkcu-run");
    reveal_strlit("hklm-run");
    reveal_strlit("hkcu-runonce");
    reveal_strlit("startup-user");
    reveal_strlit("startup-common");
    reveal_strlit("session");
    reveal_strlit("hkcu-run:");
    reveal_strlit("hklm-run:");
    reveal_strlit("hkcu-runonce:");
    reveal_strlit("startup-user:");
    reveal_strlit("startup-common:");
    reveal_strlit("session:");
    assert("hkcu-run"@ + seq![':'] =~= "hkcu-run:"@);
    assert("hklm-run"@ + seq![':'] =~= "hklm-run:"@);
    assert("hkcu-runonce"@ + seq![':'] =~= "hkcu-runonce:"@);
    assert("startup-user"@ + seq![':'] =~= "startup-user:"@);
    assert("startup-common"@ + seq![':'] =~= "startup-common:"@);
    assert("session"@ + seq![':'] =~= "session:"@);
}

/// The labels tell the user where an entry comes from, and for whom it runs.
pub proof fn law_labels_name_the_source(source: Source)
    ensures
        source.label_text() == match source {
            Source::HkcuRun => "Run (user)"@,
            Source::HklmRun => "Run (machine)"@,
            Source::HkcuRunOnce => "RunOnce (user)"@,
            Source::StartupUser => "Startup folder (user)"@,
            Source::StartupCommon => "Startup folder (machine)"@,
            Source::Session => "Session helper"@,
        },
{
}

/// A value's command is its text without white space around it; where that
/// mentions a variable it is what the system expanded it to, if it could.
pub proof fn law_commands_are_trimmed_and_expanded(v: RawValue)
    ensures
        v.written() == text::trimmed(v.raw@),
        !text::trimmed(v.raw@).contains('%') ==> v.command() == text::trimmed(v.raw@),
        text::trimmed(v.raw@).contains('%') && v.expanded is None ==> v.command() == text::trimmed(
            v.raw@,
        ),
        text::trimmed(v.raw@).contains('%') && v.expanded is Some ==> v.command()
            == (v.expanded->0)@,
{
}

/// What is launched and shown of a key's values is decided value by value, in
/// their order: each that has a name and a command, by its id. A run-once value
/// is deleted after its command exactly where its name starts with `!`; any other
/// value is just run.
pub proof fn law_values_are_launched_one_by_one(
    a: Seq<RawValue>,
    b: Seq<RawValue>,
    v: RawValue,
    source: Source,
)
    ensures
        launched_values(Seq::empty(), source).len() == 0,
        launched_values(a + b, source) == launched_values(a, source) + launched_values(b, source),
        v.name@.len() == 0 || v.command().len() == 0 ==> launched_values(seq![v], source).len()
            == 0,
        v.name@.len() > 0 && v.command().len() > 0 ==> launched_values(seq![v], source) == seq![
            LaunchModel {
                id: id_text(source, v.name@),
                action: if source == Source::HkcuRunOnce {
                    ActionModel::RunOnce {
                        name: v.name@,
                        command: v.command(),
                        delete_after: '!' == v.name@.first(),
                    }
                } else {
                    ActionModel::CommandLine(v.command())
                },
            },
        ],
        shown_values(Seq::empty(), source).len() == 0,
        shown_values(a + b, source) == shown_values(a, source) + shown_values(b, source),
        v.name@.len() == 0 || v.written().len() == 0 ==> shown_values(seq![v], source).len() == 0,
        v.name@.len() > 0 && v.written().len() > 0 ==> shown_values(seq![v], source) == seq![
            EntryModel { source, name: v.name@, detail: v.written() },
        ],
    decreases b.len(),
{
    let one = seq![v];
    assert(one.drop_last() =~= Seq::<RawValue>::empty());
    assert(one.last() == v);
    assert(launched_values(one.drop_last(), source) =~= Seq::<LaunchModel>::empty());
    assert(shown_values(one.drop_last(), source) =~= Seq::<EntryModel>::empty());
    if v.name@.len() > 0 && v.command().len() > 0 {
        let m = LaunchModel { id: id_text(source, v.name@), action: value_action(v, source) };
        assert(launched_values(one, source) =~= seq![m]);
    }
    if v.name@.len() > 0 && v.written().len() > 0 {
        let m = EntryModel { source, name: v.name@, detail: v.written() };
        assert(shown_values(one, source) =~= seq![m]);
    }
    if b.len() == 0 {
        assert(a + b =~= a);
        assert(launched_values(a, source) + launched_values(b, source) =~= launched_values(
            a,
            source,
        ));
        assert(shown_values(a, source) + shown_values(b, source) =~= shown_values(a, source));
    } else {
        law_values_are_launched_one_by_one(a, b.drop_last(), v, source);
        assert((a + b).drop_last() =~= a + b.drop_last());
        assert((a + b).last() == b.last());
        assert(launched_values(a + b, source) =~= launched_values(a, source) + launched_values(
            b,
            source,
        ));
        assert(shown_values(a + b, source) =~= shown_values(a, source) + shown_values(b, source));
    }
}

/// What is launched and shown of a Startup folder is decided item by item, in
/// their order: each file, but for the folder's own settings, is opened by its
/// path.
pub proof fn law_items_are_opened_one_by_one(
    a: Seq<FolderItem>,
    b: Seq<FolderItem>,
    item: FolderItem,
    source: Source,
)
    ensures
        launched_items(Seq::empty(), source).len() == 0,
        launched_items(a + b, source) == launched_items(a, source) + launched_items(b, source),
        !item.is_file || text::same_ignoring_case(item.name@, "desktop.ini"@) ==> launched_items(
            seq![item],
            source,
        ).len() == 0 && shown_items(seq![item], source).len() == 0,
        item.is_file && !text::same_ignoring_case(item.name@, "desktop.ini"@) ==> {
            &&& launched_items(seq![item], source) == seq![
                LaunchModel {
                    id: id_text(source, item.name@),
                    action: ActionModel::OpenPath(item.path@),
                },
            ]
            &&& shown_items(seq![item], source) == seq![
                EntryModel { source, name: item.name@, detail: item.path@ },
            ]
        },
        shown_items(Seq::empty(), source).len() == 0,
        shown_items(a + b, source) == shown_items(a, source) + shown_items(b, source),
    decreases b.len(),
{
    let one = seq![item];
    assert(one.drop_last() =~= Seq::<FolderItem>::empty());
    assert(one.last() == item);
    assert(launched_items(one.drop_last(), source) =~= Seq::<LaunchModel>::empty());
    assert(shown_items(one.drop_last(), source) =~= Seq::<EntryModel>::empty());
    if item.is_file && !text::same_ignoring_case(item.name@, "desktop.ini"@) {
        let m = LaunchModel {
            id: id_text(source, item.name@),
            action: ActionModel::OpenPath(item.path@),
        };
        assert(launched_items(one, source) =~= seq![m]);
        let e = EntryModel { source, name: item.name@, detail: item.path@ };
        assert(shown_items(one, source) =~= seq![e]);
    }
    if b.len() == 0 {
        assert(a + b =~= a);
        assert(launched_items(a, source) + launched_items(b, source) =~= launched_items(
            a,
            source,
        ));
        assert(shown_items(a, source) + shown_items(b, source) =~= shown_items(a, source));
    } else {
        law_items_are_opened_one_by_one(a, b.drop_last(), item, source);
        assert((a + b).drop_last() =~= a + b.drop_last());
        assert((a + b).last() == b.last());
        assert(launched_items(a + b, source) =~= launched_items(a, source) + launched_items(
            b,
            source,
        ));
        assert(shown_items(a + b, source) =~= shown_items(a, source) + shown_items(b, source));
    }
}

/// Run-once values come first, then the machine's and the user's run values, then
/// the machine's and the user's Startup folders, and the clipboard helper last, in
/// remote sessions only. Nothing is launched that no list holds.
pub proof fn law_entries_launch_in_order(l: Listing)
    ensures
        ({
            let a = launched_values(l.user_run_once@, Source::HkcuRunOnce);
            let b = launched_values(l.machine_run@, Source::HklmRun);
            let c = launched_values(l.user_run@, Source::HkcuRun);
            let d = launched_items(l.common_items@, Source::StartupCommon);
            let e = launched_items(l.user_items@, Source::StartupUser);
            let clip = LaunchModel { id: "session:rdpclip"@, action: ActionModel::Rdpclip };
            &&& l.remote ==> launched_entries(l) == (a + b + c + d + e).push(clip)
            &&& !l.remote ==> launched_entries(l) == a + b + c + d + e
        }),
        ({
            let a = shown_values(l.user_run_once@, Source::HkcuRunOnce);
            let b = shown_values(l.machine_run@, Source::HklmRun);
            let c = shown_values(l.user_run@, Source::HkcuRun);
            let d = shown_items(l.common_items@, Source::StartupCommon);
            let e = shown_items(l.user_items@, Source::StartupUser);
            let clip = EntryModel {
                source: Source::Session,
                name: "rdpclip"@,
                detail: "rdpclip.exe (clipboard redirection)"@,
            };
            &&& l.remote ==> shown_entries(l) == (a + b + c + d + e).push(clip)
            &&& !l.remote ==> shown_entries(l) == a + b + c + d + e
        }),
{
    law_ids_name_source_and_entry("rdpclip"@);
    reveal_strlit("session:");
    reveal_strlit("rdpclip");
    reveal_strlit("session:rdpclip");
    assert("session:"@ + "rdpclip"@ =~= "session:rdpclip"@);
    let a = launched_values(l.user_run_once@, Source::HkcuRunOnce) + launched_values(
        l.machine_run@,
        Source::HklmRun,
    ) + launched_values(l.user_run@, Source::HkcuRun) + launched_items(
        l.common_items@,
        Source::StartupCommon,
    ) + launched_items(l.user_items@, Source::StartupUser);
    let s = shown_values(l.user_run_once@, Source::HkcuRunOnce) + shown_values(
        l.machine_run@,
        Source::HklmRun,
    ) + shown_values(l.user_run@, Source::HkcuRun) + shown_items(
        l.common_items@,
        Source::StartupCommon,
    ) + shown_items(l.user_items@, Source::StartupUser);
    if l.remote {
        let clip = LaunchModel { id: "session:rdpclip"@, action: ActionModel::Rdpclip };
        assert(launched_entries(l) =~= a.push(clip));
        let shown = shown_helpers(true)[0];
        assert(shown_entries(l) =~= s.push(shown));
    } else {
        assert(launched_entries(l) =~= a);
        assert(shown_entries(l) =~= s);
    }
}

/// Whether an action that deletes a run-once value says when by the value's name.
pub open spec fn deletes_as_named(action: ActionModel) -> bool {
    action matches ActionModel::RunOnce { name, command, delete_after } ==> name.len() > 0
        && command.len() > 0 && (delete_after <==> name[0] == '!')
}

proof fn lemma_values_delete_as_named(values: Seq<RawValue>, source: Source)
    ensures
        forall|k: int|
            0 <= k < launched_values(values, source).len() ==> deletes_as_named(
                (#[trigger] launched_values(values, source)[k]).action,
            ),
    decreases values.len(),
{
    if values.len() > 0 {
        let rest = launched_values(values.drop_last(), source);
        let all = launched_values(values, source);
        lemma_values_delete_as_named(values.drop_last(), source);
        assert forall|k: int| 0 <= k < all.len() implies deletes_as_named(
            (#[trigger] all[k]).action,
        ) by {
            if k < rest.len() {
                assert(all[k] == rest[k]);
            }
        }
    }
}

proof fn lemma_items_delete_nothing(items: Seq<FolderItem>, source: Source)
    ensures
        forall|k: int|
            0 <= k < launched_items(items, source).len() ==> (#[trigger] launched_items(
                items,
                source,
            )[k]).action is OpenPath,
    decreases items.len(),
{
    if items.len() > 0 {
        let rest = launched_items(items.drop_last(), source);
        let all = launched_items(items, source);
        lemma_items_delete_nothing(items.drop_last(), source);
        assert forall|k: int| 0 <= k < all.len() implies (#[trigger] all[k]).action is OpenPath by {
            if k < rest.len() {
                assert(all[k] == rest[k]);
            }
        }
    }
}

/// Of everything that is launched, an entry whose value is deleted after its
/// command has a name that starts with `!`, and no other has.
pub proof fn law_only_marked_values_outlive_their_command(l: Listing)
    ensures
        forall|k: int|
            0 <= k < launched_entries(l).len() ==> deletes_as_named(
                (#[trigger] launched_entries(l)[k]).action,
            ),
{
    lemma_values_delete_as_named(l.user_run_once@, Source::HkcuRunOnce);
    lemma_values_delete_as_named(l.machine_run@, Source::HklmRun);
    lemma_values_delete_as_named(l.user_run@, Source::HkcuRun);
    lemma_items_delete_nothing(l.common_items@, Source::StartupCommon);
    lemma_items_delete_nothing(l.user_items@, Source::StartupUser);
}

/// An entry that is listed has the id of its source and name, and its name, source
/// and detail as they were found, each entry in its place.
pub proof fn law_entries_are_listed_as_found(
    list: Seq<AutostartEntry>,
    models: Seq<EntryModel>,
    i: int,
)
    requires
        are_entries(list, models),
        0 <= i < models.len(),
    ensures
        list.len() == models.len(),
        list[i].id@ == id_text(models[i].source, models[i].name),
        list[i].name@ == models[i].name,
        list[i].source == models[i].source,
        list[i].detail@ == models[i].detail,
{
    assert(list[i].is_entry(models[i]));
}

} // verus!
