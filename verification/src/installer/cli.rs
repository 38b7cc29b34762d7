//! The manager's command line: no argument opens the window, the rest is for
//! scripts and for driving the safety harness by hand.
use vstd::prelude::*;

use crate::config;
use crate::paths;
use crate::shell::RestoreOutcome;
use crate::text;

verus! {

/// What a run of the program is asked to do.
#[derive(Debug, PartialEq, Eq)]
pub enum Command {
    /// Open the manager window.
    Gui,
    /// Show the current and the backed-up shell state.
    Status,
    /// Back up and set the shell.
    Apply,
    /// Swap this session onto the restyled desktop now.
    Activate,
    /// Restore, sweep, and bring the stock desktop back now.
    Deactivate,
    /// Restore the original shell value only.
    Restore,
    Help,
    /// A command there is none of.
    Unknown(String),
}

/// Whether a command is what the first argument asks for.
pub open spec fn asks_for(arg: Option<Seq<char>>, command: Command) -> bool {
    match arg {
        None => command is Gui,
        Some(s) => if s == "status"@ {
            command is Status
        } else if s == "apply"@ {
            command is Apply
        } else if s == "activate"@ {
            command is Activate
        } else if s == "deactivate"@ {
            command is Deactivate
        } else if s == "restore"@ {
            command is Restore
        } else if s == "gui"@ {
            command is Gui
        } else if s == "--help"@ || s == "-h"@ || s == "help"@ {
            command is Help
        } else {
            command matches Command::Unknown(other) && other@ == s
        },
    }
}

/// The text of an optional argument.
pub open spec fn argument(arg: Option<&str>) -> Option<Seq<char>> {
    match arg {
        Some(s) => Some(s@),
        None => None,
    }
}

/// What the first argument asks for.
pub fn command(arg: Option<&str>) -> (r: Command)
    ensures
        asks_for(argument(arg), r),
{
    match arg {
        None => Command::Gui,
        Some(s) => if text::same_text(s, "status") {
            Command::Status
        } else if text::same_text(s, "apply") {
            Command::Apply
        } else if text::same_text(s, "activate") {
            Command::Activate
        } else if text::same_text(s, "deactivate") {
            Command::Deactivate
        } else if text::same_text(s, "restore") {
            Command::Restore
        } else if text::same_text(s, "gui") {
            Command::Gui
        } else if text::same_text(s, "--help") || text::same_text(s, "-h") || text::same_text(
            s,
            "help",
        ) {
            Command::Help
        } else {
            Command::Unknown(s.to_owned())
        },
    }
}

/// What is printed of how the program is used.
pub const USAGE: &'static str =
    "WinRestyle installer / manager\n\nUsage:\n  wr-installer              open the manager window (default)\n  wr-installer status       show the current/backed-up shell state\n  wr-installer apply        back up + set the shell (DANGER: VM only)\n  wr-installer restore      restore the original shell";

/// The exit code after printing the usage.
pub const USAGE_EXIT: i32 = 2;

/// How the program is used, as printed for `--help` and after a command there
/// is none of.
pub fn usage() -> (r: &'static str)
    ensures
        r@ == USAGE@,
{
    USAGE
}

/// What a command there is none of is answered, before the usage.
pub fn unknown_command(other: &str) -> (r: String)
    ensures
        r@ == "unknown command "@ + config::debug_text(other@),
{
    text::joined("unknown command ", config::quoted(other).as_str())
}

/// The lines of a shell state: the per-user shell value, quoted, and whether
/// there is a backup.
pub open spec fn status_lines(current: Option<Seq<char>>, backed_up: bool) -> Seq<Seq<char>> {
    seq![
        "HKCU Shell (current): "@ + match current {
            Some(s) => "Some("@ + config::debug_text(s) + ")"@,
            None => "None"@,
        },
        "WinRestyle backup present: "@ + if backed_up {
            "true"@
        } else {
            "false"@
        },
    ]
}

/// The lines `status` prints.
pub fn status(current: Option<&String>, backed_up: bool) -> (r: Vec<String>)
    ensures
        text::texts(r@) == status_lines(text::borrowed_text(current), backed_up),
{
    let shown = match current {
        Some(s) => {
            let head = text::joined("Some(", config::quoted(s.as_str()).as_str());
            text::joined(head.as_str(), ")")
        },
        None => "None".to_owned(),
    };
    let mut out: Vec<String> = Vec::new();
    out.push(text::joined("HKCU Shell (current): ", shown.as_str()));
    out.push(
        text::joined(
            "WinRestyle backup present: ",
            if backed_up {
                "true"
            } else {
                "false"
            },
        ),
    );
    proof {
        assert(text::texts(out@) =~= status_lines(text::borrowed_text(current), backed_up));
    }
    out
}

pub const APPLY_WARNING: &'static str =
    "WARNING: this replaces your per-user shell. Run in a VM only.";
pub const APPLIED: &'static str =
    "applied. Log out/in (or reboot) to start the WinRestyle shell.";
pub const HOTKEY_LINE: &'static str = "emergency restore hotkey: ";
pub const NO_DIRECTORY: &'static str = "installer has no parent dir";

/// The shell `apply` registers: the watchdog beside the program, which owns the
/// emergency hotkey and supervises the shell, and never the shell itself. An
/// error where `exe` names no file.
pub fn apply(exe: &str) -> (r: Result<String, &'static str>)
    ensures
        r is Ok <==> paths::parent_of(exe@) is Some,
        r matches Ok(shell) ==> shell@ == paths::beside(exe@, crate::WATCHDOG_EXE@),
        r matches Err(e) ==> e@ == NO_DIRECTORY@,
{
    match paths::sibling(exe, crate::WATCHDOG_EXE) {
        Some(shell) => Ok(shell),
        None => Err(NO_DIRECTORY),
    }
}

/// The line that names the emergency hotkey.
pub fn hotkey_line() -> (r: String)
    ensures
        r@ == HOTKEY_LINE@ + crate::EMERGENCY_HOTKEY_LABEL@,
{
    text::joined(HOTKEY_LINE, crate::EMERGENCY_HOTKEY_LABEL)
}

/// The line `restore` prints.
pub fn restore(outcome: RestoreOutcome) -> (r: String)
    ensures
        r@ == "restore outcome: "@ + outcome.name_text(),
{
    text::joined("restore outcome: ", outcome.name())
}

/// The registered shell is always the watchdog, for a program that stands in a
/// directory.
pub proof fn law_apply_registers_the_watchdog(exe: Seq<char>)
    requires
        paths::file_name_of(exe).len() > 0,
        paths::begins_alike(exe, crate::WATCHDOG_EXE@),
    ensures
        paths::file_name_of(paths::beside(exe, crate::WATCHDOG_EXE@)) == crate::WATCHDOG_EXE@,
{
    reveal_strlit("wr-watchdog.exe");
    let name = crate::WATCHDOG_EXE@;
    assert(name[0] == 'w');
    assert(paths::is_plain_name(name)) by {
        assert forall|i: int| 0 <= i < name.len() implies !paths::is_separator(
            #[trigger] name[i],
        ) by {}
        if name == seq!['.'] || name == seq!['.', '.'] {
            assert(name[0] == '.');
        }
    }
    paths::law_a_file_beside_another_has_its_name(exe, name);
}

/// Every command has its word, and the window is what no argument asks for; a
/// word that is none of them is handed back as it is.
pub proof fn law_every_word_asks_for_its_command(command: Command, word: Seq<char>)
    ensures
        asks_for(None, command) <==> command is Gui,
        asks_for(Some("gui"@), command) <==> command is Gui,
        asks_for(Some("status"@), command) <==> command is Status,
        asks_for(Some("apply"@), command) <==> command is Apply,
        asks_for(Some("activate"@), command) <==> command is Activate,
        asks_for(Some("deactivate"@), command) <==> command is Deactivate,
        asks_for(Some("restore"@), command) <==> command is Restore,
        asks_for(Some("help"@), command) <==> command is Help,
        asks_for(Some("--help"@), command) <==> command is Help,
        asks_for(Some("-h"@), command) <==> command is Help,
        asks_for(Some(word), command) && command is Unknown ==> command->Unknown_0@ == word,
        command is Unknown && command->Unknown_0@ == word && word != "gui"@ && word != "status"@
            && word != "apply"@ && word != "activate"@ && word != "deactivate"@ && word
            != "restore"@ && word != "help"@ && word != "--help"@ && word != "-h"@ ==> asks_for(
            Some(word),
            command,
        ),
{
    reveal_strlit("gui");
    reveal_strlit("status");
    reveal_strlit("apply");
    reveal_strlit("activate");
    reveal_strlit("deactivate");
    reveal_strlit("restore");
    reveal_strlit("help");
    reveal_strlit("--help");
    reveal_strlit("-h");
    assert("gui"@.len() == 3 && "status"@.len() == 6 && "apply"@.len() == 5);
    assert("activate"@.len() == 8 && "deactivate"@.len() == 10 && "restore"@.len() == 7);
    assert("help"@.len() == 4 && "--help"@.len() == 6 && "-h"@.len() == 2);
    assert("status"@[0] == 's' && "--help"@[0] == '-');
}

/// The lines of a state: the shell as it is quoted, or that there is none, and
/// whether there is a backup.
pub proof fn law_the_state_is_shown_in_two_lines(shell: Seq<char>)
    ensures
        status_lines(None, false) == seq![
            "HKCU Shell (current): "@ + "None"@,
            "WinRestyle backup present: "@ + "false"@,
        ],
        status_lines(Some(shell), true) == seq![
            "HKCU Shell (current): "@ + ("Some("@ + config::debug_text(shell) + ")"@),
            "WinRestyle backup present: "@ + "true"@,
        ],
        APPLY_WARNING@ == "WARNING: this replaces your per-user shell. Run in a VM only."@,
        APPLIED@ == "applied. Log out/in (or reboot) to start the WinRestyle shell."@,
        HOTKEY_LINE@ == "emergency restore hotkey: "@,
        NO_DIRECTORY@ == "installer has no parent dir"@,
        USAGE_EXIT == 2,
{
}

/// A program on a drive registers the watchdog in its own directory.
pub proof fn law_the_watchdog_beside_the_program_is_registered(
    c: char,
    dir: Seq<char>,
    exe: Seq<char>,
)
    requires
        'a' <= c && c <= 'z' || 'A' <= c && c <= 'Z',
        dir.len() > 0,
        dir.last() != '\\' && dir.last() != '/' && dir.last() != '.',
        exe.len() > 0,
        exe != seq!['.'],
        exe != seq!['.', '.'],
        forall|i: int| 0 <= i < exe.len() ==> #[trigger] exe[i] != '\\' && exe[i] != '/',
    ensures
        paths::parent_of(seq![c, ':', '\\'] + dir + seq!['\\'] + exe) is Some,
        paths::beside(seq![c, ':', '\\'] + dir + seq!['\\'] + exe, crate::WATCHDOG_EXE@) == seq![
            c,
            ':',
            '\\',
        ] + dir + seq!['\\'] + "wr-watchdog.exe"@,
{
    paths::law_files_on_a_drive_have_their_directory(c, dir, exe, crate::WATCHDOG_EXE@);
}

/// How the program is used.
pub proof fn law_the_usage_names_the_commands()
    ensures
        USAGE@
            == "WinRestyle installer / manager\n\nUsage:\n  wr-installer              open the manager window (default)\n  wr-installer status       show the current/backed-up shell state\n  wr-installer apply        back up + set the shell (DANGER: VM only)\n  wr-installer restore      restore the original shell"@,
{
}

} // verus!
