//! How an apply and a restore run from the manager window: what is shown when,
//! and what the model says before, in between and after.
//!
//! The recovery instructions are shown before live activation is offered, so
//! that the user has the hotkey before the desktop churns.
use vstd::prelude::*;

use crate::config::Config;
use crate::installer::app::{self, Manager};
use crate::manager::ApplyOutcome;
use crate::shell::RestoreOutcome;
use crate::text;

verus! {

/// A failure as it is shown: in one line, and with the causes behind it.
#[derive(Debug, PartialEq, Eq)]
pub struct Failure {
    pub message: String,
    pub chain: String,
}

/// A message box.
#[derive(Debug, PartialEq, Eq)]
pub struct Dialog {
    pub caption: &'static str,
    pub body: String,
    /// A warning rather than information.
    pub warning: bool,
}

impl Dialog {
    /// Whether this is the box with that caption, body and weight.
    pub open spec fn says(&self, caption: Seq<char>, body: Seq<char>, warning: bool) -> bool {
        self.caption@ == caption && self.body@ == body && self.warning == warning
    }
}

/// Where an apply is: what to do next.
#[derive(Debug, Clone, Copy, PartialEq, Eq, Structural)]
pub enum ApplyFlow {
    /// Run the safe-apply.
    Apply,
    /// Show what became of it.
    ShowApplied,
    ShowApplyFailure,
    /// Ask whether to activate now.
    Ask,
    /// Run the live activation.
    Activate,
    ShowActivationFailure,
    /// Settle the model.
    Finish,
}

/// The step after `step`, given whether it succeeded or was answered yes.
pub open spec fn flow_next(step: ApplyFlow, ok: bool) -> ApplyFlow {
    match step {
        ApplyFlow::Apply => if ok {
            ApplyFlow::ShowApplied
        } else {
            ApplyFlow::ShowApplyFailure
        },
        ApplyFlow::ShowApplied => ApplyFlow::Ask,
        ApplyFlow::Ask => if ok {
            ApplyFlow::Activate
        } else {
            ApplyFlow::Finish
        },
        ApplyFlow::Activate => if ok {
            ApplyFlow::Finish
        } else {
            ApplyFlow::ShowActivationFailure
        },
        ApplyFlow::ShowApplyFailure => ApplyFlow::Finish,
        ApplyFlow::ShowActivationFailure => ApplyFlow::Finish,
        ApplyFlow::Finish => ApplyFlow::Finish,
    }
}

/// Where an apply is after steps with these results.
pub open spec fn flow_walk(results: Seq<bool>) -> ApplyFlow
    decreases results.len(),
{
    if results.len() == 0 {
        ApplyFlow::Apply
    } else {
        flow_next(flow_walk(results.drop_last()), results.last())
    }
}

/// The next step of an apply, given whether the last one succeeded or was
/// answered yes. It starts at [`ApplyFlow::Apply`].
pub fn do_apply(step: ApplyFlow, ok: bool) -> (r: ApplyFlow)
    ensures
        r == flow_next(step, ok),
{
    match step {
        ApplyFlow::Apply => if ok {
            ApplyFlow::ShowApplied
        } else {
            ApplyFlow::ShowApplyFailure
        },
        ApplyFlow::ShowApplied => ApplyFlow::Ask,
        ApplyFlow::Ask => if ok {
            ApplyFlow::Activate
        } else {
            ApplyFlow::Finish
        },
        ApplyFlow::Activate => if ok {
            ApplyFlow::Finish
        } else {
            ApplyFlow::ShowActivationFailure
        },
        ApplyFlow::ShowApplyFailure => ApplyFlow::Finish,
        ApplyFlow::ShowActivationFailure => ApplyFlow::Finish,
        ApplyFlow::Finish => ApplyFlow::Finish,
    }
}

/// Activation is run exactly after a successful apply, the showing of its
/// instructions and a yes; and every apply is finished within five steps.
pub proof fn law_activation_is_offered_after_the_instructions(results: Seq<bool>)
    ensures
        flow_walk(results) == ApplyFlow::Ask <==> results.len() == 2 && results[0],
        flow_walk(results) == ApplyFlow::Activate <==> results.len() == 3 && results[0]
            && results[2],
        results.len() >= 5 ==> flow_walk(results) == ApplyFlow::Finish,
{
    lemma_flow_walk(results);
}

proof fn lemma_flow_walk(results: Seq<bool>)
    ensures
        flow_walk(results) == ApplyFlow::Apply <==> results.len() == 0,
        flow_walk(results) == ApplyFlow::ShowApplied <==> results.len() == 1 && results[0],
        flow_walk(results) == ApplyFlow::ShowApplyFailure <==> results.len() == 1 && !results[0],
        flow_walk(results) == ApplyFlow::Ask <==> results.len() == 2 && results[0],
        flow_walk(results) == ApplyFlow::Activate <==> results.len() == 3 && results[0]
            && results[2],
        flow_walk(results) == ApplyFlow::ShowActivationFailure <==> results.len() == 4
            && results[0] && results[2] && !results[3],
    decreases results.len(),
{
    if results.len() > 0 {
        let init = results.drop_last();
        lemma_flow_walk(init);
        assert(results.last() == results[results.len() - 1]);
        if init.len() > 0 {
            assert(init[0] == results[0]);
        }
        if init.len() > 2 {
            assert(init[2] == results[2]);
        }
        if init.len() > 3 {
            assert(init[3] == results[3]);
        }
    }
}

pub const APPLYING: &'static str =
    "Applying… running a trial launch before touching the registry.";
pub const ACTIVATING: &'static str = "Activating — switching this session to WinRestyle…";
pub const RESTORING: &'static str = "Restoring the Windows shell…";
pub const NO_APPDATA: &'static str =
    "APPDATA is not set, so there is nowhere to write the config";
pub const ASK_CAPTION: &'static str = "Activate now?";
pub const ASK_BODY: &'static str =
    "Switch this session to the WinRestyle desktop right now?\n\nThis restarts the Windows desktop — open File Explorer windows will close. Choosing No keeps the standard desktop until your next sign-in.";
pub const RESTORED_TAIL: &'static str =
    ". If WinRestyle was live in this session, it has been swept and the standard desktop is back — no sign-out needed.";

/// The box that shows what became of an apply.
pub fn apply_dialog(outcome: &Result<ApplyOutcome, Failure>) -> (r: Dialog)
    ensures
        match *outcome {
            Ok(o) => r.says("Restyle applied"@, o.instructions@, false),
            Err(e) => r.says("Could not apply"@, e.chain@, true),
        },
{
    match outcome {
        Ok(o) => Dialog {
            caption: "Restyle applied",
            body: o.instructions.clone(),
            warning: false,
        },
        Err(e) => Dialog { caption: "Could not apply", body: e.chain.clone(), warning: true },
    }
}

/// The box that shows why an activation failed.
pub fn activation_dialog(e: &Failure) -> (r: Dialog)
    ensures
        r.says("Could not activate"@, e.chain@, true),
{
    Dialog { caption: "Could not activate", body: e.chain.clone(), warning: true }
}

/// The box that shows what became of a restore.
pub fn restore_dialog(outcome: &Result<RestoreOutcome, Failure>) -> (r: Dialog)
    ensures
        match *outcome {
            Ok(o) => r.says("Windows shell restored"@, o.name_text() + RESTORED_TAIL@, false),
            Err(e) => r.says("Could not restore"@, e.chain@, true),
        },
{
    match outcome {
        Ok(o) => Dialog {
            caption: "Windows shell restored",
            body: text::joined(o.name(), RESTORED_TAIL),
            warning: false,
        },
        Err(e) => Dialog { caption: "Could not restore", body: e.chain.clone(), warning: true },
    }
}

/// The status line after an apply, and after the activation that followed, if
/// one was run.
pub open spec fn status_after_apply(
    applied: Result<ApplyOutcome, Failure>,
    activated: Option<Result<ApplyOutcome, Failure>>,
) -> Seq<char> {
    match applied {
        Err(e) => "Apply failed: "@ + e.message@,
        Ok(o) => match activated {
            None => o.headline@,
            Some(Ok(o)) => o.headline@,
            Some(Err(e)) => "Live activation failed: "@ + e.message@,
        },
    }
}

/// The status line after a restore.
pub open spec fn status_after_restore(outcome: Result<RestoreOutcome, Failure>) -> Seq<char> {
    match outcome {
        Ok(o) => "Restore: "@ + o.name_text() + "."@,
        Err(e) => "Restore failed: "@ + e.message@,
    }
}

/// The status line after an apply.
fn apply_status(
    applied: &Result<ApplyOutcome, Failure>,
    activated: &Option<Result<ApplyOutcome, Failure>>,
) -> (r: String)
    ensures
        r@ == status_after_apply(*applied, *activated),
{
    match applied {
        Err(e) => text::joined("Apply failed: ", e.message.as_str()),
        Ok(o) => match activated {
            None => o.headline.clone(),
            Some(Ok(o)) => o.headline.clone(),
            Some(Err(e)) => text::joined("Live activation failed: ", e.message.as_str()),
        },
    }
}

impl Manager {
    /// Start an apply: go busy, say so, and hand out the config to apply.
    pub fn begin_apply(&mut self) -> (r: Config)
        requires
            old(self).is_valid(),
        ensures
            *final(self) == (Manager { busy: true, status: final(self).status, ..*old(self) }),
            final(self).status@ == APPLYING@,
            r@ == app::described_config(*old(self)),
    {
        self.busy = true;
        self.status = APPLYING.to_owned();
        app::build_selected_config(self)
    }

    /// Say that the activation runs.
    pub fn begin_activation(&mut self)
        ensures
            *final(self) == (Manager { status: final(self).status, ..*old(self) }),
            final(self).status@ == ACTIVATING@,
    {
        self.status = ACTIVATING.to_owned();
    }

    /// Settle the model after an apply: not busy any more, and building on the
    /// applied config where it succeeded.
    pub fn finish_apply(
        &mut self,
        config: Config,
        applied: &Result<ApplyOutcome, Failure>,
        activated: &Option<Result<ApplyOutcome, Failure>>,
        subtitle: String,
    )
        ensures
            *final(self) == (Manager {
                busy: false,
                subtitle,
                status: final(self).status,
                base_config: if *applied is Ok {
                    config
                } else {
                    old(self).base_config
                },
                ..*old(self)
            }),
            final(self).status@ == status_after_apply(*applied, *activated),
    {
        self.busy = false;
        self.subtitle = subtitle;
        if applied.is_ok() {
            self.base_config = config;
        }
        self.status = apply_status(applied, activated);
    }

    /// Start a restore: go busy and say so.
    pub fn begin_restore(&mut self)
        ensures
            *final(self) == (Manager { busy: true, status: final(self).status, ..*old(self) }),
            final(self).status@ == RESTORING@,
    {
        self.busy = true;
        self.status = RESTORING.to_owned();
    }

    /// Settle the model after a restore: not busy any more.
    pub fn finish_restore(
        &mut self,
        outcome: &Result<RestoreOutcome, Failure>,
        subtitle: String,
    )
        ensures
            *final(self) == (Manager {
                busy: false,
                subtitle,
                status: final(self).status,
                ..*old(self)
            }),
            final(self).status@ == status_after_restore(*outcome),
    {
        self.busy = false;
        self.subtitle = subtitle;
        self.status = match outcome {
            Ok(o) => {
                let head = text::joined("Restore: ", o.name());
                text::joined(head.as_str(), ".")
            },
            Err(e) => text::joined("Restore failed: ", e.message.as_str()),
        };
    }
}

/// The steps of an apply from the window, in order: what became of it is shown,
/// then activation is offered, and a failed one is shown too.
pub proof fn law_an_apply_shows_what_became_of_it(results: Seq<bool>)
    ensures
        flow_walk(results) == ApplyFlow::Apply <==> results.len() == 0,
        flow_walk(results) == ApplyFlow::ShowApplied <==> results.len() == 1 && results[0],
        flow_walk(results) == ApplyFlow::ShowApplyFailure <==> results.len() == 1 && !results[0],
        flow_walk(results) == ApplyFlow::Ask <==> results.len() == 2 && results[0],
        flow_walk(results) == ApplyFlow::Activate <==> results.len() == 3 && results[0]
            && results[2],
        flow_walk(results) == ApplyFlow::ShowActivationFailure <==> results.len() == 4
            && results[0] && results[2] && !results[3],
{
    lemma_flow_walk(results);
}

/// What the status line says after an apply and after a restore: the headline
/// where it went well, else the failure that came last.
pub proof fn law_the_status_line_tells_the_outcome(
    applied: ApplyOutcome,
    activated: ApplyOutcome,
    failure: Failure,
    later: Option<Result<ApplyOutcome, Failure>>,
)
    ensures
        status_after_apply(Err(failure), later) == "Apply failed: "@ + failure.message@,
        status_after_apply(Ok(applied), None) == applied.headline@,
        status_after_apply(Ok(applied), Some(Ok(activated))) == activated.headline@,
        status_after_apply(Ok(applied), Some(Err(failure))) == "Live activation failed: "@
            + failure.message@,
        status_after_restore(Err(failure)) == "Restore failed: "@ + failure.message@,
        status_after_restore(Ok(RestoreOutcome::RestoredOriginal)) == "Restore: "@
            + "RestoredOriginal"@ + "."@,
        status_after_restore(Ok(RestoreOutcome::RemovedOverride)) == "Restore: "@
            + "RemovedOverride"@ + "."@,
        status_after_restore(Ok(RestoreOutcome::NothingToRestore)) == "Restore: "@
            + "NothingToRestore"@ + "."@,
{
}

/// What the window says while it works and asks.
pub proof fn law_the_window_says_what_it_does()
    ensures
        APPLYING@ == "Applying… running a trial launch before touching the registry."@,
        ACTIVATING@ == "Activating — switching this session to WinRestyle…"@,
        RESTORING@ == "Restoring the Windows shell…"@,
        NO_APPDATA@ == "APPDATA is not set, so there is nowhere to write the config"@,
        ASK_CAPTION@ == "Activate now?"@,
        RESTORED_TAIL@
            == ". If WinRestyle was live in this session, it has been swept and the standard desktop is back — no sign-out needed."@,
{
}

/// What is asked before an activation.
pub proof fn law_the_question_warns_of_what_closes()
    ensures
        ASK_BODY@
            == "Switch this session to the WinRestyle desktop right now?\n\nThis restarts the Windows desktop — open File Explorer windows will close. Choosing No keeps the standard desktop until your next sign-in."@,
{
}

/// A box says what it is asked to, under its caption and with its weight.
pub proof fn law_a_box_says_what_it_is_asked_to(
    d: Dialog,
    caption: Seq<char>,
    body: Seq<char>,
    warning: bool,
)
    requires
        d.says(caption, body, warning),
    ensures
        d.caption@ == caption,
        d.body@ == body,
        d.warning == warning,
{
}

} // verus!
