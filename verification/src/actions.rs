//! What firing a timer asks of the machine: for each action the attempts to
//! make, in order, until one succeeds. Making them is the caller's.

use vstd::prelude::*;
use vstd::string::StringExecFns;
use crate::text::{replace, replace_char};
use crate::timer::TimerAction;

verus! {

/// One way to carry out an action.
#[derive(Clone, Debug, PartialEq, Eq)]
pub enum Attempt {
    /// Run this AppleScript.
    Script(String),
    /// Put the display to sleep.
    DisplaySleep,
}

/// The mathematical content of an `Attempt`.
pub enum AttemptModel {
    Script(Seq<char>),
    DisplaySleep,
}

impl View for Attempt {
    type V = AttemptModel;

    open spec fn view(&self) -> AttemptModel {
        match self {
            Attempt::Script(s) => AttemptModel::Script(s@),
            Attempt::DisplaySleep => AttemptModel::DisplaySleep,
        }
    }
}

/// The script that shows a message in a dialog: the message stands between
/// double quotes, each double quote of its own behind a backslash.
pub open spec fn popup_script(message: Seq<char>) -> Seq<char> {
    "display dialog \""@ + replace_char(message, '"', "\\\""@)
        + "\" with title \"LockPilot\" buttons {\"OK\"} default button \"OK\""@
}

/// The attempts for an action. A popup without a message asks for nothing.
/// To lock the session, the lock shortcut is tried, then the screen saver,
/// then display sleep.
pub open spec fn plan_of(action: TimerAction, message: Option<Seq<char>>) -> Seq<AttemptModel> {
    match action {
        TimerAction::Popup => match message {
            Some(m) => seq![AttemptModel::Script(popup_script(m))],
            None => Seq::empty(),
        },
        TimerAction::Lock => seq![
            AttemptModel::Script(
                "tell application \"System Events\" to keystroke \"q\" using {control down, command down}"@,
            ),
            AttemptModel::Script(
                "tell application \"System Events\" to start current screen saver"@,
            ),
            AttemptModel::DisplaySleep,
        ],
        TimerAction::Shutdown => seq![
            AttemptModel::Script("tell application \"System Events\" to shut down"@),
        ],
        TimerAction::Reboot => seq![
            AttemptModel::Script("tell application \"System Events\" to restart"@),
        ],
    }
}

/// The contents of a vector of attempts.
pub open spec fn models_of(v: Seq<Attempt>) -> Seq<AttemptModel> {
    Seq::new(v.len(), |i: int| v[i]@)
}

/// The attempts to make for an action, in order, until one succeeds.
pub fn action_plan(action: &TimerAction, message: Option<&str>) -> (r: Vec<Attempt>)
    ensures
        models_of(r@) == plan_of(
            *action,
            match message {
                Some(m) => Some(m@),
                None => None,
            },
        ),
{
    let mut plan: Vec<Attempt> = Vec::new();
    match action {
        TimerAction::Popup => {
            if let Some(msg) = message {
                let escaped = replace(msg, '"', "\\\"");
                let script = "display dialog \"".to_owned().concat(escaped.as_str()).concat(
                    "\" with title \"LockPilot\" buttons {\"OK\"} default button \"OK\"",
                );
                plan.push(Attempt::Script(script));
            }
        },
        TimerAction::Lock => {
            plan.push(
                Attempt::Script(
                    "tell application \"System Events\" to keystroke \"q\" using {control down, command down}".to_owned(),
                ),
            );
            plan.push(
                Attempt::Script(
                    "tell application \"System Events\" to start current screen saver".to_owned(),
                ),
            );
            plan.push(Attempt::DisplaySleep);
        },
        TimerAction::Shutdown => {
            plan.push(
                Attempt::Script("tell application \"System Events\" to shut down".to_owned()),
            );
        },
        TimerAction::Reboot => {
            plan.push(Attempt::Script("tell application \"System Events\" to restart".to_owned()));
        },
    }
    proof {
        assert(models_of(plan@) =~= plan_of(
            *action,
            match message {
                Some(m) => Some(m@),
                None => None,
            },
        ));
    }
    plan
}

} // verus!
