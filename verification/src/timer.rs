//! Timer records and the requests that create them.

use vstd::prelude::*;
use crate::instant::Instant;
use crate::recurrence::RecurrenceConfig;

verus! {

/// What a timer does when it fires.
#[derive(Clone, Copy, Debug, PartialEq, Eq)]
pub enum TimerAction {
    /// Show a message to the user.
    Popup,
    /// Lock the session.
    Lock,
    Shutdown,
    Reboot,
}

/// A live timer as clients see it and as it is stored.
#[derive(Clone, Debug, PartialEq, Eq)]
pub struct TimerInfo {
    pub id: String,
    pub action: TimerAction,
    pub target_time: Instant,
    pub recurrence: Option<RecurrenceConfig>,
    pub message: Option<String>,
    pub created_at: Instant,
}

/// The mathematical content of a `TimerInfo`: its texts as sequences of
/// characters.
pub struct TimerRecord {
    pub id: Seq<char>,
    pub action: TimerAction,
    pub target_time: Instant,
    pub recurrence: Option<RecurrenceConfig>,
    pub message: Option<Seq<char>>,
    pub created_at: Instant,
}

/// What a client hands in to create a timer.
#[derive(Clone, Debug, PartialEq, Eq)]
pub struct CreateTimerRequest {
    pub action: TimerAction,
    /// The target time as an RFC 3339 timestamp.
    pub target_time: String,
    pub recurrence: Option<RecurrenceConfig>,
    pub message: Option<String>,
}

/// The characters of an optional text.
pub open spec fn text_of(message: Option<String>) -> Option<Seq<char>> {
    match message {
        Some(m) => Some(m@),
        None => None,
    }
}

impl View for TimerInfo {
    type V = TimerRecord;

    open spec fn view(&self) -> TimerRecord {
        TimerRecord {
            id: self.id@,
            action: self.action,
            target_time: self.target_time,
            recurrence: self.recurrence,
            message: text_of(self.message),
            created_at: self.created_at,
        }
    }
}

impl TimerRecord {
    /// This record with another target time.
    pub open spec fn retargeted(self, target_time: Instant) -> TimerRecord {
        TimerRecord { target_time, ..self }
    }
}

impl TimerInfo {
    /// Both instants of the record are well formed.
    pub open spec fn wf(self) -> bool {
        self.target_time.wf() && self.created_at.wf()
    }

    /// A copy with the same content.
    pub fn duplicate(&self) -> (r: TimerInfo)
        ensures
            r@ == self@,
            r.wf() == self.wf(),
    {
        let message = match &self.message {
            Some(m) => Some(m.clone()),
            None => None,
        };
        TimerInfo {
            id: self.id.clone(),
            action: self.action,
            target_time: self.target_time,
            recurrence: self.recurrence,
            message,
            created_at: self.created_at,
        }
    }
}

} // verus!
