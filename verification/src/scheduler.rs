//! The decisions of one timer's loop: how long to wait, what a wakeup means,
//! and what becomes of the timer once it has fired. The waiting and the
//! firing themselves are the caller's.

use vstd::prelude::*;
use crate::instant::Instant;
use crate::recurrence::{
    compute_next_run, law_next_run_is_in_the_future, next_run, RecurrenceConfig,
};
use crate::registry::{lists, TimerRegistry};
use crate::timer::TimerRecord;

verus! {

/// Where the loop of one timer stands.
#[derive(Clone, Copy, Debug, PartialEq, Eq)]
pub enum LoopState {
    /// Asleep until the target time or a cancellation.
    Waiting(Instant),
    /// The deadline passed: the action for this target is to be run now.
    Firing(Instant),
    /// Cancelled while waiting. Nothing more happens.
    Cancelled,
    /// Fired for the last time. Nothing more happens.
    Retired,
}

/// What ended a wait.
#[derive(Clone, Copy, Debug, PartialEq, Eq)]
pub enum Wakeup {
    /// The cancellation signal arrived first.
    CancelReceived,
    /// The wait ran out first.
    DeadlineReached,
}

/// A span of time to sleep.
#[derive(Clone, Copy, Debug, PartialEq, Eq)]
pub struct Wait {
    pub secs: u64,
    pub nanos: u32,
}

impl View for Wait {
    type V = int;

    /// The span in nanoseconds.
    open spec fn view(&self) -> int {
        self.secs * 1_000_000_000 + self.nanos
    }
}

/// What the loop does after a firing.
#[derive(Clone, Copy, Debug, PartialEq, Eq)]
pub struct Settlement {
    /// The state in which the loop goes on.
    pub state: LoopState,
    /// Whether the registry is to be written to the store now.
    pub persist: bool,
}

/// The state after a wakeup: a waiting loop is cancelled or starts firing;
/// every other state stays as it is.
pub open spec fn spec_on_wakeup(state: LoopState, event: Wakeup) -> LoopState {
    match state {
        LoopState::Waiting(target) => match event {
            Wakeup::CancelReceived => LoopState::Cancelled,
            Wakeup::DeadlineReached => LoopState::Firing(target),
        },
        _ => state,
    }
}

/// The time left until `target`, nothing if it has passed.
pub fn remaining_wait(target: Instant, now: Instant) -> (w: Wait)
    requires
        target.wf(),
        now.wf(),
    ensures
        w.nanos < 1_000_000_000,
        w@ == if target@ > now@ { target@ - now@ } else { 0 },
{
    if !target.is_after(&now) {
        return Wait { secs: 0, nanos: 0 };
    }
    let whole: i128 = target.secs as i128 - now.secs as i128;
    if target.nanos >= now.nanos {
        Wait { secs: whole as u64, nanos: target.nanos - now.nanos }
    } else {
        Wait { secs: (whole - 1) as u64, nanos: target.nanos + (1_000_000_000 - now.nanos) }
    }
}

/// Takes a wakeup into account.
pub fn on_wakeup(state: LoopState, event: Wakeup) -> (r: LoopState)
    ensures
        r == spec_on_wakeup(state, event),
{
    match state {
        LoopState::Waiting(target) => match event {
            Wakeup::CancelReceived => LoopState::Cancelled,
            Wakeup::DeadlineReached => LoopState::Firing(target),
        },
        _ => state,
    }
}

/// Whether the loop has ended.
pub fn is_finished(state: LoopState) -> (r: bool)
    ensures
        r == (state == LoopState::Cancelled || state == LoopState::Retired),
{
    match state {
        LoopState::Cancelled | LoopState::Retired => true,
        _ => false,
    }
}

/// What becomes of a timer that has just fired for `fired_target`, given the
/// next occurrence that its rule yields, if it has a rule. Without a next
/// occurrence the timer leaves the registry and the loop retires. With one,
/// the record gets the new target and the loop waits for it; but where the
/// record is gone already, the loop retires and nothing is written.
pub open spec fn settled(
    before: Map<Seq<char>, TimerRecord>,
    id: Seq<char>,
    next: Option<Instant>,
) -> (Map<Seq<char>, TimerRecord>, Settlement) {
    match next {
        None => (before.remove(id), Settlement { state: LoopState::Retired, persist: true }),
        Some(t) => if before.contains_key(id) {
            (
                before.insert(id, before[id].retargeted(t)),
                Settlement { state: LoopState::Waiting(t), persist: true },
            )
        } else {
            (before, Settlement { state: LoopState::Retired, persist: false })
        },
    }
}

/// The next occurrence of a timer that fired for `fired_target`: none without
/// a rule.
pub open spec fn occurrence_after(
    fired_target: Instant,
    recurrence: Option<RecurrenceConfig>,
    now: Instant,
) -> Option<Instant> {
    match recurrence {
        None => None,
        Some(rule) => next_run(fired_target, rule, now),
    }
}

/// Settles a timer that has just fired: retires it, or moves it to its next
/// occurrence.
pub fn settle(
    registry: &mut TimerRegistry,
    id: &str,
    fired_target: Instant,
    recurrence: Option<&RecurrenceConfig>,
    now: Instant,
) -> (r: Settlement)
    requires
        old(registry).wf(),
        fired_target.wf(),
        now.wf(),
    ensures
        final(registry).wf(),
        (final(registry)@, r) == settled(
            old(registry)@,
            id@,
            occurrence_after(
                fired_target,
                match recurrence {
                    Some(rule) => Some(*rule),
                    None => None,
                },
                now,
            ),
        ),
{
    let next = match recurrence {
        Some(rule) => compute_next_run(fired_target, rule, now),
        None => None,
    };
    match next {
        None => {
            let _ = registry.remove(id);
            Settlement { state: LoopState::Retired, persist: true }
        },
        Some(t) => {
            if registry.update(id, t) {
                Settlement { state: LoopState::Waiting(t), persist: true }
            } else {
                Settlement { state: LoopState::Retired, persist: false }
            }
        },
    }
}

/// The state in which a loop goes on after a firing when the registry cannot
/// be reached: it waits for the next occurrence, or retires without one.
pub fn settle_detached(
    fired_target: Instant,
    recurrence: Option<&RecurrenceConfig>,
    now: Instant,
) -> (r: LoopState)
    requires
        fired_target.wf(),
        now.wf(),
    ensures
        r == match occurrence_after(
            fired_target,
            match recurrence {
                Some(rule) => Some(*rule),
                None => None,
            },
            now,
        ) {
            Some(t) => LoopState::Waiting(t),
            None => LoopState::Retired,
        },
{
    let next = match recurrence {
        Some(rule) => compute_next_run(fired_target, rule, now),
        None => None,
    };
    match next {
        Some(t) => LoopState::Waiting(t),
        None => LoopState::Retired,
    }
}

/// A timer without a rule fires once: when its deadline is reached the loop
/// fires, and settling it retires the loop and takes the id out of the
/// registry, so that no listing of the registry shows it any more.
pub proof fn law_one_shot_fires_once(
    before: Map<Seq<char>, TimerRecord>,
    id: Seq<char>,
    target: Instant,
    now: Instant,
    listing: Seq<TimerRecord>,
)
    requires
        lists(settled(before, id, occurrence_after(target, None, now)).0, listing),
    ensures
        spec_on_wakeup(LoopState::Waiting(target), Wakeup::DeadlineReached) == LoopState::Firing(
            target,
        ),
        settled(before, id, occurrence_after(target, None, now)).1.state == LoopState::Retired,
        !settled(before, id, occurrence_after(target, None, now)).0.contains_key(id),
        forall|i: int| 0 <= i < listing.len() ==> (#[trigger] listing[i]).id != id,
        forall|event: Wakeup| spec_on_wakeup(LoopState::Retired, event) == LoopState::Retired,
{
}

/// A timer cancelled while it waits never fires: the loop goes to
/// `Cancelled` and stays there whatever wakes it, and once the id has been
/// removed no listing of the registry shows it.
pub proof fn law_cancelled_timer_is_gone(
    before: Map<Seq<char>, TimerRecord>,
    id: Seq<char>,
    target: Instant,
    listing: Seq<TimerRecord>,
)
    requires
        lists(before.remove(id), listing),
    ensures
        spec_on_wakeup(LoopState::Waiting(target), Wakeup::CancelReceived) == LoopState::Cancelled,
        forall|event: Wakeup| spec_on_wakeup(LoopState::Cancelled, event) == LoopState::Cancelled,
        forall|i: int| 0 <= i < listing.len() ==> (#[trigger] listing[i]).id != id,
{
}

/// A recurring timer that is settled with a next occurrence waits for an
/// instant strictly after the present, and the registry shows that instant
/// as its target.
pub proof fn law_rescheduled_target_is_future(
    before: Map<Seq<char>, TimerRecord>,
    id: Seq<char>,
    target: Instant,
    rule: RecurrenceConfig,
    now: Instant,
)
    requires
        target.wf(),
    ensures
        ({
            let (after, settlement) = settled(
                before,
                id,
                occurrence_after(target, Some(rule), now),
            );
            settlement.state matches LoopState::Waiting(t) ==> t@ > now@ && after.contains_key(id)
                && after[id].target_time == t
        }),
{
    law_next_run_is_in_the_future(target, rule, now);
}

} // verus!
