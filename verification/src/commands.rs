//! What clients ask for: to create a timer, with the checks at the boundary,
//! to list the live timers, and to cancel one.

use vstd::prelude::*;
use crate::error::ValidationError;
use crate::instant::Instant;
use crate::recurrence::{recurrence_verdict, validate_recurrence};
use crate::registry::{lists, occurs_in, records_of, TimerRegistry};
use crate::text::{trim, trimmed};
use crate::timer::{text_of, CreateTimerRequest, TimerAction, TimerInfo, TimerRecord};

verus! {

/// The seconds since the epoch and the nanoseconds past the second that an
/// RFC 3339 timestamp denotes; `None` for a text that is no such timestamp.
pub uninterp spec fn rfc3339_parts(text: Seq<char>) -> Option<(i64, u32)>;

/// `chrono::DateTime::parse_from_rfc3339`. Trusted: what comes back depends
/// on the text alone. For a timestamp the result holds its seconds since the
/// epoch and its nanoseconds past the second, as chrono's `timestamp` and
/// `timestamp_subsec_nanos` give them; the latter is a second or more inside a
/// leap second.
#[verifier::external_body]
fn parse_rfc3339(text: &str) -> (r: Option<(i64, u32)>)
    ensures
        r == rfc3339_parts(text@),
{
    match chrono::DateTime::parse_from_rfc3339(text) {
        Ok(t) => Some((t.timestamp(), t.timestamp_subsec_nanos())),
        Err(_) => None,
    }
}

/// `chrono::Utc::now`. Trusted: the reading of the clock has a nanosecond
/// part below one second. Nothing else is known of it.
#[verifier::external_body]
fn current_instant() -> (r: Instant)
    ensures
        r.wf(),
{
    let t = chrono::Utc::now();
    Instant { secs: t.timestamp(), nanos: t.timestamp_subsec_nanos() }
}

/// `uuid::Uuid::new_v4`, written out as text. Trusted; nothing is known of
/// the result, which is drawn at random.
#[verifier::external_body]
fn fresh_id() -> (r: String) {
    uuid::Uuid::new_v4().to_string()
}

/// The present, as the clock gives it.
pub fn present() -> (r: Instant)
    ensures
        r.wf(),
{
    current_instant()
}

/// A message that is missing or holds nothing but white space.
pub open spec fn is_blank(message: Option<Seq<char>>) -> bool {
    match message {
        Some(m) => trimmed(m).len() == 0,
        None => true,
    }
}

/// A message without the white space at its ends.
pub open spec fn trimmed_message(message: Option<Seq<char>>) -> Option<Seq<char>> {
    match message {
        Some(m) => Some(trimmed(m)),
        None => None,
    }
}

/// The verdict on a request, given what its target time parsed to, the
/// present and the id to give: the first fault found, in the order target
/// time, future, message, recurrence; or the record to enter.
pub open spec fn admission(
    request: CreateTimerRequest,
    parsed: Option<(i64, u32)>,
    now: Instant,
    id: Seq<char>,
) -> Result<TimerRecord, ValidationError> {
    match parsed {
        None => Err(ValidationError::InvalidTime),
        Some((secs, nanos)) => match Instant::spec_from_parts(secs, nanos) {
            None => Err(ValidationError::InvalidTime),
            Some(target) => if target@ <= now@ {
                Err(ValidationError::NotInFuture)
            } else if request.action == TimerAction::Popup && is_blank(text_of(request.message)) {
                Err(ValidationError::MessageRequired)
            } else {
                match recurrence_verdict(request.recurrence) {
                    Err(e) => Err(e),
                    Ok(_) => Ok(
                        TimerRecord {
                            id,
                            action: request.action,
                            target_time: target,
                            recurrence: request.recurrence,
                            message: trimmed_message(text_of(request.message)),
                            created_at: now,
                        },
                    ),
                }
            },
        },
    }
}

/// The content of the outcome of a creation.
pub open spec fn outcome_of(r: Result<TimerInfo, ValidationError>) -> Result<
    TimerRecord,
    ValidationError,
> {
    match r {
        Ok(info) => Ok(info@),
        Err(e) => Err(e),
    }
}

/// How a creation changes the registry: a request that is turned down
/// changes nothing, an admitted record enters under its id.
pub open spec fn entered(
    before: Map<Seq<char>, TimerRecord>,
    verdict: Result<TimerRecord, ValidationError>,
) -> Map<Seq<char>, TimerRecord> {
    match verdict {
        Ok(record) => before.insert(record.id, record),
        Err(_) => before,
    }
}

/// Checks a request against the present and, if it stands, enters the timer
/// under the given id. `parsed` is what the request's target time parsed to.
pub fn admit_timer(
    registry: &mut TimerRegistry,
    request: CreateTimerRequest,
    parsed: Option<(i64, u32)>,
    now: Instant,
    id: String,
) -> (r: Result<TimerInfo, ValidationError>)
    requires
        old(registry).wf(),
        now.wf(),
    ensures
        final(registry).wf(),
        outcome_of(r) == admission(request, parsed, now, id@),
        final(registry)@ == entered(old(registry)@, admission(request, parsed, now, id@)),
        r matches Ok(info) ==> info.wf(),
{
    let target = match parsed {
        Some((secs, nanos)) => match Instant::from_parts(secs, nanos) {
            Some(t) => t,
            None => {
                return Err(ValidationError::InvalidTime);
            },
        },
        None => {
            return Err(ValidationError::InvalidTime);
        },
    };
    if !target.is_after(&now) {
        return Err(ValidationError::NotInFuture);
    }
    let needs_message = match request.action {
        TimerAction::Popup => true,
        _ => false,
    };
    if needs_message {
        let blank = match &request.message {
            Some(m) => trim(m.as_str()).is_empty(),
            None => true,
        };
        if blank {
            return Err(ValidationError::MessageRequired);
        }
    }
    match validate_recurrence(request.recurrence.as_ref()) {
        Err(e) => {
            return Err(e);
        },
        Ok(_) => {},
    }
    let message = match &request.message {
        Some(m) => Some(trim(m.as_str()).to_owned()),
        None => None,
    };
    let info = TimerInfo {
        id,
        action: request.action,
        target_time: target,
        recurrence: request.recurrence,
        message,
        created_at: now,
    };
    let entry = info.duplicate();
    registry.insert(entry);
    Ok(info)
}

/// Creates a timer from a client's request: parses the target time, reads
/// the clock, draws a fresh id, and admits the timer. Whatever the clock and
/// the id turn out to be, the outcome is the verdict on the request for them,
/// and the registry holds the new record exactly if the request stood.
pub fn create_timer(registry: &mut TimerRegistry, request: CreateTimerRequest) -> (r: Result<
    TimerInfo,
    ValidationError,
>)
    requires
        old(registry).wf(),
    ensures
        final(registry).wf(),
        exists|now: Instant, id: Seq<char>|
            now.wf() && outcome_of(r) == #[trigger] admission(
                request,
                rfc3339_parts(request.target_time@),
                now,
                id,
            ) && final(registry)@ == entered(
                old(registry)@,
                admission(request, rfc3339_parts(request.target_time@), now, id),
            ),
        r matches Ok(info) ==> info.wf(),
{
    let parsed = parse_rfc3339(request.target_time.as_str());
    let now = present();
    let id = fresh_id();
    let ghost id_text = id@;
    let ghost text = request.target_time@;
    let r = admit_timer(registry, request, parsed, now, id);
    assert(outcome_of(r) == admission(request, rfc3339_parts(text), now, id_text));
    r
}

/// All live timers in ascending order of target time.
pub fn list_timers(registry: &TimerRegistry) -> (r: Vec<TimerInfo>)
    requires
        registry.wf(),
    ensures
        lists(registry@, records_of(r@)),
        r.len() == registry@.dom().len(),
        forall|i: int| 0 <= i < r.len() ==> (#[trigger] r[i]).wf(),
{
    registry.snapshot()
}

/// Cancels the timer with this id: takes it out of the registry. Tells
/// whether there was such a timer; only then is there a loop to signal and a
/// change to write to the store.
pub fn cancel_timer(registry: &mut TimerRegistry, id: &str) -> (found: bool)
    requires
        old(registry).wf(),
    ensures
        final(registry).wf(),
        found == old(registry)@.contains_key(id@),
        final(registry)@ == old(registry)@.remove(id@),
{
    registry.remove(id)
}

/// Once a timer has been cancelled, no listing shows its id, and every other
/// timer is listed as before.
pub proof fn law_cancel_removes_only_that_timer(
    before: Map<Seq<char>, TimerRecord>,
    id: Seq<char>,
    listing: Seq<TimerRecord>,
)
    requires
        lists(before.remove(id), listing),
    ensures
        forall|i: int| 0 <= i < listing.len() ==> (#[trigger] listing[i]).id != id,
        forall|other: Seq<char>|
            other != id && #[trigger] before.contains_key(other) ==> occurs_in(
                listing,
                before[other],
            ),
{
    assert forall|other: Seq<char>| other != id && #[trigger] before.contains_key(
        other,
    ) implies occurs_in(listing, before[other]) by {
        assert(before.remove(id).contains_key(other));
        let i = choose|i: int| 0 <= i < listing.len() && (#[trigger] listing[i]).id == other;
        assert(before.remove(id)[listing[i].id] == listing[i]);
        assert(listing[i] == before[other]);
    }
}

/// A request whose target time is no timestamp is turned down as such, one
/// whose target time is not after the present as that, and neither changes
/// the registry.
pub proof fn law_rejected_request_changes_nothing(
    before: Map<Seq<char>, TimerRecord>,
    request: CreateTimerRequest,
    parsed: Option<(i64, u32)>,
    now: Instant,
    id: Seq<char>,
)
    requires
        admission(request, parsed, now, id) is Err,
    ensures
        entered(before, admission(request, parsed, now, id)) == before,
{
}

/// An admitted timer has a target strictly after the present, the present as
/// its time of creation, a valid recurrence, and, if it is a popup, a message
/// that is not blank.
pub proof fn law_admitted_timer_is_valid(
    request: CreateTimerRequest,
    parsed: Option<(i64, u32)>,
    now: Instant,
    id: Seq<char>,
)
    requires
        admission(request, parsed, now, id) is Ok,
    ensures
        ({
            let record = admission(request, parsed, now, id).unwrap();
            &&& record.id == id
            &&& record.target_time@ > now@
            &&& record.created_at == now
            &&& recurrence_verdict(record.recurrence) is Ok
            &&& record.action == TimerAction::Popup ==> !is_blank(text_of(request.message))
        }),
{
}

} // verus!
