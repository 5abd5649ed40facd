//! Recurrence rules and the next occurrence of a recurring timer.

use vstd::prelude::*;
use crate::error::ValidationError;
use crate::instant::{is_working_day, Instant};

verus! {

/// How a timer repeats.
#[derive(Clone, Copy, Debug, PartialEq, Eq)]
pub enum RecurrencePreset {
    Daily,
    Weekdays,
    EveryNHours,
    EveryNMinutes,
}

/// A recurrence rule: the preset and, for the interval presets, the interval.
#[derive(Clone, Copy, Debug, PartialEq, Eq)]
pub struct RecurrenceConfig {
    pub preset: RecurrencePreset,
    pub interval_hours: Option<u32>,
    pub interval_minutes: Option<u32>,
}

/// Candidate days that a weekday recurrence looks at before it gives up.
pub const WEEKDAY_SEARCH_DAYS: u8 = 14;

/// The verdict on a recurrence rule: an interval preset needs its interval,
/// 1 to 24 hours or 1 to 1440 minutes; no rule, `Daily` and `Weekdays` pass.
pub open spec fn recurrence_verdict(recurrence: Option<RecurrenceConfig>) -> Result<
    (),
    ValidationError,
> {
    match recurrence {
        None => Ok(()),
        Some(rule) => match rule.preset {
            RecurrencePreset::Daily | RecurrencePreset::Weekdays => Ok(()),
            RecurrencePreset::EveryNHours => match rule.interval_hours {
                None => Err(ValidationError::HoursIntervalMissing),
                Some(h) => if 1 <= h <= 24 {
                    Ok(())
                } else {
                    Err(ValidationError::HoursIntervalOutOfRange)
                },
            },
            RecurrencePreset::EveryNMinutes => match rule.interval_minutes {
                None => Err(ValidationError::MinutesIntervalMissing),
                Some(m) => if 1 <= m <= 1440 {
                    Ok(())
                } else {
                    Err(ValidationError::MinutesIntervalOutOfRange)
                },
            },
        },
    }
}

/// Checks a recurrence rule at the boundary.
pub fn validate_recurrence(recurrence: Option<&RecurrenceConfig>) -> (r: Result<
    (),
    ValidationError,
>)
    ensures
        r == recurrence_verdict(
            match recurrence {
                Some(rule) => Some(*rule),
                None => None,
            },
        ),
{
    let rule = match recurrence {
        Some(rule) => rule,
        None => {
            return Ok(());
        },
    };
    match rule.preset {
        RecurrencePreset::Daily | RecurrencePreset::Weekdays => Ok(()),
        RecurrencePreset::EveryNHours => {
            match rule.interval_hours {
                None => Err(ValidationError::HoursIntervalMissing),
                Some(hours) => if 1 <= hours && hours <= 24 {
                    Ok(())
                } else {
                    Err(ValidationError::HoursIntervalOutOfRange)
                },
            }
        },
        RecurrencePreset::EveryNMinutes => {
            match rule.interval_minutes {
                None => Err(ValidationError::MinutesIntervalMissing),
                Some(minutes) => if 1 <= minutes && minutes <= 1440 {
                    Ok(())
                } else {
                    Err(ValidationError::MinutesIntervalOutOfRange)
                },
            }
        },
    }
}

/// Seconds between two candidates of a rule: a day for `Daily` and for
/// `Weekdays`, the interval for the interval presets; `None` where an interval
/// preset names none.
pub open spec fn step_seconds(rule: RecurrenceConfig) -> Option<int> {
    match rule.preset {
        RecurrencePreset::Daily | RecurrencePreset::Weekdays => Some(86_400int),
        RecurrencePreset::EveryNHours => match rule.interval_hours {
            Some(h) => Some(h * 3_600),
            None => None,
        },
        RecurrencePreset::EveryNMinutes => match rule.interval_minutes {
            Some(m) => Some(m * 60),
            None => None,
        },
    }
}

/// Second count of the `k`-th candidate after `previous`.
pub open spec fn candidate_secs(previous: Instant, step: int, k: int) -> int {
    previous.secs + k * step
}

/// The `k`-th candidate after `previous` as nanoseconds since the epoch: it
/// keeps the fraction of a second, and so the time of day, of `previous`.
pub open spec fn candidate_at(previous: Instant, step: int, k: int) -> int {
    candidate_secs(previous, step, k) * 1_000_000_000 + previous.nanos
}

/// The `k`-th candidate may be the next occurrence: it lies strictly after
/// `now` and, for `Weekdays`, is one of the first fourteen days and falls on a
/// Monday to Friday.
pub open spec fn accepted(previous: Instant, rule: RecurrenceConfig, now: Instant, k: int) -> bool {
    &&& k >= 1
    &&& step_seconds(rule) matches Some(step)
    &&& candidate_at(previous, step, k) > now@
    &&& rule.preset == RecurrencePreset::Weekdays ==> k <= WEEKDAY_SEARCH_DAYS && is_working_day(
        candidate_secs(previous, step, k),
    )
}

/// The `k`-th candidate is accepted and none before it is.
pub open spec fn first_accepted(
    previous: Instant,
    rule: RecurrenceConfig,
    now: Instant,
    k: int,
) -> bool {
    &&& accepted(previous, rule, now, k)
    &&& forall|i: int| 1 <= i < k ==> !#[trigger] accepted(previous, rule, now, i)
}

/// `next` is what the rule yields after `previous` at time `now`: the first
/// accepted candidate, or nothing where the rule lacks its interval, where no
/// candidate is accepted, or where the first accepted one lies beyond the
/// seconds that an instant can count.
pub open spec fn is_next_run(
    previous: Instant,
    rule: RecurrenceConfig,
    now: Instant,
    next: Option<Instant>,
) -> bool {
    match step_seconds(rule) {
        None => next.is_none(),
        Some(step) => match next {
            Some(t) => t.nanos == previous.nanos && exists|k: int|
                #[trigger] first_accepted(previous, rule, now, k) && t.secs == candidate_secs(
                    previous,
                    step,
                    k,
                ),
            None => forall|k: int| #[trigger]
                first_accepted(previous, rule, now, k) ==> candidate_secs(previous, step, k)
                    > i64::MAX,
        },
    }
}

/// The step of a rule in seconds; `None` where an interval preset names none.
pub fn step_of(rule: &RecurrenceConfig) -> (r: Option<i64>)
    ensures
        r.is_some() == step_seconds(*rule).is_some(),
        r matches Some(s) ==> step_seconds(*rule) == Some(s as int) && 0 <= s,
{
    match rule.preset {
        RecurrencePreset::Daily | RecurrencePreset::Weekdays => Some(86_400),
        RecurrencePreset::EveryNHours => match rule.interval_hours {
            Some(h) => Some((h as i64) * 3_600),
            None => None,
        },
        RecurrencePreset::EveryNMinutes => match rule.interval_minutes {
            Some(m) => Some((m as i64) * 60),
            None => None,
        },
    }
}

proof fn lemma_later_candidates_overflow(previous: Instant, step: int, k: int, j: int)
    requires
        step >= 0,
        j >= k,
        candidate_secs(previous, step, k) > i64::MAX,
    ensures
        candidate_secs(previous, step, j) > i64::MAX,
{
    assert(j * step >= k * step) by (nonlinear_arith)
        requires
            step >= 0,
            j >= k,
    ;
}

/// The next occurrence under a rule after `previous`, seen at time `now`: the
/// one value that `is_next_run` admits.
pub open spec fn next_run(previous: Instant, rule: RecurrenceConfig, now: Instant) -> Option<
    Instant,
> {
    choose|next: Option<Instant>| is_next_run(previous, rule, now, next)
}

/// The next occurrence of a recurring timer whose last one was
/// `current_target`, seen at time `now`. Occurrences that `now` has passed are
/// skipped, so that the result, if any, is strictly in the future.
pub fn compute_next_run(current_target: Instant, recurrence: &RecurrenceConfig, now: Instant) -> (r:
    Option<Instant>)
    requires
        current_target.wf(),
        now.wf(),
    ensures
        r == next_run(current_target, *recurrence, now),
        is_next_run(current_target, *recurrence, now, r),
        r matches Some(t) ==> t.wf() && t@ > now@ && t@ >= current_target@,
{
    let r = search_next_run(current_target, recurrence, now);
    proof {
        law_next_run_is_determined(
            current_target,
            *recurrence,
            now,
            r,
            next_run(current_target, *recurrence, now),
        );
    }
    r
}

fn search_next_run(current_target: Instant, recurrence: &RecurrenceConfig, now: Instant) -> (r:
    Option<Instant>)
    requires
        current_target.wf(),
        now.wf(),
    ensures
        is_next_run(current_target, *recurrence, now, r),
        r matches Some(t) ==> t.wf() && t@ > now@ && t@ >= current_target@,
{
    let step: i64 = match step_of(recurrence) {
        Some(s) => s,
        None => {
            return None;
        },
    };
    let weekdays_only: bool = match recurrence.preset {
        RecurrencePreset::Weekdays => true,
        _ => false,
    };
    let ghost mut k: int = 1;
    let mut day: u8 = 1;
    let mut prior: Instant = current_target;
    loop
        invariant
            1 <= k,
            1 <= day <= WEEKDAY_SEARCH_DAYS + 1,
            weekdays_only ==> k == day,
            current_target.wf(),
            now.wf(),
            prior.wf(),
            step >= 0,
            step_seconds(*recurrence) == Some(step as int),
            weekdays_only == (recurrence.preset == RecurrencePreset::Weekdays),
            prior.nanos == current_target.nanos,
            prior.secs == candidate_secs(current_target, step as int, k - 1),
            !weekdays_only && k > 1 ==> prior@ <= now@,
            forall|i: int| 1 <= i < k ==> !#[trigger] accepted(current_target, *recurrence, now, i),
        decreases
            if weekdays_only { WEEKDAY_SEARCH_DAYS + 1 - day } else { now.secs - prior.secs + 1 },
    {
        if weekdays_only && day > WEEKDAY_SEARCH_DAYS {
            return None;
        }
        assert(candidate_secs(current_target, step as int, k) == prior.secs + step)
            by (nonlinear_arith)
            requires
                prior.secs == candidate_secs(current_target, step as int, k - 1),
        ;
        let next: Instant = match prior.plus_seconds(step) {
            Some(t) => t,
            None => {
                proof {
                    assert forall|j: int| #[trigger]
                        first_accepted(current_target, *recurrence, now, j) implies candidate_secs(
                        current_target,
                        step as int,
                        j,
                    ) > i64::MAX by {
                        if j < k {
                            assert(!accepted(current_target, *recurrence, now, j));
                        }
                        lemma_later_candidates_overflow(current_target, step as int, k, j);
                    }
                }
                return None;
            },
        };
        if next.is_after(&now) && (!weekdays_only || next.on_working_day()) {
            proof {
                assert(accepted(current_target, *recurrence, now, k));
                assert(first_accepted(current_target, *recurrence, now, k));
            }
            return Some(next);
        }
        if !weekdays_only && step == 0 {
            proof {
                assert forall|j: int| !#[trigger] accepted(
                    current_target,
                    *recurrence,
                    now,
                    j,
                ) by {
                    assert(j * 0 == 0);
                    assert(candidate_secs(current_target, 0, j) == current_target.secs);
                }
            }
            return None;
        }
        assert(!accepted(current_target, *recurrence, now, k));
        prior = next;
        if weekdays_only {
            day = day + 1;
        }
        proof {
            k = k + 1;
        }
    }
}

/// The instant `k` whole days after `previous`, in nanoseconds since the epoch.
pub open spec fn whole_days_after(previous: Instant, k: int) -> int {
    previous@ + k * 86_400_000_000_000
}

/// The next occurrence is a function of the last one, the rule and the
/// present: two results for the same three are the same result.
pub proof fn law_next_run_is_determined(
    previous: Instant,
    rule: RecurrenceConfig,
    now: Instant,
    a: Option<Instant>,
    b: Option<Instant>,
)
    requires
        is_next_run(previous, rule, now, a),
        is_next_run(previous, rule, now, b),
    ensures
        a == b,
{
    if let Some(step) = step_seconds(rule) {
        if let Some(ta) = a {
            let ka = choose|k: int| #[trigger]
                first_accepted(previous, rule, now, k) && ta.secs == candidate_secs(
                    previous,
                    step,
                    k,
                );
            if let Some(tb) = b {
                let kb = choose|k: int| #[trigger]
                    first_accepted(previous, rule, now, k) && tb.secs == candidate_secs(
                        previous,
                        step,
                        k,
                    );
                if ka < kb {
                    assert(accepted(previous, rule, now, ka));
                } else if kb < ka {
                    assert(accepted(previous, rule, now, kb));
                }
                assert(ta == tb);
            } else {
                assert(candidate_secs(previous, step, ka) > i64::MAX);
            }
        } else if let Some(tb) = b {
            let kb = choose|k: int| #[trigger]
                first_accepted(previous, rule, now, k) && tb.secs == candidate_secs(
                    previous,
                    step,
                    k,
                );
            assert(candidate_secs(previous, step, kb) > i64::MAX);
        }
    }
}

/// After a daily timer has fired, its new target lies a whole number of days,
/// at least one, after the old target and strictly after the present, and
/// every whole-day step before it is skipped: none of them lies after the
/// present.
pub proof fn law_daily_skips_whole_days(
    previous: Instant,
    rule: RecurrenceConfig,
    now: Instant,
    next: Instant,
)
    requires
        rule.preset == RecurrencePreset::Daily,
        is_next_run(previous, rule, now, Some(next)),
    ensures
        next@ > now@,
        exists|k: int|
            k >= 1 && next@ == #[trigger] whole_days_after(previous, k) && forall|i: int|
                1 <= i < k ==> #[trigger] whole_days_after(previous, i) <= now@,
{
    let k = choose|k: int| #[trigger]
        first_accepted(previous, rule, now, k) && next.secs == candidate_secs(
            previous,
            86_400,
            k,
        );
    assert(accepted(previous, rule, now, k));
    assert(candidate_at(previous, 86_400, k) == whole_days_after(previous, k));
    assert forall|i: int| 1 <= i < k implies #[trigger] whole_days_after(previous, i) <= now@ by {
        assert(!accepted(previous, rule, now, i));
        assert(candidate_at(previous, 86_400, i) == whole_days_after(previous, i));
    }
    assert(next@ == whole_days_after(previous, k));
}

/// A weekday timer's next occurrence keeps the time of day of the last one,
/// falls on a Monday to Friday at most fourteen days later, and lies strictly
/// after the present.
pub proof fn law_weekdays_keep_time_of_day(
    previous: Instant,
    rule: RecurrenceConfig,
    now: Instant,
    next: Instant,
)
    requires
        rule.preset == RecurrencePreset::Weekdays,
        is_next_run(previous, rule, now, Some(next)),
    ensures
        next@ > now@,
        is_working_day(next.secs as int),
        exists|k: int| 1 <= k <= 14 && next@ == #[trigger] whole_days_after(previous, k),
{
    let k = choose|k: int| #[trigger]
        first_accepted(previous, rule, now, k) && next.secs == candidate_secs(
            previous,
            86_400,
            k,
        );
    assert(accepted(previous, rule, now, k));
    assert(candidate_at(previous, 86_400, k) == whole_days_after(previous, k));
    assert(next@ == whole_days_after(previous, k));
}

/// Every last occurrence, rule and present have a next occurrence in the
/// sense of `is_next_run`, be it none; so `next_run` is that one.
pub proof fn law_next_run_exists(previous: Instant, rule: RecurrenceConfig, now: Instant)
    ensures
        is_next_run(previous, rule, now, next_run(previous, rule, now)),
{
    match step_seconds(rule) {
        None => {
            assert(is_next_run(previous, rule, now, None));
        },
        Some(step) => {
            if exists|k: int| first_accepted(previous, rule, now, k) {
                let k = choose|k: int| first_accepted(previous, rule, now, k);
                assert(accepted(previous, rule, now, k));
                assert(k * step >= 0) by (nonlinear_arith)
                    requires
                        k >= 1,
                        step >= 0,
                ;
                if candidate_secs(previous, step, k) <= i64::MAX {
                    let t = Instant {
                        secs: candidate_secs(previous, step, k) as i64,
                        nanos: previous.nanos,
                    };
                    assert(first_accepted(previous, rule, now, k) && t.secs == candidate_secs(
                        previous,
                        step,
                        k,
                    ));
                    assert(is_next_run(previous, rule, now, Some(t)));
                } else {
                    assert forall|j: int| #[trigger]
                        first_accepted(previous, rule, now, j) implies candidate_secs(
                        previous,
                        step,
                        j,
                    ) > i64::MAX by {
                        if j < k {
                            assert(accepted(previous, rule, now, j));
                        } else if k < j {
                            assert(accepted(previous, rule, now, k));
                        }
                    }
                    assert(is_next_run(previous, rule, now, None));
                }
            } else {
                assert(is_next_run(previous, rule, now, None));
            }
        },
    }
}

/// Catch-up: a next occurrence lies strictly after the present, however
/// many occurrences the present has passed, and keeps the fraction of a
/// second of the last one.
pub proof fn law_next_run_is_in_the_future(
    previous: Instant,
    rule: RecurrenceConfig,
    now: Instant,
)
    requires
        previous.wf(),
    ensures
        next_run(previous, rule, now) matches Some(t) ==> t.wf() && t@ > now@ && t.nanos
            == previous.nanos,
{
    law_next_run_exists(previous, rule, now);
    if let Some(t) = next_run(previous, rule, now) {
        let step = step_seconds(rule).unwrap();
        let k = choose|k: int| #[trigger]
            first_accepted(previous, rule, now, k) && t.secs == candidate_secs(previous, step, k);
        assert(accepted(previous, rule, now, k));
    }
}

} // verus!
