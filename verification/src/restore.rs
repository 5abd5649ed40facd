//! Recovery of a stored snapshot after a restart.

use vstd::prelude::*;
use crate::instant::Instant;
use crate::recurrence::{compute_next_run, law_next_run_is_in_the_future, next_run};
use crate::registry::{records_of, TimerRegistry};
use crate::timer::{TimerInfo, TimerRecord};

verus! {

/// What a restart makes of a stored record. One whose target is still ahead
/// is kept as it is. One whose target has passed is dropped if it does not
/// recur or if its rule yields no further occurrence; else it is moved to its
/// next occurrence.
pub open spec fn revived(record: TimerRecord, now: Instant) -> Option<TimerRecord> {
    if record.target_time@ > now@ {
        Some(record)
    } else {
        match record.recurrence {
            None => None,
            Some(rule) => match next_run(record.target_time, rule, now) {
                Some(t) => Some(record.retargeted(t)),
                None => None,
            },
        }
    }
}

/// The records that survive a restart, in the order of the snapshot.
pub open spec fn survivors(snapshot: Seq<TimerRecord>, now: Instant) -> Seq<TimerRecord>
    decreases snapshot.len(),
{
    if snapshot.len() == 0 {
        Seq::empty()
    } else {
        let earlier = survivors(snapshot.drop_last(), now);
        match revived(snapshot.last(), now) {
            Some(record) => earlier.push(record),
            None => earlier,
        }
    }
}

/// The map `m` after each record of `s` has entered it under its id, in
/// order.
pub open spec fn with_all(m: Map<Seq<char>, TimerRecord>, s: Seq<TimerRecord>) -> Map<
    Seq<char>,
    TimerRecord,
>
    decreases s.len(),
{
    if s.len() == 0 {
        m
    } else {
        with_all(m, s.drop_last()).insert(s.last().id, s.last())
    }
}

/// The outcome of a restart.
#[derive(Debug)]
pub struct Restoration {
    /// The timers that are live again, each to be given a loop of its own.
    pub started: Vec<TimerInfo>,
    /// Whether the registry is to be written to the store now: it is unless
    /// the snapshot was empty.
    pub persist: bool,
}

/// What a restart makes of one stored record.
pub fn revive(info: &TimerInfo, now: Instant) -> (r: Option<TimerInfo>)
    requires
        info.wf(),
        now.wf(),
    ensures
        match r {
            Some(live) => revived(info@, now) == Some(live@) && live.wf() && live.target_time@
                > now@,
            None => revived(info@, now).is_none(),
        },
{
    if info.target_time.is_after(&now) {
        return Some(info.duplicate());
    }
    match &info.recurrence {
        None => None,
        Some(rule) => match compute_next_run(info.target_time, rule, now) {
            Some(t) => {
                let mut live = info.duplicate();
                live.target_time = t;
                Some(live)
            },
            None => None,
        },
    }
}

/// Brings the timers of a stored snapshot back to life at time `now`: each
/// record that survives enters the registry and is handed back to be started.
pub fn restore_timers(registry: &mut TimerRegistry, restored: Vec<TimerInfo>, now: Instant) -> (r:
    Restoration)
    requires
        old(registry).wf(),
        now.wf(),
        forall|i: int| 0 <= i < restored.len() ==> (#[trigger] restored[i]).wf(),
    ensures
        final(registry).wf(),
        records_of(r.started@) == survivors(records_of(restored@), now),
        final(registry)@ == with_all(old(registry)@, records_of(r.started@)),
        forall|i: int|
            0 <= i < r.started.len() ==> (#[trigger] r.started[i]).wf() && r.started[i].target_time@
                > now@,
        r.persist == (restored.len() > 0),
{
    let mut started: Vec<TimerInfo> = Vec::new();
    let ghost snapshot = records_of(restored@);
    let mut i: usize = 0;
    proof {
        assert(snapshot.take(0) =~= Seq::<TimerRecord>::empty());
        assert(records_of(started@) =~= Seq::<TimerRecord>::empty());
    }
    while i < restored.len()
        invariant
            i <= restored.len(),
            now.wf(),
            registry.wf(),
            snapshot == records_of(restored@),
            forall|j: int| 0 <= j < restored.len() ==> (#[trigger] restored[j]).wf(),
            records_of(started@) == survivors(snapshot.take(i as int), now),
            registry@ == with_all(old(registry)@, records_of(started@)),
            forall|j: int|
                0 <= j < started.len() ==> (#[trigger] started[j]).wf() && started[j].target_time@
                    > now@,
        decreases restored.len() - i,
    {
        let ghost before = records_of(started@);
        proof {
            assert(snapshot.take(i + 1).drop_last() =~= snapshot.take(i as int));
            assert(snapshot.take(i + 1).last() == restored[i as int]@);
        }
        match revive(&restored[i], now) {
            Some(live) => {
                let entry = live.duplicate();
                registry.insert(entry);
                started.push(live);
                proof {
                    assert(records_of(started@) =~= before.push(live@));
                    assert(records_of(started@).drop_last() =~= before);
                }
            },
            None => {},
        }
        i = i + 1;
    }
    proof {
        assert(snapshot.take(restored.len() as int) =~= snapshot);
    }
    Restoration { started, persist: restored.len() > 0 }
}

/// A stored timer that does not recur and whose time has passed is not
/// brought back, however long ago its time was.
pub proof fn law_missed_one_shot_is_dropped(record: TimerRecord, now: Instant)
    requires
        record.recurrence.is_none(),
        record.target_time@ <= now@,
    ensures
        revived(record, now).is_none(),
        survivors(seq![record], now) == Seq::<TimerRecord>::empty(),
{
    assert(seq![record].drop_last() =~= Seq::<TimerRecord>::empty());
    assert(seq![record].last() == record);
    reveal_with_fuel(survivors, 3);
}

/// A stored timer whose time is still ahead comes back unchanged.
pub proof fn law_pending_timer_is_kept(record: TimerRecord, now: Instant)
    requires
        record.target_time@ > now@,
    ensures
        revived(record, now) == Some(record),
{
}

/// A snapshot whose timers are all still ahead comes back whole and in its
/// order.
pub proof fn law_pending_snapshot_is_restored_whole(snapshot: Seq<TimerRecord>, now: Instant)
    requires
        forall|i: int| 0 <= i < snapshot.len() ==> (#[trigger] snapshot[i]).target_time@ > now@,
    ensures
        survivors(snapshot, now) == snapshot,
    decreases snapshot.len(),
{
    if snapshot.len() > 0 {
        law_pending_snapshot_is_restored_whole(snapshot.drop_last(), now);
        assert(snapshot.drop_last().push(snapshot.last()) =~= snapshot);
    } else {
        assert(snapshot =~= Seq::<TimerRecord>::empty());
    }
}

/// Whatever a restart brings back is due strictly after the restart.
pub proof fn law_revived_timer_is_due_later(record: TimerRecord, now: Instant)
    requires
        record.target_time.wf(),
    ensures
        revived(record, now) matches Some(live) ==> live.target_time@ > now@ && live.id
            == record.id,
{
    if let Some(rule) = record.recurrence {
        law_next_run_is_in_the_future(record.target_time, rule, now);
    }
}

} // verus!
