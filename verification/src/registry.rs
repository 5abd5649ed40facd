//! The registry of live timers: at most one record per id, kept in the order
//! in which the timers are due.

use vstd::prelude::*;
use crate::instant::Instant;
use crate::timer::{TimerInfo, TimerRecord};

verus! {

/// The live timers. To its users it is a map from id to record; inside, the
/// records stand in ascending order of target time.
pub struct TimerRegistry {
    timers: Vec<TimerInfo>,
}

/// No two records of `s` share an id.
pub open spec fn ids_distinct(s: Seq<TimerRecord>) -> bool {
    forall|i: int, j: int| 0 <= i < j < s.len() ==> (#[trigger] s[i]).id != (#[trigger] s[j]).id
}

/// The records of `s` stand in ascending order of target time.
pub open spec fn due_order(s: Seq<TimerRecord>) -> bool {
    forall|i: int, j: int|
        0 <= i < j < s.len() ==> (#[trigger] s[i]).target_time@ <= (#[trigger] s[j]).target_time@
}

/// `s` lists the records of `m`: each record of the map once, nothing else,
/// in ascending order of target time.
pub open spec fn lists(m: Map<Seq<char>, TimerRecord>, s: Seq<TimerRecord>) -> bool {
    &&& ids_distinct(s)
    &&& due_order(s)
    &&& forall|i: int| 0 <= i < s.len() ==> m.contains_key((#[trigger] s[i]).id) && m[s[i].id] == s[i]
    &&& forall|id: Seq<char>| #[trigger]
        m.contains_key(id) ==> exists|i: int| 0 <= i < s.len() && (#[trigger] s[i]).id == id
}

/// The contents of a vector of records.
pub open spec fn records_of(v: Seq<TimerInfo>) -> Seq<TimerRecord> {
    Seq::new(v.len(), |i: int| v[i]@)
}

/// Whether a record stands in a listing.
pub open spec fn occurs_in(s: Seq<TimerRecord>, record: TimerRecord) -> bool {
    exists|j: int| 0 <= j < s.len() && #[trigger] s[j] == record
}

/// Two listings of one registry hold the same records: whatever is found in
/// one is found in the other, under the same id and with the same content.
pub proof fn law_listings_agree(
    m: Map<Seq<char>, TimerRecord>,
    a: Seq<TimerRecord>,
    b: Seq<TimerRecord>,
)
    requires
        lists(m, a),
        lists(m, b),
    ensures
        forall|i: int| 0 <= i < a.len() ==> occurs_in(b, #[trigger] a[i]),
{
    assert forall|i: int| 0 <= i < a.len() implies occurs_in(b, #[trigger] a[i]) by {
        assert(m.contains_key(a[i].id) && m[a[i].id] == a[i]);
        let j = choose|j: int| 0 <= j < b.len() && (#[trigger] b[j]).id == a[i].id;
        assert(m[b[j].id] == b[j]);
        assert(b[j] == a[i]);
    }
}

spec fn has_id(s: Seq<TimerRecord>, id: Seq<char>) -> bool {
    exists|i: int| 0 <= i < s.len() && (#[trigger] s[i]).id == id
}

spec fn index_of(s: Seq<TimerRecord>, id: Seq<char>) -> int {
    choose|i: int| 0 <= i < s.len() && (#[trigger] s[i]).id == id
}

spec fn map_of(s: Seq<TimerRecord>) -> Map<Seq<char>, TimerRecord> {
    Map::new(|id: Seq<char>| has_id(s, id), |id: Seq<char>| s[index_of(s, id)])
}

proof fn lemma_index_unique(s: Seq<TimerRecord>, i: int)
    requires
        ids_distinct(s),
        0 <= i < s.len(),
    ensures
        has_id(s, s[i].id),
        index_of(s, s[i].id) == i,
        map_of(s).contains_key(s[i].id),
        map_of(s)[s[i].id] == s[i],
{
    let j = index_of(s, s[i].id);
    assert(0 <= j < s.len() && s[j].id == s[i].id);
    if j < i {
        assert(s[j].id != s[i].id);
    } else if i < j {
        assert(s[i].id != s[j].id);
    }
}

proof fn lemma_lists_own_map(s: Seq<TimerRecord>)
    requires
        ids_distinct(s),
        due_order(s),
    ensures
        lists(map_of(s), s),
{
    assert forall|i: int| 0 <= i < s.len() implies map_of(s).contains_key((#[trigger] s[i]).id)
        && map_of(s)[s[i].id] == s[i] by {
        lemma_index_unique(s, i);
    }
    assert forall|id: Seq<char>| #[trigger] map_of(s).contains_key(id) implies exists|i: int|
        0 <= i < s.len() && (#[trigger] s[i]).id == id by {
        assert(has_id(s, id));
    }
}

proof fn lemma_remove(s: Seq<TimerRecord>, i: int)
    requires
        ids_distinct(s),
        due_order(s),
        0 <= i < s.len(),
    ensures
        ids_distinct(s.remove(i)),
        due_order(s.remove(i)),
        !has_id(s.remove(i), s[i].id),
        map_of(s.remove(i)) == map_of(s).remove(s[i].id),
{
    let t = s.remove(i);
    assert forall|a: int| 0 <= a < t.len() implies #[trigger] t[a] == s[if a < i { a } else { a + 1 }] by {}
    assert forall|a: int, b: int| 0 <= a < b < t.len() implies (#[trigger] t[a]).id != (
    #[trigger] t[b]).id by {
        let a2 = if a < i { a } else { a + 1 };
        let b2 = if b < i { b } else { b + 1 };
        assert(s[a2].id != s[b2].id);
    }
    assert forall|a: int, b: int| 0 <= a < b < t.len() implies (#[trigger] t[a]).target_time@ <= (
    #[trigger] t[b]).target_time@ by {
        let a2 = if a < i { a } else { a + 1 };
        let b2 = if b < i { b } else { b + 1 };
        assert(s[a2].target_time@ <= s[b2].target_time@);
    }
    if has_id(t, s[i].id) {
        let a = index_of(t, s[i].id);
        let a2 = if a < i { a } else { a + 1 };
        assert(t[a] == s[a2]);
        if a2 < i {
            assert(s[a2].id != s[i].id);
        } else {
            assert(s[i].id != s[a2].id);
        }
    }
    assert forall|id: Seq<char>| map_of(t).contains_key(id) == map_of(s).remove(
        s[i].id,
    ).contains_key(id) by {
        if has_id(t, id) {
            let a = index_of(t, id);
            let a2 = if a < i { a } else { a + 1 };
            assert(s[a2].id == id);
        }
        if has_id(s, id) && id != s[i].id {
            let b = index_of(s, id);
            let b2 = if b < i { b } else { b - 1 };
            assert(t[b2] == s[b]);
            assert(t[b2].id == id);
        }
    }
    assert forall|id: Seq<char>| map_of(t).contains_key(id) implies map_of(t)[id] == map_of(
        s,
    ).remove(s[i].id)[id] by {
        let a = index_of(t, id);
        let a2 = if a < i { a } else { a + 1 };
        assert(t[a] == s[a2]);
        lemma_index_unique(s, a2);
    }
    assert(map_of(t) =~= map_of(s).remove(s[i].id));
}

proof fn lemma_map_size(s: Seq<TimerRecord>)
    requires
        ids_distinct(s),
        due_order(s),
    ensures
        map_of(s).dom().finite(),
        map_of(s).dom().len() == s.len(),
    decreases s.len(),
{
    if s.len() == 0 {
        assert(map_of(s).dom() =~= Set::<Seq<char>>::empty());
    } else {
        let i = s.len() - 1;
        let t = s.remove(i);
        lemma_remove(s, i);
        lemma_map_size(t);
        lemma_index_unique(s, i);
        assert(!map_of(t).dom().contains(s[i].id));
        assert(map_of(s).dom() =~= map_of(t).dom().insert(s[i].id));
    }
}

proof fn lemma_insert(s: Seq<TimerRecord>, p: int, x: TimerRecord)
    requires
        ids_distinct(s),
        due_order(s),
        !has_id(s, x.id),
        0 <= p <= s.len(),
        forall|j: int| 0 <= j < p ==> (#[trigger] s[j]).target_time@ <= x.target_time@,
        forall|j: int| p <= j < s.len() ==> x.target_time@ <= (#[trigger] s[j]).target_time@,
    ensures
        ids_distinct(s.insert(p, x)),
        due_order(s.insert(p, x)),
        map_of(s.insert(p, x)) == map_of(s).insert(x.id, x),
{
    let t = s.insert(p, x);
    assert forall|a: int| 0 <= a < t.len() && a != p implies #[trigger] t[a] == s[if a < p {
        a
    } else {
        a - 1
    }] by {}
    assert(t[p] == x);
    assert forall|a: int| 0 <= a < s.len() implies (#[trigger] s[a]).id != x.id by {
        if s[a].id == x.id {
            assert(has_id(s, x.id));
        }
    }
    assert forall|a: int, b: int| 0 <= a < b < t.len() implies (#[trigger] t[a]).id != (
    #[trigger] t[b]).id by {
        let a2 = if a < p { a } else { a - 1 };
        let b2 = if b < p { b } else { b - 1 };
        if a == p {
            assert(s[b2].id != x.id);
        } else if b == p {
            assert(s[a2].id != x.id);
        } else {
            assert(s[a2].id != s[b2].id);
        }
    }
    assert forall|a: int, b: int| 0 <= a < b < t.len() implies (#[trigger] t[a]).target_time@ <= (
    #[trigger] t[b]).target_time@ by {
        let a2 = if a < p { a } else { a - 1 };
        let b2 = if b < p { b } else { b - 1 };
        if a == p {
            assert(x.target_time@ <= s[b2].target_time@);
        } else if b == p {
            assert(s[a2].target_time@ <= x.target_time@);
        } else {
            assert(s[a2].target_time@ <= s[b2].target_time@);
        }
    }
    assert forall|id: Seq<char>| map_of(t).contains_key(id) == map_of(s).insert(
        x.id,
        x,
    ).contains_key(id) by {
        if has_id(t, id) {
            let a = index_of(t, id);
            if a != p {
                let a2 = if a < p { a } else { a - 1 };
                assert(s[a2].id == id);
            }
        }
        if has_id(s, id) {
            let b = index_of(s, id);
            let b2 = if b < p { b } else { b + 1 };
            assert(t[b2] == s[b]);
            assert(t[b2].id == id);
        }
        if id == x.id {
            assert(t[p].id == id);
        }
    }
    assert forall|id: Seq<char>| map_of(t).contains_key(id) implies map_of(t)[id] == map_of(
        s,
    ).insert(x.id, x)[id] by {
        let a = index_of(t, id);
        lemma_index_unique(t, a);
        if a != p {
            let a2 = if a < p { a } else { a - 1 };
            assert(t[a] == s[a2]);
            lemma_index_unique(s, a2);
        }
    }
    assert(map_of(t) =~= map_of(s).insert(x.id, x));
}

impl View for TimerRegistry {
    type V = Map<Seq<char>, TimerRecord>;

    /// The registry as a map from id to record.
    closed spec fn view(&self) -> Map<Seq<char>, TimerRecord> {
        map_of(records_of(self.timers@))
    }
}

impl TimerRegistry {
    /// The registry holds well-formed records, one per id, in the order in
    /// which they are due.
    pub closed spec fn wf(self) -> bool {
        &&& ids_distinct(records_of(self.timers@))
        &&& due_order(records_of(self.timers@))
        &&& forall|i: int| 0 <= i < self.timers.len() ==> (#[trigger] self.timers[i]).wf()
    }

    /// Every record of a well-formed registry is well formed.
    pub proof fn lemma_records_wf(self, id: Seq<char>)
        requires
            self.wf(),
            self@.contains_key(id),
        ensures
            self@[id].target_time.wf(),
            self@[id].created_at.wf(),
            self@[id].id == id,
    {
        let s = records_of(self.timers@);
        let i = index_of(s, id);
        assert(has_id(s, id));
        assert(s[i] == self.timers[i]@);
        assert(self.timers[i].wf());
    }

    /// A registry without timers.
    pub fn new() -> (r: TimerRegistry)
        ensures
            r.wf(),
            r@ == Map::<Seq<char>, TimerRecord>::empty(),
    {
        let r = TimerRegistry { timers: Vec::new() };
        proof {
            assert(r@ =~= Map::<Seq<char>, TimerRecord>::empty()) by {
                assert forall|id: Seq<char>| !has_id(records_of(r.timers@), id) by {}
            }
        }
        r
    }

    fn position(&self, id: &String) -> (r: Option<usize>)
        ensures
            r matches Some(i) ==> i < self.timers.len() && self.timers[i as int].id@ == id@,
            r is None ==> !has_id(records_of(self.timers@), id@),
            r is Some == has_id(records_of(self.timers@), id@),
    {
        let mut i: usize = 0;
        while i < self.timers.len()
            invariant
                i <= self.timers.len(),
                forall|j: int| 0 <= j < i ==> (#[trigger] records_of(self.timers@)[j]).id != id@,
            decreases self.timers.len() - i,
        {
            if self.timers[i].id == *id {
                assert(records_of(self.timers@)[i as int].id == id@);
                return Some(i);
            }
            i = i + 1;
        }
        None
    }

    /// Whether a timer with this id is live.
    pub fn contains(&self, id: &str) -> (r: bool)
        ensures
            r == self@.contains_key(id@),
    {
        let key = id.to_owned();
        self.position(&key).is_some()
    }

    /// The record of the timer with this id, if it is live.
    pub fn get(&self, id: &str) -> (r: Option<TimerInfo>)
        requires
            self.wf(),
        ensures
            r.is_some() == self@.contains_key(id@),
            r matches Some(info) ==> info@ == self@[id@] && info.wf(),
    {
        let key = id.to_owned();
        match self.position(&key) {
            Some(i) => {
                proof {
                    lemma_index_unique(records_of(self.timers@), i as int);
                }
                Some(self.timers[i].duplicate())
            },
            None => None,
        }
    }

    /// Adds a record, in place of the one with the same id if there is one.
    pub fn insert(&mut self, info: TimerInfo)
        requires
            old(self).wf(),
            info.wf(),
        ensures
            final(self).wf(),
            final(self)@ == old(self)@.insert(info.id@, info@),
    {
        match self.position(&info.id) {
            Some(i) => {
                proof {
                    lemma_remove(records_of(self.timers@), i as int);
                    assert(records_of(self.timers@.remove(i as int)) =~= records_of(
                        self.timers@,
                    ).remove(i as int));
                }
                let _ = self.timers.remove(i);
            },
            None => {},
        }
        let ghost mid = records_of(self.timers@);
        assert(map_of(mid).insert(info.id@, info@) =~= old(self)@.insert(info.id@, info@));
        let mut p: usize = 0;
        while p < self.timers.len() && !self.timers[p].target_time.is_after(&info.target_time)
            invariant
                p <= self.timers.len(),
                info.wf(),
                forall|j: int| 0 <= j < self.timers.len() ==> (#[trigger] self.timers[j]).wf(),
                forall|j: int|
                    0 <= j < p ==> (#[trigger] records_of(self.timers@)[j]).target_time@
                        <= info.target_time@,
            decreases self.timers.len() - p,
        {
            p = p + 1;
        }
        proof {
            assert forall|j: int| p <= j < mid.len() implies info.target_time@ <= (
            #[trigger] mid[j]).target_time@ by {
                assert(mid[p as int].target_time@ <= mid[j].target_time@);
            }
            lemma_insert(mid, p as int, info@);
            assert(records_of(self.timers@.insert(p as int, info)) =~= mid.insert(
                p as int,
                info@,
            ));
        }
        self.timers.insert(p, info);
    }

    /// Takes the timer with this id out and hands its record back; `None`,
    /// and no change, where no such timer is live.
    pub fn take(&mut self, id: &str) -> (r: Option<TimerInfo>)
        requires
            old(self).wf(),
        ensures
            final(self).wf(),
            r.is_some() == old(self)@.contains_key(id@),
            r matches Some(info) ==> info@ == old(self)@[id@] && info.wf(),
            final(self)@ == old(self)@.remove(id@),
    {
        let key = id.to_owned();
        match self.position(&key) {
            Some(i) => {
                proof {
                    lemma_index_unique(records_of(self.timers@), i as int);
                    lemma_remove(records_of(self.timers@), i as int);
                    assert(records_of(self.timers@.remove(i as int)) =~= records_of(
                        self.timers@,
                    ).remove(i as int));
                }
                Some(self.timers.remove(i))
            },
            None => {
                assert(self@.remove(id@) =~= self@);
                None
            },
        }
    }

    /// Removes the timer with this id; tells whether there was one.
    pub fn remove(&mut self, id: &str) -> (found: bool)
        requires
            old(self).wf(),
        ensures
            final(self).wf(),
            found == old(self)@.contains_key(id@),
            final(self)@ == old(self)@.remove(id@),
    {
        self.take(id).is_some()
    }

    /// Gives the timer with this id a new target time; tells whether there
    /// was such a timer. Without one nothing changes.
    pub fn update(&mut self, id: &str, new_target: Instant) -> (found: bool)
        requires
            old(self).wf(),
            new_target.wf(),
        ensures
            final(self).wf(),
            found == old(self)@.contains_key(id@),
            found ==> final(self)@ == old(self)@.insert(
                id@,
                old(self)@[id@].retargeted(new_target),
            ),
            !found ==> final(self)@ == old(self)@,
    {
        match self.take(id) {
            Some(info) => {
                let ghost before = info@;
                let mut info = info;
                info.target_time = new_target;
                proof {
                    old(self).lemma_records_wf(id@);
                    assert(info@ == before.retargeted(new_target));
                    assert(old(self)@.remove(id@).insert(id@, info@) =~= old(self)@.insert(
                        id@,
                        info@,
                    ));
                }
                self.insert(info);
                true
            },
            None => {
                assert(old(self)@.remove(id@) =~= old(self)@);
                false
            },
        }
    }

    /// How many timers are live.
    pub fn len(&self) -> (n: usize)
        requires
            self.wf(),
        ensures
            self@.dom().finite(),
            n == self@.dom().len(),
    {
        proof {
            lemma_map_size(records_of(self.timers@));
        }
        self.timers.len()
    }

    /// All live records in ascending order of target time.
    pub fn snapshot(&self) -> (r: Vec<TimerInfo>)
        requires
            self.wf(),
        ensures
            lists(self@, records_of(r@)),
            r.len() == self@.dom().len(),
            forall|i: int| 0 <= i < r.len() ==> (#[trigger] r[i]).wf(),
    {
        let mut out: Vec<TimerInfo> = Vec::new();
        let mut i: usize = 0;
        while i < self.timers.len()
            invariant
                i <= self.timers.len(),
                out.len() == i,
                self.wf(),
                forall|j: int| 0 <= j < i ==> (#[trigger] out[j])@ == self.timers[j]@ && out[j].wf(),
            decreases self.timers.len() - i,
        {
            out.push(self.timers[i].duplicate());
            i = i + 1;
        }
        proof {
            assert(records_of(out@) =~= records_of(self.timers@));
            lemma_lists_own_map(records_of(self.timers@));
            lemma_map_size(records_of(self.timers@));
        }
        out
    }
}

} // verus!
