//! Absolute points in time, counted from the Unix epoch in UTC.

use vstd::prelude::*;

verus! {

/// Nanoseconds in one second.
pub const NANOS_PER_SEC: u32 = 1_000_000_000;

/// Seconds in one calendar day of UTC.
pub const SECS_PER_DAY: i64 = 86_400;

/// An absolute instant: whole seconds since 1970-01-01T00:00:00Z and the
/// nanoseconds past that second.
#[derive(Clone, Copy, Debug, PartialEq, Eq, Structural)]
pub struct Instant {
    pub secs: i64,
    pub nanos: u32,
}

impl View for Instant {
    type V = int;

    /// The instant as a count of nanoseconds since the epoch.
    open spec fn view(&self) -> int {
        self.secs * 1_000_000_000 + self.nanos
    }
}

/// Day of the week of the day that holds second `secs`, Monday being 0 and
/// Sunday 6. The epoch fell on a Thursday.
pub open spec fn weekday_index(secs: int) -> int {
    (secs / 86_400 + 3) % 7
}

/// Whether second `secs` falls on a Monday to Friday.
pub open spec fn is_working_day(secs: int) -> bool {
    weekday_index(secs) < 5
}

impl Instant {
    /// The nanosecond part is a proper fraction of a second, so that the view
    /// orders instants as time does and distinct instants have distinct views.
    pub open spec fn wf(self) -> bool {
        self.nanos < NANOS_PER_SEC
    }

    /// What `from_parts` makes of a second count and a nanosecond part. A part
    /// of one second or more, which marks a leap second, is carried into the
    /// next second.
    pub open spec fn spec_from_parts(secs: i64, nanos: u32) -> Option<Instant> {
        if nanos < NANOS_PER_SEC {
            Some(Instant { secs, nanos })
        } else if nanos < 2 * NANOS_PER_SEC && secs < i64::MAX {
            Some(Instant { secs: (secs + 1) as i64, nanos: (nanos - NANOS_PER_SEC) as u32 })
        } else {
            None
        }
    }

    /// Builds an instant from a second count and a nanosecond part below two
    /// seconds; `None` where the parts denote no instant that fits.
    pub fn from_parts(secs: i64, nanos: u32) -> (r: Option<Instant>)
        ensures
            r == Self::spec_from_parts(secs, nanos),
            r matches Some(t) ==> t.wf() && t@ == secs * 1_000_000_000 + nanos,
    {
        if nanos < NANOS_PER_SEC {
            Some(Instant { secs, nanos })
        } else if nanos < 2 * NANOS_PER_SEC && secs < i64::MAX {
            Some(Instant { secs: secs + 1, nanos: nanos - NANOS_PER_SEC })
        } else {
            None
        }
    }

    /// Whole seconds since the epoch.
    pub fn seconds(&self) -> (r: i64)
        ensures
            r == self.secs,
    {
        self.secs
    }

    /// Nanoseconds past the whole second.
    pub fn subsec_nanos(&self) -> (r: u32)
        ensures
            r == self.nanos,
    {
        self.nanos
    }

    /// Strictly later than `other`.
    pub fn is_after(&self, other: &Instant) -> (r: bool)
        requires
            self.wf(),
            other.wf(),
        ensures
            r == (self@ > other@),
    {
        self.secs > other.secs || (self.secs == other.secs && self.nanos > other.nanos)
    }

    /// No later than `other`.
    pub fn is_at_or_before(&self, other: &Instant) -> (r: bool)
        requires
            self.wf(),
            other.wf(),
        ensures
            r == (self@ <= other@),
    {
        !self.is_after(other)
    }

    /// The instant `seconds` whole seconds later (earlier, if negative), with
    /// the same fraction of a second; `None` where the count of seconds would
    /// leave the range of `i64`.
    pub fn plus_seconds(&self, seconds: i64) -> (r: Option<Instant>)
        requires
            self.wf(),
        ensures
            r.is_some() == (i64::MIN <= self.secs + seconds <= i64::MAX),
            r matches Some(t) ==> t.wf() && t.nanos == self.nanos && t.secs == self.secs + seconds
                && t@ == self@ + seconds * 1_000_000_000,
    {
        match self.secs.checked_add(seconds) {
            Some(secs) => Some(Instant { secs, nanos: self.nanos }),
            None => None,
        }
    }

    /// Day of the week of this instant's UTC date, Monday being 0.
    pub fn weekday(&self) -> (r: u8)
        ensures
            r == weekday_index(self.secs as int),
            r < 7,
    {
        let days_mod: u64 = if self.secs >= 0 {
            let s: u64 = self.secs as u64;
            (s / 86_400) % 7
        } else {
            // Days before the epoch count downwards from -1.
            let back: u64 = (-(self.secs + 1)) as u64;
            let d: u64 = (back / 86_400) % 7;
            assert(self.secs as int / 86_400 == -(back as int / 86_400) - 1) by {
                lemma_floor_div_negative(self.secs as int, back as int);
            }
            6 - d
        };
        let r: u64 = (days_mod + 3) % 7;
        proof {
            lemma_weekday_shift(self.secs as int, days_mod as int);
        }
        r as u8
    }

    /// Whether this instant's UTC date is a Monday to Friday.
    pub fn on_working_day(&self) -> (r: bool)
        ensures
            r == is_working_day(self.secs as int),
    {
        self.weekday() < 5
    }
}

/// Floor division of a negative second count, by way of the non-negative
/// count `back == -(secs + 1)`.
pub proof fn lemma_floor_div_negative(secs: int, back: int)
    requires
        secs < 0,
        back == -(secs + 1),
    ensures
        secs / 86_400 == -(back / 86_400) - 1,
{
    let q = back / 86_400;
    let m = back % 86_400;
    assert(back == 86_400 * q + m && 0 <= m < 86_400) by {
        vstd::arithmetic::div_mod::lemma_fundamental_div_mod(back, 86_400);
    }
    assert(secs == 86_400 * (-q - 1) + (86_399 - m));
    vstd::arithmetic::div_mod::lemma_fundamental_div_mod_converse(
        secs,
        86_400,
        -q - 1,
        86_399 - m,
    );
}

proof fn lemma_weekday_shift(secs: int, days_mod: int)
    requires
        secs >= 0 ==> days_mod == (secs / 86_400) % 7,
        secs < 0 ==> days_mod == 6 - ((-(secs + 1)) / 86_400) % 7,
    ensures
        weekday_index(secs) == (days_mod + 3) % 7,
{
    let d = secs / 86_400;
    if secs < 0 {
        lemma_floor_div_negative(secs, -(secs + 1));
        let b = (-(secs + 1)) / 86_400;
        assert(d == -b - 1);
        assert((-b - 1) % 7 == 6 - b % 7) by (nonlinear_arith);
    }
    assert(days_mod == d % 7);
    assert((d + 3) % 7 == (d % 7 + 3) % 7) by (nonlinear_arith);
}

} // verus!
