//! Why a request to create a timer is turned down.

use vstd::prelude::*;

verus! {

/// A fault found in a request before anything is changed.
#[derive(Clone, Copy, Debug, PartialEq, Eq, Structural)]
pub enum ValidationError {
    /// The target time is no RFC 3339 timestamp.
    InvalidTime,
    /// The target time is not strictly after the present.
    NotInFuture,
    /// A popup timer came without a message, or with a blank one.
    MessageRequired,
    /// An hourly recurrence names no interval.
    HoursIntervalMissing,
    /// An hourly interval outside 1 to 24.
    HoursIntervalOutOfRange,
    /// A recurrence by minutes names no interval.
    MinutesIntervalMissing,
    /// An interval in minutes outside 1 to 1440.
    MinutesIntervalOutOfRange,
}

impl ValidationError {
    /// The sentence shown to the user for this fault.
    pub open spec fn spec_message(self) -> Seq<char> {
        match self {
            ValidationError::InvalidTime => "Invalid date/time format"@,
            ValidationError::NotInFuture => "Selected time must be in the future"@,
            ValidationError::MessageRequired => "Popup timers require a message"@,
            ValidationError::HoursIntervalMissing => "Every N Hours requires an interval."@,
            ValidationError::HoursIntervalOutOfRange => "Interval hours must be between 1 and 24."@,
            ValidationError::MinutesIntervalMissing => "Every N Minutes requires an interval."@,
            ValidationError::MinutesIntervalOutOfRange =>
                "Interval minutes must be between 1 and 1440."@,
        }
    }

    /// The sentence shown to the user for this fault.
    pub fn message(&self) -> (r: String)
        ensures
            r@ == self.spec_message(),
    {
        match self {
            ValidationError::InvalidTime => "Invalid date/time format".to_owned(),
            ValidationError::NotInFuture => "Selected time must be in the future".to_owned(),
            ValidationError::MessageRequired => "Popup timers require a message".to_owned(),
            ValidationError::HoursIntervalMissing =>
                "Every N Hours requires an interval.".to_owned(),
            ValidationError::HoursIntervalOutOfRange =>
                "Interval hours must be between 1 and 24.".to_owned(),
            ValidationError::MinutesIntervalMissing =>
                "Every N Minutes requires an interval.".to_owned(),
            ValidationError::MinutesIntervalOutOfRange =>
                "Interval minutes must be between 1 and 1440.".to_owned(),
        }
    }
}

} // verus!
