use vstd::prelude::*;
use crate::datetime::{Date, DateTime, lemma_next_index};

verus! {

/// A non-negative span of whole seconds between two instants.
#[derive(Clone, Copy, PartialEq, Eq, Structural, Debug)]
pub struct AlarmDuration {
    pub seconds: u64,
}

impl AlarmDuration {
    /// Whole hours in the span.
    pub fn num_hours(&self) -> (r: u64)
        ensures
            r == self.seconds / 3600,
    {
        self.seconds / 3600
    }

    /// Whole minutes in the span.
    pub fn num_minutes(&self) -> (r: u64)
        ensures
            r == self.seconds / 60,
    {
        self.seconds / 60
    }

    /// Whole seconds in the span.
    pub fn num_seconds(&self) -> (r: u64)
        ensures
            r == self.seconds,
    {
        self.seconds
    }
}

/// The acceptance policy for a requested alarm time: either it falls on
/// the current date at a strictly later instant, or it falls on the very
/// next date (at any time of day). Any other date is rejected.
pub open spec fn spec_is_valid_date(parsed: DateTime, current: DateTime) -> bool {
    if parsed.spec_date() == current.spec_date() {
        parsed.spec_seconds() > current.spec_seconds()
    } else {
        parsed.spec_date() == current.spec_date().spec_next()
    }
}

/// Whether `parsed_time` is an acceptable alarm time when the clock
/// reads `current_time`: today but strictly in the future, or tomorrow.
pub fn is_valid_date(parsed_time: &DateTime, current_time: DateTime) -> (r: bool)
    requires
        parsed_time.wf(),
        current_time.wf(),
    ensures
        r == spec_is_valid_date(*parsed_time, current_time),
{
    let current_date = current_time.date();
    let next_date = current_date.next_day();
    let input_date = parsed_time.date();

    if input_date == current_date {
        parsed_time.seconds() > current_time.seconds()
    } else {
        input_date == next_date
    }
}

/// The span from `current_time` up to `parsed_time`, in whole seconds;
/// `None` whenever `parsed_time` is not strictly in the future.
pub fn calculate_time(parsed_time: DateTime, current_time: DateTime) -> (r: Option<AlarmDuration>)
    requires
        parsed_time.wf(),
        current_time.wf(),
    ensures
        r is Some <==> parsed_time.spec_seconds() > current_time.spec_seconds(),
        r is Some ==> r->0.seconds == parsed_time.spec_seconds() - current_time.spec_seconds(),
{
    let parsed = parsed_time.seconds();
    let current = current_time.seconds();
    if parsed > current {
        Some(AlarmDuration { seconds: parsed - current })
    } else {
        None
    }
}

/// An alarm time on the current date whose time of day is not strictly
/// later than the clock's is rejected.
pub proof fn lemma_same_day_past_rejected(parsed: DateTime, current: DateTime)
    requires
        parsed.wf(),
        current.wf(),
        parsed.spec_date() == current.spec_date(),
        parsed.spec_time_of_day() <= current.spec_time_of_day(),
    ensures
        !spec_is_valid_date(parsed, current),
{
}

/// An alarm time on the current date with a strictly later time of day
/// is accepted.
pub proof fn lemma_same_day_future_accepted(parsed: DateTime, current: DateTime)
    requires
        parsed.wf(),
        current.wf(),
        parsed.spec_date() == current.spec_date(),
        parsed.spec_time_of_day() > current.spec_time_of_day(),
    ensures
        spec_is_valid_date(parsed, current),
{
}

/// An alarm time on the next calendar date is accepted, whatever its
/// time of day.
pub proof fn lemma_next_day_accepted(parsed: DateTime, current: DateTime)
    requires
        parsed.wf(),
        current.wf(),
        parsed.spec_date() == current.spec_date().spec_next(),
    ensures
        spec_is_valid_date(parsed, current),
{
    lemma_next_index(current.spec_date());
}

/// An alarm time two or more calendar days ahead is rejected.
pub proof fn lemma_later_date_rejected(parsed: DateTime, current: DateTime)
    requires
        parsed.wf(),
        current.wf(),
        parsed.spec_date().spec_index() >= current.spec_date().spec_index() + 2,
    ensures
        !spec_is_valid_date(parsed, current),
{
    lemma_next_index(current.spec_date());
}

/// Every accepted alarm time lies strictly in the future, so an accepted
/// request always yields a positive wait.
pub proof fn lemma_valid_implies_future(parsed: DateTime, current: DateTime)
    requires
        parsed.wf(),
        current.wf(),
        spec_is_valid_date(parsed, current),
    ensures
        parsed.spec_seconds() > current.spec_seconds(),
{
    if parsed.spec_date() != current.spec_date() {
        lemma_next_index(current.spec_date());
    }
}

} // verus!
