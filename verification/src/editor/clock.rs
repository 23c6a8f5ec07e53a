//! Time budgets: deadlines, and whether they have passed.
//!
//! Moments and their order belong to the standard library and are spoken of by
//! names.

use std::ops::ControlFlow;
use std::time::{Duration, Instant};
use vstd::prelude::*;

verus! {

#[verifier::external_type_specification]
#[verifier::external_body]
pub struct ExInstant(std::time::Instant);

/// Whether a moment is not before another.
pub uninterp spec fn reached(moment: Instant, deadline: Instant) -> bool;

/// The moment so many milliseconds after another, if the clock can tell it.
pub uninterp spec fn moment_after(moment: Instant, milliseconds: u32) -> Option<Instant>;

/// When work has to be done, and the moment at which that was set. A deadline that
/// the clock cannot tell never comes.
#[derive(Clone, Copy, Debug)]
pub struct Deadline {
    start: Instant,
    end: Option<Instant>,
}

impl Deadline {
    pub closed spec fn start(&self) -> Instant {
        self.start
    }

    pub closed spec fn end(&self) -> Option<Instant> {
        self.end
    }

    /// Whether a moment is not before the one at which the deadline was set.
    pub open spec fn covers(&self, moment: Instant) -> bool {
        reached(moment, self.start())
    }

    /// Whether the deadline has come at a moment.
    pub open spec fn passed(&self, moment: Instant) -> bool {
        self.end() matches Some(end) && reached(moment, end)
    }

    /// Whether the deadline was so many milliseconds away when it was set.
    pub open spec fn lasts(&self, milliseconds: u32) -> bool {
        self.end() == moment_after(self.start(), milliseconds)
    }

    /// A deadline that is so many milliseconds away. With none it is the moment at
    /// which it was set.
    pub fn after(milliseconds: u32) -> (r: Deadline)
        ensures
            r.lasts(milliseconds),
            milliseconds == 0 ==> r.end() == Some(r.start()),
    {
        let start = now(None);
        Deadline { start, end: later_by(start, milliseconds) }
    }

    /// A deadline at a moment.
    pub fn at(end: Instant) -> (r: Deadline)
        ensures
            r.end() == Some(end),
    {
        Deadline { start: now(None), end: Some(end) }
    }

    /// Whether the deadline has come at a moment.
    pub fn is_passed(&self, moment: Instant) -> (r: bool)
        ensures
            r == self.passed(moment),
    {
        match self.end {
            Some(end) => has_reached(moment, end),
            None => false,
        }
    }
}

/// `Instant::now`. The clock does not go back: a moment that it gives is not before
/// any that it gave, so not before the one at which a deadline was set. A deadline
/// is made nowhere but in this file, and set at a moment that the clock gave.
#[verifier::external_body]
fn now(_deadline: Option<&Deadline>) -> (r: Instant)
    ensures
        _deadline matches Some(d) ==> d.covers(r),
{
    Instant::now()
}

/// `Instant::checked_add`: the moment so many milliseconds after another, if the
/// clock can tell it. No time after a moment is the moment itself.
#[verifier::external_body]
fn later_by(moment: Instant, milliseconds: u32) -> (r: Option<Instant>)
    ensures
        r == moment_after(moment, milliseconds),
        milliseconds == 0 ==> r == Some(moment),
{
    moment.checked_add(Duration::from_millis(milliseconds as u64))
}

/// The order of moments: whether one is not before another.
#[verifier::external_body]
fn has_reached(moment: Instant, deadline: Instant) -> (r: bool)
    ensures
        r == reached(moment, deadline),
{
    moment >= deadline
}

/// Whether a deadline, if there is one, has come at a moment.
pub open spec fn passed(moment: Instant, deadline: Option<Deadline>) -> bool {
    deadline matches Some(d) && d.passed(moment)
}

/// Whether there is a deadline and it was seen to have come.
pub open spec fn time_up(deadline: Option<Deadline>) -> bool {
    deadline matches Some(d) && exists|moment: Instant| #[trigger]
        d.passed(moment) && d.covers(moment)
}

/// Whether the deadline, if there is one, was seen not to have come yet.
pub open spec fn in_time(deadline: Option<Deadline>) -> bool {
    deadline matches Some(d) ==> exists|moment: Instant| !(#[trigger] d.passed(moment))
        && d.covers(moment)
}

/// Whether a deadline so many milliseconds away was seen to have come.
pub open spec fn ran_out(milliseconds: u32) -> bool {
    exists|d: Deadline| #[trigger] d.lasts(milliseconds) && time_up(Some(d))
}

/// Whether a deadline so many milliseconds away was seen not to have come yet.
pub open spec fn kept_to(milliseconds: u32) -> bool {
    exists|d: Deadline| #[trigger] d.lasts(milliseconds) && in_time(Some(d))
}

/// Whether an outside loop goes on at a moment: not once its deadline has come.
pub fn progress_at(moment: Instant, deadline: Option<Deadline>) -> (r: ControlFlow<()>)
    ensures
        r is Break <==> passed(moment, deadline),
{
    match deadline {
        Some(d) => {
            if d.is_passed(moment) {
                ControlFlow::Break(())
            } else {
                ControlFlow::Continue(())
            }
        },
        None => ControlFlow::Continue(()),
    }
}

/// Tells an outside loop to stop once its time is up. Without a deadline it goes
/// on.
pub fn budget_progress(deadline: Option<Deadline>) -> (r: ControlFlow<()>)
    ensures
        r is Break ==> time_up(deadline),
        r is Continue ==> in_time(deadline),
{
    progress_at(now(deadline.as_ref()), deadline)
}

/// A deadline that is its own start is past at every moment after it was set.
pub proof fn no_time_is_up_at_once(d: Deadline)
    requires
        d.end() == Some(d.start()),
    ensures
        !in_time(Some(d)),
{
}

} // verus!
