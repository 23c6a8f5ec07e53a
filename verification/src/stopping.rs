//! How long a language server that is to stop is waited for.

use crate::language_service::TransportStatus;
use crate::protocol::SHUTDOWN_DEADLINE;
use vstd::prelude::*;

verus! {

/// How long a server is given to go once it was ended, in milliseconds.
pub const CLEANUP_DEADLINE: u64 = 2_000;

pub open spec fn later(now: u64, more: u64) -> u64 {
    if now + more <= u64::MAX {
        (now + more) as u64
    } else {
        u64::MAX
    }
}

/// A server that was asked to shut down. Without a request that it can answer there
/// is nothing to wait for.
#[derive(Clone, Copy, Debug, PartialEq, Eq, Structural)]
pub struct ShuttingDown {
    pub asked: bool,
    pub until: u64,
}

impl ShuttingDown {
    pub fn new(asked: bool, now: u64) -> (r: ShuttingDown)
        ensures
            r == (ShuttingDown { asked, until: later(now, SHUTDOWN_DEADLINE) }),
    {
        ShuttingDown { asked, until: now.saturating_add(SHUTDOWN_DEADLINE) }
    }

    /// Whether to talk to the server once more.
    pub fn wants_turn(&self, now: u64) -> (r: bool)
        ensures
            r == (self.asked && now < self.until),
    {
        self.asked && now < self.until
    }

    /// Whether to wait on, after a turn: its messages were in order, and the server
    /// is still there.
    pub fn goes_on(&self, in_order: bool, status: TransportStatus) -> (r: bool)
        ensures
            r == (in_order && status == TransportStatus::Alive),
    {
        in_order && status == TransportStatus::Alive
    }
}

/// What a look at a child that was ended shows.
#[derive(Clone, Copy, Debug, PartialEq, Eq, Structural)]
pub enum ChildLook {
    Gone,
    There,
    Failed,
}

/// What follows from a look.
#[derive(Clone, Copy, Debug, PartialEq, Eq, Structural)]
pub enum StopStep {
    LookAgain,
    Done,
    GiveUp,
}

/// A server that was ended, and what was last seen of it.
#[derive(Clone, Copy, Debug, PartialEq, Eq, Structural)]
pub struct Ending {
    pub until: u64,
    pub reaped: bool,
    pub group_gone: bool,
}

impl Ending {
    pub fn new(now: u64) -> (r: Ending)
        ensures
            r == (Ending {
                until: later(now, CLEANUP_DEADLINE),
                reaped: false,
                group_gone: false,
            }),
    {
        Ending { until: now.saturating_add(CLEANUP_DEADLINE), reaped: false, group_gone: false }
    }

    /// Whether there is time for another look.
    pub fn wants_look(&self, now: u64) -> (r: bool)
        ensures
            r == (now < self.until),
    {
        now < self.until
    }

    /// Takes in a look at the child, its group and its pipes.
    pub fn take(&mut self, child: ChildLook, group_gone: bool, pipes_closed: bool) -> (r: StopStep)
        ensures
            final(self).until == old(self).until,
            match child {
                ChildLook::Failed => r == StopStep::GiveUp && *final(self) == *old(self),
                _ => {
                    &&& final(self).reaped == (child == ChildLook::Gone)
                    &&& final(self).group_gone == group_gone
                    &&& r == if child == ChildLook::Gone && group_gone && pipes_closed {
                        StopStep::Done
                    } else {
                        StopStep::LookAgain
                    }
                },
            },
    {
        if child == ChildLook::Failed {
            return StopStep::GiveUp;
        }
        self.reaped = child == ChildLook::Gone;
        self.group_gone = group_gone;
        if self.reaped && group_gone && pipes_closed {
            StopStep::Done
        } else {
            StopStep::LookAgain
        }
    }

    /// Whether nothing is left, when no more looks are taken.
    pub fn is_over(&self, pipes_closed: bool) -> (r: bool)
        ensures
            r == (self.reaped && self.group_gone && pipes_closed),
    {
        self.reaped && self.group_gone && pipes_closed
    }
}

} // verus!
