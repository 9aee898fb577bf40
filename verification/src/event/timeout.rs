//! How much of a wait is left.

use crate::time::Nanos;
use vstd::prelude::*;

verus! {

/// Keeps track of how long a wait may still last.
#[derive(Clone, Copy, Debug, PartialEq, Eq)]
pub struct PollTimeout {
    /// How long the wait may last; without a timeout it never ends by itself.
    pub timeout: Option<Nanos>,
    /// The clock when the wait began.
    pub start: Nanos,
}

impl PollTimeout {
    /// What is left at a clock reading.
    pub open spec fn left_at(self, now: Nanos) -> Option<Nanos> {
        match self.timeout {
            Some(timeout) => Some(timeout.minus(now.minus(self.start))),
            None => None,
        }
    }

    /// Whether the wait is over at a clock reading.
    pub open spec fn over_at(self, now: Nanos) -> bool {
        self.timeout matches Some(timeout) && now.minus(self.start).0 >= timeout.0
    }

    /// Starts a wait at a clock reading.
    pub fn new(timeout: Option<Nanos>, now: Nanos) -> (wait: PollTimeout)
        ensures
            wait == (PollTimeout { timeout, start: now }),
    {
        PollTimeout { timeout, start: now }
    }

    /// What is left of the wait, or nothing if it has no timeout.
    pub fn leftover(&self, now: Nanos) -> (left: Option<Nanos>)
        ensures
            left == self.left_at(now),
            left is Some <==> self.timeout is Some,
            now.0 >= self.start.0 && left is Some && left->Some_0.0 > 0 ==> left->Some_0.0 + (now.0
                - self.start.0) == self.timeout->Some_0.0,
    {
        match self.timeout {
            Some(timeout) => Some(timeout.saturating_sub(now.saturating_sub(self.start))),
            None => None,
        }
    }

    /// Whether the timeout has passed.
    pub fn elapsed(&self, now: Nanos) -> (over: bool)
        ensures
            over == self.over_at(now),
            over <==> self.timeout is Some && (now.0 >= self.start.0 + self.timeout->Some_0.0
                || self.timeout->Some_0.0 == 0),
    {
        match self.timeout {
            Some(timeout) => now.saturating_sub(self.start).0 >= timeout.0,
            None => false,
        }
    }
}

/// A wait is over exactly when a timeout was given and nothing of it is left, and a
/// wait that is over stays over.
pub proof fn law_wait_over_when_nothing_left(wait: PollTimeout, now: Nanos, later: Nanos)
    requires
        now.0 <= later.0,
    ensures
        wait.over_at(now) <==> wait.left_at(now) == Some(Nanos(0)),
        wait.over_at(now) ==> wait.over_at(later),
        wait.timeout is None ==> !wait.over_at(now),
{
}

/// A wait lasts exactly as long as its timeout, counted from its start: until that much time
/// has gone by, what is left and what has gone by make up the timeout, and from that moment on
/// nothing is left and the wait is over. A clock that stands before the start counts as one
/// at the start. Without a timeout a wait is never over.
pub proof fn law_wait_lasts_as_long_as_its_timeout(wait: PollTimeout, timeout: Nanos, now: Nanos)
    ensures
        wait.timeout is None ==> wait.left_at(now) is None && !wait.over_at(now),
        wait.timeout == Some(timeout) && wait.start.0 <= now.0 < wait.start.0 + timeout.0 ==> {
            &&& !wait.over_at(now)
            &&& wait.left_at(now) is Some
            &&& wait.left_at(now)->Some_0.0 + (now.0 - wait.start.0) == timeout.0
        },
        wait.timeout == Some(timeout) && now.0 >= wait.start.0 + timeout.0 ==> {
            &&& wait.over_at(now)
            &&& wait.left_at(now) is Some
            &&& wait.left_at(now)->Some_0.0 == 0
        },
        wait.timeout == Some(timeout) && now.0 < wait.start.0 ==> {
            &&& wait.over_at(now) == (timeout.0 == 0)
            &&& wait.left_at(now) == Some(timeout)
        },
{
}

} // verus!
