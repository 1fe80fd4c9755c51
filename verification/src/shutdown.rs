//! Terminating a server process in bounded time: ask it to stop, look for
//! its exit at short intervals, and kill it if it has not exited in time.
//!
//! The procedure is a sequence of steps. The caller performs the step it is
//! given, reports what it saw, and gets the next one, until the step is
//! `Done`. No step fails: termination is best effort and always completes.

use crate::registry::ProcessStatus;
use vstd::prelude::*;

verus! {

/// How often a process that was asked to stop is looked at.
pub const TERMINATE_POLLS: u32 = 30;

/// The pause after a look that found the process still running, in
/// milliseconds. With `TERMINATE_POLLS` looks that makes three seconds.
pub const TERMINATE_POLL_MILLIS: u64 = 100;

/// The step of the termination procedure to perform next.
#[derive(Debug, Clone, Copy, PartialEq, Eq)]
pub enum Shutdown {
    /// Ask the process to terminate.
    Request,
    /// Look whether the process has exited. `polls_done` looks were made
    /// before this one.
    Poll { polls_done: u32 },
    /// Pause for `TERMINATE_POLL_MILLIS`. `polls_done` looks were made.
    Wait { polls_done: u32 },
    /// Kill the process and wait until it is reaped.
    Force,
    /// Nothing is left to do.
    Done,
}

impl Shutdown {
    /// The first step: the request to terminate where the platform has one
    /// (`cooperative`), else the kill.
    pub open spec fn first(cooperative: bool) -> Shutdown {
        if cooperative {
            Shutdown::Request
        } else {
            Shutdown::Force
        }
    }

    /// The step that follows `self`. `status` is what the look of a `Poll`
    /// step showed; after any other step it plays no part.
    pub open spec fn step_after(self, status: ProcessStatus) -> Shutdown {
        match self {
            Shutdown::Request => Shutdown::Poll { polls_done: 0 },
            Shutdown::Poll { polls_done } => match status {
                ProcessStatus::Exited => Shutdown::Done,
                ProcessStatus::Running => if polls_done < TERMINATE_POLLS {
                    Shutdown::Wait { polls_done: (polls_done + 1) as u32 }
                } else {
                    Shutdown::Force
                },
                ProcessStatus::Unknown(_) => Shutdown::Force,
            },
            Shutdown::Wait { polls_done } => if polls_done < TERMINATE_POLLS {
                Shutdown::Poll { polls_done }
            } else {
                Shutdown::Force
            },
            Shutdown::Force => Shutdown::Done,
            Shutdown::Done => Shutdown::Done,
        }
    }

    /// An upper bound on the number of steps still to perform, `self`
    /// included.
    pub open spec fn steps_left(self) -> nat {
        match self {
            Shutdown::Request => 2 * TERMINATE_POLLS as nat + 4,
            Shutdown::Poll { polls_done } => if polls_done < TERMINATE_POLLS {
                (2 * (TERMINATE_POLLS - polls_done) + 3) as nat
            } else {
                3
            },
            Shutdown::Wait { polls_done } => if polls_done < TERMINATE_POLLS {
                (2 * (TERMINATE_POLLS - polls_done) + 4) as nat
            } else {
                2
            },
            Shutdown::Force => 1,
            Shutdown::Done => 0,
        }
    }

    /// The first step of terminating a process.
    pub fn begin(cooperative: bool) -> (r: Shutdown)
        ensures
            r == Shutdown::first(cooperative),
    {
        if cooperative {
            Shutdown::Request
        } else {
            Shutdown::Force
        }
    }

    /// The step after `self`, given what the caller saw when it performed
    /// `self`.
    pub fn next(self, status: &ProcessStatus) -> (r: Shutdown)
        ensures
            r == self.step_after(*status),
    {
        match self {
            Shutdown::Request => Shutdown::Poll { polls_done: 0 },
            Shutdown::Poll { polls_done } => match status {
                ProcessStatus::Exited => Shutdown::Done,
                ProcessStatus::Running => if polls_done < TERMINATE_POLLS {
                    Shutdown::Wait { polls_done: polls_done + 1 }
                } else {
                    Shutdown::Force
                },
                ProcessStatus::Unknown(_) => Shutdown::Force,
            },
            Shutdown::Wait { polls_done } => if polls_done < TERMINATE_POLLS {
                Shutdown::Poll { polls_done }
            } else {
                Shutdown::Force
            },
            Shutdown::Force => Shutdown::Done,
            Shutdown::Done => Shutdown::Done,
        }
    }

    /// Whether the procedure is over.
    pub fn is_done(&self) -> (r: bool)
        ensures
            r == (*self == Shutdown::Done),
    {
        match self {
            Shutdown::Done => true,
            _ => false,
        }
    }
}

/// Termination always completes. Whatever the looks at the process show,
/// every step but `Done` is followed by one with fewer steps left, so the
/// procedure reaches `Done`; from its first step it takes at most
/// `2 * TERMINATE_POLLS + 4` steps.
pub proof fn law_termination_is_bounded(step: Shutdown, status: ProcessStatus, cooperative: bool)
    ensures
        step != Shutdown::Done ==> step.step_after(status).steps_left() < step.steps_left(),
        step.steps_left() == 0 <==> step == Shutdown::Done,
        Shutdown::Done.step_after(status) == Shutdown::Done,
        Shutdown::first(cooperative).steps_left() <= 2 * TERMINATE_POLLS + 4,
{
}

/// A process that had not exited by the last look is killed: the step after
/// the pause that follows the last look is `Force`, and so is the step after
/// any look that could not tell.
pub proof fn law_unresponsive_process_is_killed(polls_done: u32, why: String)
    ensures
        (Shutdown::Wait { polls_done: TERMINATE_POLLS }).step_after(ProcessStatus::Running)
            == Shutdown::Force,
        (Shutdown::Poll { polls_done }).step_after(ProcessStatus::Unknown(why)) == Shutdown::Force,
{
}

} // verus!
