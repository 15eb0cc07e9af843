//! The decisions of the loop that acquires the store's lock.
//!
//! One lock file serves the whole store. It is never renamed or deleted, so everyone locks the
//! same file.

use vstd::prelude::*;

verus! {

/// The name of the lock file. The leading dot keeps it out of the list of sessions.
pub const LOCK_FILE_NAME: &'static str = ".lock";

/// How long to try, in milliseconds. A hook must not wait for long.
pub const ACQUIRE_TIMEOUT_MS: u64 = 500;

/// How long to wait between two attempts, in milliseconds.
pub const RETRY_INTERVAL_MS: u64 = 2;

/// How an attempt to take the lock ended.
#[derive(Debug, Clone, Copy, PartialEq, Eq, Structural)]
pub enum Attempt {
    /// The lock is ours.
    Taken,
    /// Someone else holds it.
    Held,
    /// A signal came in between.
    Interrupted,
    /// Locking does not work here, and trying again will not help.
    Failed,
}

/// What to do next.
#[derive(Debug, Clone, Copy, PartialEq, Eq, Structural)]
pub enum Step {
    /// Go on with the lock.
    Proceed,
    /// Try again at once.
    TryAgain,
    /// Wait for a moment, then try again.
    WaitAndTryAgain,
    /// Give up because it took too long.
    GiveUp,
    /// Give up because of the failure.
    Fail,
}

/// What follows an attempt, `waited_ms` after the first one began.
pub open spec fn step_after(attempt: Attempt, waited_ms: u64) -> Step {
    match attempt {
        Attempt::Taken => Step::Proceed,
        Attempt::Interrupted => Step::TryAgain,
        Attempt::Failed => Step::Fail,
        Attempt::Held => if waited_ms >= ACQUIRE_TIMEOUT_MS {
            Step::GiveUp
        } else {
            Step::WaitAndTryAgain
        },
    }
}

/// What to do after an attempt, `waited_ms` after the first one began. An interrupted attempt
/// is repeated whatever the time.
pub fn next_step(attempt: Attempt, waited_ms: u64) -> (r: Step)
    ensures
        r == step_after(attempt, waited_ms),
{
    match attempt {
        Attempt::Taken => Step::Proceed,
        Attempt::Interrupted => Step::TryAgain,
        Attempt::Failed => Step::Fail,
        Attempt::Held => if waited_ms >= ACQUIRE_TIMEOUT_MS {
            Step::GiveUp
        } else {
            Step::WaitAndTryAgain
        },
    }
}

// ---- laws -----------------------------------------------------------------------------------

/// The lock is used just if it was taken. A lock that someone holds is waited for, but for no
/// longer than half a second. An attempt that was interrupted is repeated at once, and one that
/// failed is not.
pub proof fn law_a_lock_is_waited_for_half_a_second(attempt: Attempt, waited_ms: u64)
    ensures
        step_after(attempt, waited_ms) == Step::Proceed <==> attempt == Attempt::Taken,
        step_after(attempt, waited_ms) == Step::WaitAndTryAgain <==> attempt == Attempt::Held
            && waited_ms < 500,
        step_after(attempt, waited_ms) == Step::GiveUp <==> attempt == Attempt::Held && waited_ms
            >= 500,
        step_after(attempt, waited_ms) == Step::TryAgain <==> attempt == Attempt::Interrupted,
        step_after(attempt, waited_ms) == Step::Fail <==> attempt == Attempt::Failed,
{
}

} // verus!
