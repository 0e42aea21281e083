//! The bounded connect-retry policy of the session transport: the device is
//! an embedded system that may reject connections transiently, so dialing
//! tries up to a fixed number of attempts, each under its own connect
//! timeout, and surfaces the last failure once the budget is exhausted.

use vstd::prelude::*;

verus! {

/// Number of connection attempts the dial budget allows.
pub const DIAL_MAX_ATTEMPTS: u32 = 50;

/// Per-attempt connect timeout, in milliseconds.
pub const DIAL_TIMEOUT_MS: u64 = 300;

/// Delay after a successful connect that lets the device settle before the
/// first command, in milliseconds.
pub const SETTLE_DELAY_MS: u64 = 5;

/// What the dialer does after one connection attempt.
#[derive(Clone, Copy, PartialEq, Eq, Structural, Debug)]
pub enum DialStep {
    /// The attempt succeeded: the connection is the session's.
    Connected,
    /// The attempt failed and budget remains: try again at once.
    RetryNext,
    /// The attempt failed and was the last one: surface its error.
    GiveUp,
}

/// The dial policy after attempt number `attempt` (counted from 0): success
/// connects; a failure retries while later attempts remain and gives up on
/// the last attempt.
pub open spec fn spec_dial_step(attempt: u32, max_attempts: u32, connected: bool) -> DialStep {
    if connected {
        DialStep::Connected
    } else if attempt + 1 < max_attempts {
        DialStep::RetryNext
    } else {
        DialStep::GiveUp
    }
}

pub fn dial_step(attempt: u32, max_attempts: u32, connected: bool) -> (d: DialStep)
    requires
        attempt < max_attempts,
    ensures
        d == spec_dial_step(attempt, max_attempts, connected),
        d == DialStep::Connected <==> connected,
        d == DialStep::GiveUp <==> !connected && attempt + 1 == max_attempts,
{
    if connected {
        DialStep::Connected
    } else if attempt + 1 < max_attempts {
        DialStep::RetryNext
    } else {
        DialStep::GiveUp
    }
}

/// Whether a dial whose attempts have the given outcomes connects within a
/// budget of `max_attempts` attempts.
pub open spec fn spec_dial_connects(outcomes: Seq<bool>, max_attempts: int) -> bool {
    exists|i: int| 0 <= i < max_attempts && i < outcomes.len() && outcomes[i]
}

/// If every attempt fails, the dial budget is exhausted and the connect
/// fails: no session exists, so no command is ever sent over it.
pub proof fn lemma_dial_budget_exhausted(outcomes: Seq<bool>, max_attempts: int)
    requires
        forall|i: int| 0 <= i < outcomes.len() ==> !(#[trigger] outcomes[i]),
    ensures
        !spec_dial_connects(outcomes, max_attempts),
{
}

/// On the last attempt of the budget a failure is final: the policy gives
/// up rather than retrying.
pub proof fn lemma_dial_last_attempt_gives_up(max_attempts: u32)
    requires
        max_attempts > 0,
    ensures
        spec_dial_step((max_attempts - 1) as u32, max_attempts, false) == DialStep::GiveUp,
{
}

} // verus!
