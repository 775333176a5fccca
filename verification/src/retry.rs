//! The retransmission policy: a per-attempt timeout says *when to resend*
//! the current window, and a bounded retry counter says *when to give up*.
//! The two are independent; only the decisions live here, the clock itself
//! belongs to the caller.

use vstd::prelude::*;

verus! {

/// How many consecutive unproductive polls a transfer tolerates before it
/// fails with a timeout.
pub const MAX_RETRIES: u32 = 6;

/// Safety margin added to the per-attempt timeout when forcing the first
/// transmission of a window, in milliseconds.
pub const TIMEOUT_BUFFER_MS: u64 = 1000;

/// Whether the window must be retransmitted: at least the per-attempt
/// timeout has elapsed since it was last sent.
pub fn should_retransmit(elapsed_ms: u64, timeout_ms: u64) -> (r: bool)
    ensures
        r == (elapsed_ms >= timeout_ms),
{
    elapsed_ms >= timeout_ms
}

/// The elapsed time the send path pretends at the start of each window, so
/// that the very first poll already finds the timeout expired and transmits
/// the window at once.
pub fn initial_elapsed_ms(timeout_ms: u64) -> (r: u64)
    ensures
        r >= timeout_ms,
        timeout_ms + TIMEOUT_BUFFER_MS <= u64::MAX ==> r == timeout_ms + TIMEOUT_BUFFER_MS,
        timeout_ms + TIMEOUT_BUFFER_MS > u64::MAX ==> r == u64::MAX,
{
    if timeout_ms > u64::MAX - TIMEOUT_BUFFER_MS {
        u64::MAX
    } else {
        timeout_ms + TIMEOUT_BUFFER_MS
    }
}

}
