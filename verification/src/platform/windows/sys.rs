//! Waking the message thread, and the clock.

use vstd::prelude::*;

verus! {

/// Posted to the message thread whenever there is something to service, so that
/// its loop can block rather than poll.
pub const WM_FLOW_WAKE: u32 = 0x0402;

/// Whether anybody is to be woken: the thread that listens is known by a number
/// other than zero.
pub fn listening(thread_id: u32) -> (r: bool)
    ensures
        r == (thread_id != 0),
{
    thread_id != 0
}

/// The ticks of the clock in a second, given what the clock says: one that does
/// not say is taken to tick once.
pub fn freq(counted: i64) -> (f: i64)
    ensures
        f == (if counted == 0 {
            1
        } else {
            counted
        }),
{
    if counted == 0 {
        1
    } else {
        counted
    }
}

} // verus!
