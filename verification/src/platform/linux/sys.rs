//! The clock, and waiting with a limit.

use vstd::prelude::*;

verus! {

/// Ticks of the clock in a second: it counts nanoseconds.
pub fn freq() -> (f: i64)
    ensures
        f == 1_000_000_000,
{
    1_000_000_000
}

/// The clock as one count of nanoseconds.
pub fn ticks(seconds: i64, nanos: i64) -> (t: i64)
    requires
        i64::MIN <= seconds * 1_000_000_000 <= i64::MAX,
        i64::MIN <= seconds * 1_000_000_000 + nanos <= i64::MAX,
    ensures
        t == seconds * 1_000_000_000 + nanos,
{
    seconds * 1_000_000_000 + nanos
}

/// A limit in milliseconds as a wait takes it: never more than it can hold.
pub fn wait_limit(ms: u128) -> (r: i32)
    ensures
        r == (if ms <= i32::MAX {
            ms as int
        } else {
            i32::MAX as int
        }),
{
    if ms <= i32::MAX as u128 {
        ms as i32
    } else {
        i32::MAX
    }
}

} // verus!
