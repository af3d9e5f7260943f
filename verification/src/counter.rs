//! Counters that wrap around.

use vstd::prelude::*;

verus! {

/// A counter after it was raised by `n`.
pub open spec fn raised(counter: u64, n: u64) -> u64 {
    ((counter + n) % 0x1_0000_0000_0000_0000) as u64
}

} // verus!
