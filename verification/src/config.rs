//! Constants of the machine and of the kernel's configuration.
use vstd::prelude::*;

verus! {

/// Size of a page in bytes.
pub const PAGE_SIZE: usize = 0x1000;

/// Frequency of the `mtime` counter, in ticks per second.
pub const CLOCK_FREQ: usize = 12500000;

} // verus!
