use vstd::prelude::*;

verus! {

/// Number of bytes in one page, the unit in which regions are mapped.
pub const PAGE_SIZE: usize = 4096;

/// The highest page number: page `MAX_PAGE_NUMBER` is the last one whose
/// bytes all have addresses that fit in a machine word.
pub const MAX_PAGE_NUMBER: usize = usize::MAX / PAGE_SIZE;

/// The code every system call returns when it succeeds.
pub const SUCCESS: isize = 0;

/// The code every system call returns when it rejects a request.
pub const FAILURE: isize = -1;

/// Microseconds in one second.
pub const MICROS_PER_SEC: usize = 1_000_000;

} // verus!
