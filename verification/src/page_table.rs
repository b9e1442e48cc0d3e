use vstd::prelude::*;
use crate::address::PhysPageNum;
use crate::permission::MapPermission;

verus! {

/// What the address translator records of one mapped page: the frame behind
/// it and what the task may do with it. Only mapped pages have an entry.
#[derive(Clone, Copy, Debug, PartialEq, Eq, Structural)]
pub struct PageTableEntry {
    pub ppn: PhysPageNum,
    pub perm: MapPermission,
}

impl PageTableEntry {
    /// The frame behind the page.
    pub fn ppn(&self) -> (ppn: PhysPageNum)
        ensures
            ppn == self.ppn,
    {
        self.ppn
    }

    /// Whether the task may read the page.
    pub fn readable(&self) -> (yes: bool)
        ensures
            yes == self.perm.readable,
    {
        self.perm.readable
    }

    /// Whether the task may write the page.
    pub fn writable(&self) -> (yes: bool)
        ensures
            yes == self.perm.writable,
    {
        self.perm.writable
    }

    /// Whether the task may execute the page.
    pub fn executable(&self) -> (yes: bool)
        ensures
            yes == self.perm.executable,
    {
        self.perm.executable
    }
}

} // verus!
