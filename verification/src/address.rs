use vstd::prelude::*;
use crate::config::{MAX_PAGE_NUMBER, PAGE_SIZE};

verus! {

/// A byte address in a task's virtual address space.
#[derive(Clone, Copy, Debug, PartialEq, Eq, Structural)]
pub struct VirtAddr(pub usize);

/// The number of a page of a task's virtual address space.
#[derive(Clone, Copy, Debug, PartialEq, Eq, Structural)]
pub struct VirtPageNum(pub usize);

/// A byte address in physical memory.
#[derive(Clone, Copy, Debug, PartialEq, Eq, Structural)]
pub struct PhysAddr(pub usize);

/// The number of a frame of physical memory.
#[derive(Clone, Copy, Debug, PartialEq, Eq, Structural)]
pub struct PhysPageNum(pub usize);

impl VirtAddr {
    /// The page that holds this address.
    pub fn floor(self) -> (vpn: VirtPageNum)
        ensures
            vpn.0 == self.0 / PAGE_SIZE,
            vpn.0 <= MAX_PAGE_NUMBER,
    {
        VirtPageNum(self.0 / PAGE_SIZE)
    }

    /// The distance of this address from the start of its page.
    pub fn page_offset(self) -> (offset: usize)
        ensures
            offset == self.0 % PAGE_SIZE,
            offset < PAGE_SIZE,
            self.0 == (self.0 / PAGE_SIZE) * PAGE_SIZE + offset,
    {
        self.0 % PAGE_SIZE
    }

    /// Whether this address is the first of its page.
    pub fn aligned(self) -> (yes: bool)
        ensures
            yes <==> self.0 % PAGE_SIZE == 0,
    {
        self.0 % PAGE_SIZE == 0
    }
}

impl VirtPageNum {
    /// The first address of this page.
    pub fn base(self) -> (va: VirtAddr)
        requires
            self.0 <= MAX_PAGE_NUMBER,
        ensures
            va.0 == self.0 * PAGE_SIZE,
    {
        VirtAddr(self.0 * PAGE_SIZE)
    }
}

impl PhysAddr {
    /// The frame that holds this address.
    pub fn floor(self) -> (ppn: PhysPageNum)
        ensures
            ppn.0 == self.0 / PAGE_SIZE,
            ppn.0 <= MAX_PAGE_NUMBER,
    {
        PhysPageNum(self.0 / PAGE_SIZE)
    }

    /// The distance of this address from the start of its frame.
    pub fn page_offset(self) -> (offset: usize)
        ensures
            offset == self.0 % PAGE_SIZE,
            offset < PAGE_SIZE,
            self.0 == (self.0 / PAGE_SIZE) * PAGE_SIZE + offset,
    {
        self.0 % PAGE_SIZE
    }
}

impl PhysPageNum {
    /// The first address of this frame.
    pub fn base(self) -> (pa: PhysAddr)
        requires
            self.0 <= MAX_PAGE_NUMBER,
        ensures
            pa.0 == self.0 * PAGE_SIZE,
    {
        PhysAddr(self.0 * PAGE_SIZE)
    }
}

/// An address is the start of its page plus its offset in the page, the
/// offset is less than a page, and splitting the sum gives both parts back.
pub proof fn lemma_page_and_offset(page: usize, offset: usize)
    requires
        page <= MAX_PAGE_NUMBER,
        offset < PAGE_SIZE,
    ensures
        page * PAGE_SIZE + offset <= usize::MAX,
        (page * PAGE_SIZE + offset) / (PAGE_SIZE as int) == page,
        (page * PAGE_SIZE + offset) % (PAGE_SIZE as int) == offset,
{
}

} // verus!
