use vstd::prelude::*;
use std::collections::HashMap;
use crate::address::{PhysAddr, PhysPageNum, VirtPageNum};
use crate::config::{MAX_PAGE_NUMBER, PAGE_SIZE};
use crate::page_table::PageTableEntry;
use crate::permission::MapPermission;

verus! {

broadcast use vstd::std_specs::hash::group_hash_axioms;

/// The state of a task's address space as the contracts see it.
#[verifier::ext_equal]
pub struct AddressSpaceView {
    /// The entry of each mapped page, by page number.
    pub mappings: Map<usize, PageTableEntry>,
    /// The frames that back no page, in the order they were released; the
    /// last one is handed out next.
    pub free: Seq<usize>,
    /// Physical memory, byte by byte: the frames for mappings, numbered from
    /// 0, and one more page above them that is never handed out.
    pub memory: Seq<u8>,
}

impl AddressSpaceView {
    /// How many frames physical memory has for mappings.
    pub open spec fn frames(self) -> int {
        self.memory.len() as int / PAGE_SIZE as int - 1
    }

    /// Whether page `vpn` is number `first` or one of the `count - 1` after it.
    pub open spec fn in_range(vpn: usize, first: usize, count: nat) -> bool {
        first <= vpn < first + count
    }

    /// No page of the range is mapped.
    pub open spec fn range_unmapped(self, first: usize, count: nat) -> bool {
        forall|vpn: usize|
            Self::in_range(vpn, first, count) ==> !#[trigger] self.mappings.contains_key(vpn)
    }

    /// Every page of the range is mapped.
    pub open spec fn range_mapped(self, first: usize, count: nat) -> bool {
        forall|vpn: usize|
            Self::in_range(vpn, first, count) ==> #[trigger] self.mappings.contains_key(vpn)
    }

    /// The state after page `vpn` got the next free frame.
    pub open spec fn install_mapping(self, vpn: usize, perm: MapPermission) -> AddressSpaceView
        recommends
            self.free.len() > 0,
    {
        AddressSpaceView {
            mappings: self.mappings.insert(
                vpn,
                PageTableEntry { ppn: PhysPageNum(self.free.last()), perm },
            ),
            free: self.free.drop_last(),
            ..self
        }
    }

    /// The state after page `vpn` gave its frame back.
    pub open spec fn remove_mapping(self, vpn: usize) -> AddressSpaceView
        recommends
            self.mappings.contains_key(vpn),
    {
        AddressSpaceView {
            mappings: self.mappings.remove(vpn),
            free: self.free.push(self.mappings[vpn].ppn.0),
            ..self
        }
    }

    /// The state after the `count` pages from `first` on were mapped in
    /// rising order, each to the frame that was next at its turn.
    pub open spec fn map_range(self, first: usize, count: nat, perm: MapPermission)
        -> AddressSpaceView
        recommends
            count <= self.free.len(),
    {
        AddressSpaceView {
            mappings: Map::new(
                |vpn: usize| self.mappings.contains_key(vpn) || Self::in_range(vpn, first, count),
                |vpn: usize|
                    if Self::in_range(vpn, first, count) {
                        PageTableEntry {
                            ppn: PhysPageNum(self.free[self.free.len() - 1 - (vpn - first)]),
                            perm,
                        }
                    } else {
                        self.mappings[vpn]
                    },
            ),
            free: self.free.subrange(0, self.free.len() - count),
            ..self
        }
    }

    /// The state after the `count` pages from `first` on were unmapped in
    /// rising order.
    pub open spec fn unmap_range(self, first: usize, count: nat) -> AddressSpaceView
        recommends
            self.range_mapped(first, count),
    {
        AddressSpaceView {
            mappings: Map::new(
                |vpn: usize| self.mappings.contains_key(vpn) && !Self::in_range(vpn, first, count),
                |vpn: usize| self.mappings[vpn],
            ),
            free: self.free + Seq::new(count, |i: int| self.mappings[(first + i) as usize].ppn.0),
            ..self
        }
    }

    /// The state after `bytes` were written to physical memory from address
    /// `pa` on.
    pub open spec fn store(self, pa: int, bytes: Seq<u8>) -> AddressSpaceView
        recommends
            0 <= pa,
            pa + bytes.len() <= self.memory.len(),
    {
        AddressSpaceView {
            memory: Seq::new(
                self.memory.len(),
                |i: int| if pa <= i < pa + bytes.len() { bytes[i - pa] } else { self.memory[i] },
            ),
            ..self
        }
    }

    /// The `len` bytes of physical memory from address `pa` on.
    pub open spec fn load(self, pa: int, len: nat) -> Seq<u8>
        recommends
            0 <= pa,
            pa + len <= self.memory.len(),
    {
        self.memory.subrange(pa, pa + len)
    }

    /// What holds of every address space: physical memory is the frames and
    /// one page more, each frame is either free once or behind one page, and
    /// each mapped page lies in the address range, is open to user mode and
    /// has a permission set that the hardware can hold.
    pub open spec fn well_formed(self) -> bool {
        &&& self.mappings.dom().finite()
        &&& self.memory.len() == (self.frames() + 1) * PAGE_SIZE
        &&& self.memory.len() <= usize::MAX
        &&& self.free.no_duplicates()
        &&& forall|i: int| 0 <= i < self.free.len() ==> #[trigger] self.free[i] < self.frames()
        &&& forall|vpn: usize| #[trigger]
            self.mappings.contains_key(vpn) ==> {
                &&& vpn <= MAX_PAGE_NUMBER
                &&& self.mappings[vpn].ppn.0 < self.frames()
                &&& !self.free.contains(self.mappings[vpn].ppn.0)
                &&& self.mappings[vpn].perm.user
                &&& self.mappings[vpn].perm.legal()
            }
        &&& forall|a: usize, b: usize|
            #![trigger self.mappings.contains_key(a), self.mappings.contains_key(b)]
            self.mappings.contains_key(a) && self.mappings.contains_key(b) && a != b
                ==> self.mappings[a].ppn != self.mappings[b].ppn
    }
}

/// The address space of the task on whose behalf a system call runs: its
/// page table, the frames that are left for new pages, and physical memory.
pub struct AddressSpace {
    table: HashMap<usize, PageTableEntry>,
    free: Vec<usize>,
    memory: Vec<u8>,
}

impl View for AddressSpace {
    type V = AddressSpaceView;

    closed spec fn view(&self) -> AddressSpaceView {
        AddressSpaceView { mappings: self.table@, free: self.free@, memory: self.memory@ }
    }
}

impl AddressSpace {
    /// Whether the address space is in a state that its functions can work on.
    pub open spec fn wf(&self) -> bool {
        self@.well_formed()
    }

    /// An address space without mappings over a physical memory of `frames`
    /// free frames, all bytes zero. Frame 0 is handed out first.
    pub fn new(frames: usize) -> (space: AddressSpace)
        requires
            (frames + 1) * PAGE_SIZE <= usize::MAX,
        ensures
            space.wf(),
            space@.mappings == Map::<usize, PageTableEntry>::empty(),
            space@.free == Seq::new(frames as nat, |i: int| (frames - 1 - i) as usize),
            space@.frames() == frames,
            space@.memory == Seq::new(((frames + 1) * PAGE_SIZE) as nat, |i: int| 0u8),
    {
        let mut free: Vec<usize> = Vec::new();
        let mut left: usize = frames;
        while left > 0
            invariant
                left <= frames,
                free@ == Seq::new((frames - left) as nat, |i: int| (frames - 1 - i) as usize),
            decreases left,
        {
            left = left - 1;
            free.push(left);
        }
        let memory: Vec<u8> = vec![0u8; (frames + 1) * PAGE_SIZE];
        AddressSpace { table: HashMap::new(), free, memory }
    }

    /// The entry of page `vpn`, if the page is mapped.
    pub fn translate(&self, vpn: VirtPageNum) -> (entry: Option<PageTableEntry>)
        ensures
            entry == (if self@.mappings.contains_key(vpn.0) {
                Some(self@.mappings[vpn.0])
            } else {
                None::<PageTableEntry>
            }),
    {
        match self.table.get(&vpn.0) {
            Some(entry) => Some(*entry),
            None => None,
        }
    }

    /// How many frames are left for new pages.
    pub fn free_frames(&self) -> (n: usize)
        ensures
            n == self@.free.len(),
    {
        self.free.len()
    }

    /// Maps page `vpn` to the next free frame. Nothing changes when the page
    /// is mapped already or no frame is left.
    pub(crate) fn install_mapping(&mut self, vpn: VirtPageNum, perm: MapPermission) -> (ok: bool)
        requires
            old(self).wf(),
            vpn.0 <= MAX_PAGE_NUMBER,
            perm.user,
            perm.legal(),
        ensures
            final(self).wf(),
            ok <==> !old(self)@.mappings.contains_key(vpn.0) && old(self)@.free.len() > 0,
            ok ==> final(self)@ == old(self)@.install_mapping(vpn.0, perm),
            !ok ==> final(self)@ == old(self)@,
    {
        if self.table.contains_key(&vpn.0) {
            return false;
        }
        match self.free.pop() {
            Some(frame) => {
                self.table.insert(vpn.0, PageTableEntry { ppn: PhysPageNum(frame), perm });
                true
            },
            None => false,
        }
    }

    /// Unmaps page `vpn` and puts its frame back with the free ones.
    pub(crate) fn remove_mapping(&mut self, vpn: VirtPageNum)
        requires
            old(self).wf(),
            old(self)@.mappings.contains_key(vpn.0),
        ensures
            final(self).wf(),
            final(self)@ == old(self)@.remove_mapping(vpn.0),
    {
        let gone = self.table.remove(&vpn.0);
        match gone {
            Some(entry) => {
                self.free.push(entry.ppn.0);
            },
            None => {},
        }
    }

    /// Writes `bytes` to physical memory from address `pa` on.
    pub(crate) fn store(&mut self, pa: PhysAddr, bytes: &Vec<u8>)
        requires
            old(self).wf(),
            pa.0 + bytes@.len() <= old(self)@.memory.len(),
        ensures
            final(self).wf(),
            final(self)@ == old(self)@.store(pa.0 as int, bytes@),
    {
        let mut i: usize = 0;
        while i < bytes.len()
            invariant
                i <= bytes@.len(),
                pa.0 + bytes@.len() <= old(self)@.memory.len() <= usize::MAX,
                self@ == old(self)@.store(pa.0 as int, bytes@.subrange(0, i as int)),
            decreases bytes@.len() - i,
        {
            self.memory.set(pa.0 + i, bytes[i]);
            i = i + 1;
        }
    }

    /// The `len` bytes of physical memory from address `pa` on, if physical
    /// memory reaches that far.
    pub fn load(&self, pa: PhysAddr, len: usize) -> (bytes: Option<Vec<u8>>)
        ensures
            bytes is Some <==> pa.0 + len <= self@.memory.len(),
            bytes matches Some(b) ==> b@ == self@.load(pa.0 as int, len as nat),
    {
        if len > self.memory.len() || pa.0 > self.memory.len() - len {
            return None;
        }
        let mut out: Vec<u8> = Vec::new();
        let mut i: usize = 0;
        while i < len
            invariant
                i <= len,
                pa.0 + len <= self@.memory.len() <= usize::MAX,
                out@ == self@.memory.subrange(pa.0 as int, pa.0 + i),
            decreases len - i,
        {
            out.push(self.memory[pa.0 + i]);
            i = i + 1;
        }
        Some(out)
    }
}

/// Mapping a range of no pages changes nothing.
pub proof fn lemma_map_nothing(s: AddressSpaceView, first: usize, perm: MapPermission)
    ensures
        s.map_range(first, 0, perm) == s,
{
    assert(s.map_range(first, 0, perm).mappings =~= s.mappings);
    assert(s.map_range(first, 0, perm).free =~= s.free);
}

/// Unmapping a range of no pages changes nothing.
pub proof fn lemma_unmap_nothing(s: AddressSpaceView, first: usize)
    ensures
        s.unmap_range(first, 0) == s,
{
    assert(s.unmap_range(first, 0).mappings =~= s.mappings);
    assert(s.unmap_range(first, 0).free =~= s.free);
}

/// Mapping one page more than a range maps the range that is one page longer.
pub proof fn lemma_map_range_step(s: AddressSpaceView, first: usize, count: nat, perm: MapPermission)
    requires
        count < s.free.len(),
        first + count <= usize::MAX,
    ensures
        s.map_range(first, count, perm).install_mapping((first + count) as usize, perm) == s.map_range(
            first,
            count + 1,
            perm,
        ),
{
    let left = s.map_range(first, count, perm).install_mapping((first + count) as usize, perm);
    let right = s.map_range(first, count + 1, perm);
    assert(left.mappings =~= right.mappings);
    assert(left.free =~= right.free);
}

/// Unmapping the page that was mapped last gives the range without it.
pub proof fn lemma_map_range_undo(s: AddressSpaceView, first: usize, count: nat, perm: MapPermission)
    requires
        count < s.free.len(),
        first + count <= usize::MAX,
        s.range_unmapped(first, count + 1),
    ensures
        s.map_range(first, count + 1, perm).remove_mapping((first + count) as usize) == s.map_range(
            first,
            count,
            perm,
        ),
{
    let left = s.map_range(first, count + 1, perm).remove_mapping((first + count) as usize);
    let right = s.map_range(first, count, perm);
    assert(left.mappings =~= right.mappings);
    assert(left.free =~= right.free);
}

/// Unmapping one page more than a range unmaps the range that is one page
/// longer.
pub proof fn lemma_unmap_range_step(s: AddressSpaceView, first: usize, count: nat)
    requires
        first + count <= usize::MAX,
        s.mappings.contains_key((first + count) as usize),
    ensures
        s.unmap_range(first, count).remove_mapping((first + count) as usize) == s.unmap_range(
            first,
            count + 1,
        ),
{
    let left = s.unmap_range(first, count).remove_mapping((first + count) as usize);
    let right = s.unmap_range(first, count + 1);
    assert(left.mappings =~= right.mappings);
    assert(left.free =~= right.free);
}

/// Mapping an unmapped page of the address range, while a frame is free,
/// leaves the address space well formed.
pub proof fn lemma_install_well_formed(s: AddressSpaceView, vpn: usize, perm: MapPermission)
    requires
        s.well_formed(),
        !s.mappings.contains_key(vpn),
        s.free.len() > 0,
        vpn <= MAX_PAGE_NUMBER,
        perm.user,
        perm.legal(),
    ensures
        s.install_mapping(vpn, perm).well_formed(),
{
}

/// Unmapping a mapped page leaves the address space well formed.
pub proof fn lemma_remove_well_formed(s: AddressSpaceView, vpn: usize)
    requires
        s.well_formed(),
        s.mappings.contains_key(vpn),
    ensures
        s.remove_mapping(vpn).well_formed(),
{
}

/// Mapping a range of unmapped pages of the address range, while there are
/// frames enough, leaves the address space well formed.
pub proof fn lemma_map_range_well_formed(
    s: AddressSpaceView,
    first: usize,
    count: nat,
    perm: MapPermission,
)
    requires
        s.well_formed(),
        s.range_unmapped(first, count),
        count <= s.free.len(),
        first + count <= MAX_PAGE_NUMBER + 1,
        perm.user,
        perm.legal(),
    ensures
        s.map_range(first, count, perm).well_formed(),
    decreases count,
{
    if count == 0 {
        lemma_map_nothing(s, first, perm);
    } else {
        let before = (count - 1) as nat;
        lemma_map_range_well_formed(s, first, before, perm);
        lemma_map_range_step(s, first, before, perm);
        let page = (first + before) as usize;
        lemma_install_well_formed(s.map_range(first, before, perm), page, perm);
    }
}

/// Unmapping a range of mapped pages leaves the address space well formed.
pub proof fn lemma_unmap_range_well_formed(s: AddressSpaceView, first: usize, count: nat)
    requires
        s.well_formed(),
        s.range_mapped(first, count),
        first + count <= usize::MAX + 1,
    ensures
        s.unmap_range(first, count).well_formed(),
    decreases count,
{
    if count == 0 {
        lemma_unmap_nothing(s, first);
    } else {
        let before = (count - 1) as nat;
        let page = (first + before) as usize;
        lemma_unmap_range_well_formed(s, first, before);
        lemma_unmap_range_step(s, first, before);
        lemma_remove_well_formed(s.unmap_range(first, before), page);
    }
}

} // verus!
