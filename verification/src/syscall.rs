use vstd::prelude::*;
use crate::address::{PhysAddr, VirtAddr, VirtPageNum};
use crate::address_space::{
    lemma_map_range_step, lemma_map_range_undo, lemma_unmap_range_step, AddressSpace,
    AddressSpaceView,
};
use crate::config::{FAILURE, MAX_PAGE_NUMBER, PAGE_SIZE, SUCCESS};
use crate::permission::MapPermission;
use crate::time::TimeVal;

verus! {

/// How many pages it takes to hold `len` bytes: `len / PAGE_SIZE`, rounded up.
pub open spec fn pages_spanned(len: usize) -> nat {
    ((len + PAGE_SIZE - 1) / (PAGE_SIZE as int)) as nat
}

/// Whether a permission word asks for something and uses no bit but the
/// lowest three.
pub open spec fn port_well_formed(port: usize) -> bool {
    port & !0x7 == 0 && port & 0x7 != 0
}

/// The permission set that a permission word asks for: reading with bit 0,
/// writing with bit 1, executing with bit 2, and access from user mode in
/// any case.
pub open spec fn requested_permission(port: usize) -> MapPermission {
    MapPermission {
        readable: port & 1 != 0,
        writable: port & 2 != 0,
        executable: port & 4 != 0,
        user: true,
    }
}

/// Whether the region of `len` bytes from `start` on can be mapped with the
/// permissions of `port` in state `s`.
pub open spec fn mmap_accepts(s: AddressSpaceView, start: usize, len: usize, port: usize) -> bool {
    &&& port_well_formed(port)
    &&& start % PAGE_SIZE == 0
    &&& start + pages_spanned(len) * PAGE_SIZE <= usize::MAX + 1
    &&& s.range_unmapped(start / PAGE_SIZE, pages_spanned(len))
    &&& requested_permission(port).legal()
    &&& pages_spanned(len) <= s.free.len()
}

/// Whether the region of `len` bytes from `start` on can be unmapped in
/// state `s`.
pub open spec fn munmap_accepts(s: AddressSpaceView, start: usize, len: usize) -> bool {
    &&& start % PAGE_SIZE == 0
    &&& s.range_mapped(start / PAGE_SIZE, pages_spanned(len))
}

/// Whether a task in state `s` may have the time written to address `ts`:
/// the page of `ts` is mapped and the task may write it.
pub open spec fn get_time_accepts(s: AddressSpaceView, ts: usize) -> bool {
    &&& s.mappings.contains_key(ts / PAGE_SIZE)
    &&& s.mappings[ts / PAGE_SIZE].perm.writable
}

/// The physical address behind virtual address `va` in state `s`: the start
/// of the frame behind the page of `va`, plus the offset of `va` in its page.
pub open spec fn physical_address(s: AddressSpaceView, va: usize) -> int
    recommends
        s.mappings.contains_key(va / PAGE_SIZE),
{
    s.mappings[va / PAGE_SIZE].ppn.0 * PAGE_SIZE + va % PAGE_SIZE
}

/// The number of pages that a length in bytes takes.
fn page_count(len: usize) -> (count: usize)
    ensures
        count == pages_spanned(len),
        count <= MAX_PAGE_NUMBER + 1,
{
    if len % PAGE_SIZE != 0 {
        len / PAGE_SIZE + 1
    } else {
        len / PAGE_SIZE
    }
}

/// The permission set that a permission word asks for.
fn derive_permission(port: usize) -> (perm: MapPermission)
    ensures
        perm == requested_permission(port),
{
    let read = if port & 1 != 0 {
        MapPermission::read()
    } else {
        MapPermission::empty()
    };
    let write = if port & 2 != 0 {
        MapPermission::write()
    } else {
        MapPermission::empty()
    };
    let execute = if port & 4 != 0 {
        MapPermission::execute()
    } else {
        MapPermission::empty()
    };
    read.union(write).union(execute).union(MapPermission::user())
}

/// Gives up the processor. The caller suspends the task; the call itself
/// always succeeds.
pub fn sys_yield() -> (code: isize)
    ensures
        code == SUCCESS,
{
    SUCCESS
}

/// Writes the time `us`, a count of microseconds, as a `TimeVal` to address
/// `ts` of the task's memory.
///
/// The call is rejected, and nothing is written, unless the page of `ts` is
/// mapped and the task may write it. Only that page is looked up: the record
/// goes to the physical address behind `ts` and the fifteen that follow it,
/// also where `ts` is so close to the end of its page that these reach into
/// the next frame. `_tz` is accepted and ignored.
pub fn sys_get_time(space: &mut AddressSpace, ts: usize, _tz: usize, us: usize) -> (code: isize)
    requires
        old(space).wf(),
    ensures
        final(space).wf(),
        code == SUCCESS <==> get_time_accepts(old(space)@, ts),
        code == SUCCESS ==> final(space)@ == old(space)@.store(
            physical_address(old(space)@, ts),
            TimeVal::of_micros(us).wire(),
        ),
        code != SUCCESS ==> code == FAILURE && final(space)@ == old(space)@,
{
    let vaddr = VirtAddr(ts);
    match space.translate(vaddr.floor()) {
        Some(pte) => {
            if pte.writable() {
                let target = PhysAddr(pte.ppn().base().0 + vaddr.page_offset());
                let record = TimeVal::from_micros(us).to_bytes();
                space.store(target, &record);
                SUCCESS
            } else {
                FAILURE
            }
        },
        None => FAILURE,
    }
}

/// Maps the pages that hold the `len` bytes from address `start` on, each to
/// a frame of its own, with the permissions that `port` asks for and access
/// from user mode.
///
/// The call is rejected when `port` has a bit set above the lowest three or
/// none of these three, when `start` is not the start of a page, when the
/// region reaches past the last page of the address range, when one of its
/// pages is mapped already, when `port` asks for writing without reading, or
/// when there are fewer free frames than pages. A rejected call changes
/// nothing: pages that were mapped before the frames ran out are unmapped
/// again. A region of no pages is mapped by doing nothing.
pub fn sys_mmap(space: &mut AddressSpace, start: usize, len: usize, port: usize) -> (code: isize)
    requires
        old(space).wf(),
    ensures
        final(space).wf(),
        code == SUCCESS <==> mmap_accepts(old(space)@, start, len, port),
        code == SUCCESS ==> final(space)@ == old(space)@.map_range(
            start / PAGE_SIZE,
            pages_spanned(len),
            requested_permission(port),
        ),
        code != SUCCESS ==> code == FAILURE && final(space)@ == old(space)@,
        start % PAGE_SIZE != 0 ==> code == FAILURE,
        port & !0x7 != 0 || port & 0x7 == 0 ==> code == FAILURE,
{
    if port & !0x7 != 0 || port & 0x7 == 0 || !VirtAddr(start).aligned() {
        return FAILURE;
    }
    let first: usize = VirtAddr(start).floor().0;
    let count: usize = page_count(len);
    if count > MAX_PAGE_NUMBER - first + 1 {
        return FAILURE;
    }
    let mut checked: usize = 0;
    while checked < count
        invariant
            checked <= count,
            first + count <= MAX_PAGE_NUMBER + 1,
            first == start / PAGE_SIZE,
            count == pages_spanned(len),
            *space == *old(space),
            space.wf(),
            space@.range_unmapped(first, checked as nat),
        decreases count - checked,
    {
        if space.translate(VirtPageNum(first + checked)).is_some() {
            return FAILURE;
        }
        checked = checked + 1;
    }

    let perm = derive_permission(port);
    if perm.contains(MapPermission::write()) && !perm.contains(MapPermission::read()) {
        return FAILURE;
    }
    let mut mapped: usize = 0;
    while mapped < count
        invariant
            mapped <= count,
            first + count <= MAX_PAGE_NUMBER + 1,
            count == pages_spanned(len),
            old(space).wf(),
            old(space)@.range_unmapped(first, count as nat),
            perm.user,
            perm.legal(),
            space.wf(),
            mapped <= old(space)@.free.len(),
            space@ == old(space)@.map_range(first, mapped as nat, perm),
        decreases count - mapped,
    {
        if !space.install_mapping(VirtPageNum(first + mapped), perm) {
            while mapped > 0
                invariant
                    mapped <= count,
                    first + count <= MAX_PAGE_NUMBER + 1,
                    count == pages_spanned(len),
                    old(space)@.free.len() < count,
                    old(space)@.range_unmapped(first, count as nat),
                    space.wf(),
                    mapped <= old(space)@.free.len(),
                    space@ == old(space)@.map_range(first, mapped as nat, perm),
                decreases mapped,
            {
                mapped = mapped - 1;
                proof {
                    lemma_map_range_undo(old(space)@, first, mapped as nat, perm);
                }
                space.remove_mapping(VirtPageNum(first + mapped));
            }
            return FAILURE;
        }
        proof {
            lemma_map_range_step(old(space)@, first, mapped as nat, perm);
        }
        mapped = mapped + 1;
    }
    SUCCESS
}

/// Unmaps the pages that hold the `len` bytes from address `start` on and
/// frees their frames.
///
/// The call is rejected, and nothing changes, when `start` is not the start
/// of a page or one of the pages is not mapped. A region of no pages is
/// unmapped by doing nothing.
pub fn sys_munmap(space: &mut AddressSpace, start: usize, len: usize) -> (code: isize)
    requires
        old(space).wf(),
    ensures
        final(space).wf(),
        code == SUCCESS <==> munmap_accepts(old(space)@, start, len),
        code == SUCCESS ==> final(space)@ == old(space)@.unmap_range(
            start / PAGE_SIZE,
            pages_spanned(len),
        ),
        code != SUCCESS ==> code == FAILURE && final(space)@ == old(space)@,
        start % PAGE_SIZE != 0 ==> code == FAILURE,
{
    if !VirtAddr(start).aligned() {
        return FAILURE;
    }
    let first: usize = VirtAddr(start).floor().0;
    let count: usize = page_count(len);
    let mut checked: usize = 0;
    while checked < count
        invariant
            checked <= count,
            first <= MAX_PAGE_NUMBER,
            count <= MAX_PAGE_NUMBER + 1,
            first == start / PAGE_SIZE,
            count == pages_spanned(len),
            *space == *old(space),
            space.wf(),
            space@.range_mapped(first, checked as nat),
        decreases count - checked,
    {
        if space.translate(VirtPageNum(first + checked)).is_none() {
            return FAILURE;
        }
        checked = checked + 1;
    }

    let mut unmapped: usize = 0;
    while unmapped < count
        invariant
            unmapped <= count,
            first <= MAX_PAGE_NUMBER,
            count <= MAX_PAGE_NUMBER + 1,
            old(space)@.range_mapped(first, count as nat),
            space.wf(),
            space@ == old(space)@.unmap_range(first, unmapped as nat),
        decreases count - unmapped,
    {
        proof {
            lemma_unmap_range_step(old(space)@, first, unmapped as nat);
        }
        space.remove_mapping(VirtPageNum(first + unmapped));
        unmapped = unmapped + 1;
    }
    SUCCESS
}

} // verus!
