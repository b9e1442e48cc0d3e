use vstd::prelude::*;
use crate::address_space::{
    lemma_map_nothing, lemma_map_range_well_formed, lemma_unmap_nothing,
    lemma_unmap_range_well_formed, AddressSpaceView,
};
use crate::config::{MAX_PAGE_NUMBER, MICROS_PER_SEC, PAGE_SIZE};
use crate::permission::MapPermission;
use crate::syscall::{
    get_time_accepts, mmap_accepts, munmap_accepts, pages_spanned, physical_address,
    port_well_formed, requested_permission,
};
use crate::time::{lemma_wire_round_trip, TimeVal, TIMEVAL_SIZE};

verus! {

/// The permission words that are well formed are the numbers 1 to 7, and a
/// word asks for reading when it is odd, for writing when its second bit is
/// set, for executing when it is 4 or more.
pub proof fn theorem_port_as_number(port: usize)
    ensures
        port_well_formed(port) <==> 1 <= port <= 7,
        port_well_formed(port) ==> requested_permission(port) == (MapPermission {
            readable: port % 2 == 1,
            writable: (port / 2) % 2 == 1,
            executable: port >= 4,
            user: true,
        }),
{
    assert((port & !0x7 == 0 && port & 0x7 != 0) <==> 1 <= port <= 7) by (bit_vector);
    assert(1 <= port <= 7 ==> ((port & 1 != 0) <==> port % 2 == 1)) by (bit_vector);
    assert(1 <= port <= 7 ==> ((port & 2 != 0) <==> (port / 2) % 2 == 1)) by (bit_vector);
    assert(1 <= port <= 7 ==> ((port & 4 != 0) <==> port >= 4)) by (bit_vector);
}

/// A region that does not start at the start of a page can be neither mapped
/// nor unmapped, whatever its length, the permissions asked for and the
/// state of the address space.
pub proof fn theorem_unaligned_start_rejected(
    s: AddressSpaceView,
    start: usize,
    len: usize,
    port: usize,
)
    requires
        start % PAGE_SIZE != 0,
    ensures
        !mmap_accepts(s, start, len, port),
        !munmap_accepts(s, start, len),
{
}

/// A permission word with a bit above the lowest three, or with none of
/// these three, maps nothing, wherever the region lies.
pub proof fn theorem_malformed_port_rejected(
    s: AddressSpaceView,
    start: usize,
    len: usize,
    port: usize,
)
    requires
        port & !0x7 != 0 || port & 0x7 == 0,
    ensures
        !mmap_accepts(s, start, len, port),
{
}

/// A permission word that asks for writing without reading maps nothing.
pub proof fn theorem_write_only_rejected(
    s: AddressSpaceView,
    start: usize,
    len: usize,
    port: usize,
)
    requires
        port & 2 != 0,
        port & 1 == 0,
    ensures
        !mmap_accepts(s, start, len, port),
{
}

/// A region of no bytes can be mapped wherever it starts at the start of a
/// page and the permissions are in order, and unmapped wherever it starts at
/// the start of a page; neither changes anything.
pub proof fn theorem_empty_region(s: AddressSpaceView, start: usize, port: usize)
    requires
        start % PAGE_SIZE == 0,
    ensures
        pages_spanned(0) == 0,
        mmap_accepts(s, start, 0, port) <==> port_well_formed(port) && requested_permission(
            port,
        ).legal(),
        munmap_accepts(s, start, 0),
        s.map_range(start / PAGE_SIZE, 0, requested_permission(port)) == s,
        s.unmap_range(start / PAGE_SIZE, 0) == s,
{
    lemma_map_nothing(s, start / PAGE_SIZE, requested_permission(port));
    lemma_unmap_nothing(s, start / PAGE_SIZE);
}

/// The pages of a region that starts at the start of a page and ends within
/// the address range have numbers up to the highest page number.
pub proof fn lemma_region_in_address_range(start: usize, len: usize)
    requires
        start % PAGE_SIZE == 0,
        start + pages_spanned(len) * PAGE_SIZE <= usize::MAX + 1,
    ensures
        start / PAGE_SIZE + pages_spanned(len) <= MAX_PAGE_NUMBER + 1,
{
}

/// After a region was mapped, each of its pages has an entry with the
/// permissions that were asked for and a frame that was free before, no
/// two pages share a frame, every other page is as it was, and the address
/// space is well formed.
pub proof fn theorem_mmap_result(s: AddressSpaceView, start: usize, len: usize, port: usize)
    requires
        s.well_formed(),
        mmap_accepts(s, start, len, port),
    ensures
        ({
            let first = start / PAGE_SIZE;
            let count = pages_spanned(len);
            let after = s.map_range(first, count, requested_permission(port));
            &&& after.well_formed()
            &&& after.free.len() == s.free.len() - count
            &&& after.memory == s.memory
            &&& forall|vpn: usize|
                AddressSpaceView::in_range(vpn, first, count) ==> {
                    &&& #[trigger] after.mappings.contains_key(vpn)
                    &&& after.mappings[vpn].perm == requested_permission(port)
                    &&& s.free.contains(after.mappings[vpn].ppn.0)
                }
            &&& forall|vpn: usize|
                !AddressSpaceView::in_range(vpn, first, count) ==> {
                    &&& #[trigger] after.mappings.contains_key(vpn) == s.mappings.contains_key(vpn)
                    &&& s.mappings.contains_key(vpn) ==> after.mappings[vpn] == s.mappings[vpn]
                }
        }),
{
    let first = start / PAGE_SIZE;
    let count = pages_spanned(len);
    lemma_region_in_address_range(start, len);
    lemma_map_range_well_formed(s, first, count, requested_permission(port));
}

/// After a region was unmapped, none of its pages has an entry, every other
/// page is as it was, the frames of the region are free again, and the
/// address space is well formed.
pub proof fn theorem_munmap_result(s: AddressSpaceView, start: usize, len: usize)
    requires
        s.well_formed(),
        munmap_accepts(s, start, len),
    ensures
        ({
            let first = start / PAGE_SIZE;
            let count = pages_spanned(len);
            let after = s.unmap_range(first, count);
            &&& after.well_formed()
            &&& after.free.len() == s.free.len() + count
            &&& after.memory == s.memory
            &&& forall|vpn: usize|
                AddressSpaceView::in_range(vpn, first, count) ==> {
                    &&& !#[trigger] after.mappings.contains_key(vpn)
                    &&& after.free.contains(s.mappings[vpn].ppn.0)
                }
            &&& forall|vpn: usize|
                !AddressSpaceView::in_range(vpn, first, count) ==> {
                    &&& #[trigger] after.mappings.contains_key(vpn) == s.mappings.contains_key(vpn)
                    &&& s.mappings.contains_key(vpn) ==> after.mappings[vpn] == s.mappings[vpn]
                }
        }),
{
    let first = start / PAGE_SIZE;
    let count = pages_spanned(len);
    let after = s.unmap_range(first, count);
    lemma_unmap_range_well_formed(s, first, count);
    assert forall|vpn: usize| AddressSpaceView::in_range(vpn, first, count) implies {
        &&& !#[trigger] after.mappings.contains_key(vpn)
        &&& after.free.contains(s.mappings[vpn].ppn.0)
    } by {
        let i = s.free.len() + (vpn - first);
        assert(after.free[i] == s.mappings[vpn].ppn.0);
    }
}

/// Once a region is mapped, no region that shares a page with it can be
/// mapped, whatever permissions are asked for: a second call with the same
/// arguments is rejected.
pub proof fn theorem_overlap_rejected(
    s: AddressSpaceView,
    start: usize,
    len: usize,
    port: usize,
    vpn: usize,
    other_start: usize,
    other_len: usize,
    other_port: usize,
)
    requires
        AddressSpaceView::in_range(vpn, start / PAGE_SIZE, pages_spanned(len)),
        AddressSpaceView::in_range(
            vpn,
            other_start / PAGE_SIZE,
            pages_spanned(other_len),
        ),
    ensures
        !mmap_accepts(
            s.map_range(
                start / PAGE_SIZE,
                pages_spanned(len),
                requested_permission(port),
            ),
            other_start,
            other_len,
            other_port,
        ),
{
    let after = s.map_range(
        start / PAGE_SIZE,
        pages_spanned(len),
        requested_permission(port),
    );
    assert(after.mappings.contains_key(vpn));
}

/// A region with a page that is not mapped cannot be unmapped: so a region
/// of at least one byte that was never mapped, or was unmapped already.
pub proof fn theorem_gap_rejected(
    s: AddressSpaceView,
    start: usize,
    len: usize,
    vpn: usize,
)
    requires
        AddressSpaceView::in_range(vpn, start / PAGE_SIZE, pages_spanned(len)),
        !s.mappings.contains_key(vpn),
    ensures
        !munmap_accepts(s, start, len),
{
}

/// A region that was mapped can be unmapped, which gives every page the
/// entry it had before the region was mapped, and can then be mapped again
/// with the same arguments; after that its pages are mapped with the
/// permissions asked for.
pub proof fn theorem_map_unmap_map(s: AddressSpaceView, start: usize, len: usize, port: usize)
    requires
        s.well_formed(),
        mmap_accepts(s, start, len, port),
    ensures
        ({
            let first = start / PAGE_SIZE;
            let count = pages_spanned(len);
            let perm = requested_permission(port);
            let mapped = s.map_range(first, count, perm);
            let unmapped = mapped.unmap_range(first, count);
            let again = unmapped.map_range(first, count, perm);
            &&& munmap_accepts(mapped, start, len)
            &&& unmapped.well_formed()
            &&& unmapped.mappings == s.mappings
            &&& unmapped.free.len() == s.free.len()
            &&& mmap_accepts(unmapped, start, len, port)
            &&& again.well_formed()
            &&& forall|vpn: usize|
                AddressSpaceView::in_range(vpn, first, count) ==> {
                    &&& #[trigger] again.mappings.contains_key(vpn)
                    &&& again.mappings[vpn].perm == perm
                }
        }),
{
    let first = start / PAGE_SIZE;
    let count = pages_spanned(len);
    let perm = requested_permission(port);
    let mapped = s.map_range(first, count, perm);
    let unmapped = mapped.unmap_range(first, count);
    theorem_mmap_result(s, start, len, port);
    theorem_munmap_result(mapped, start, len);
    theorem_mmap_result(unmapped, start, len, port);
}

/// The permission word 3 asks for reading and writing, and nothing else but
/// access from user mode.
pub proof fn theorem_read_write_port()
    ensures
        port_well_formed(3),
        requested_permission(3) == (MapPermission {
            readable: true,
            writable: true,
            executable: false,
            user: true,
        }),
        requested_permission(3).legal(),
{
    theorem_port_as_number(3);
}

/// Once a region is mapped with permission to write, the time can be
/// delivered to every address in it.
pub proof fn theorem_mapped_region_takes_time(
    s: AddressSpaceView,
    start: usize,
    len: usize,
    port: usize,
    ts: usize,
)
    requires
        mmap_accepts(s, start, len, port),
        port & 2 != 0,
        start <= ts < start + pages_spanned(len) * PAGE_SIZE,
    ensures
        get_time_accepts(
            s.map_range(
                start / PAGE_SIZE,
                pages_spanned(len),
                requested_permission(port),
            ),
            ts,
        ),
{
    let first = start / PAGE_SIZE;
    assert(AddressSpaceView::in_range(ts / PAGE_SIZE, first, pages_spanned(len)));
}

/// The time cannot be delivered to an address whose page is not mapped or
/// may not be written.
pub proof fn theorem_unsafe_destination_rejected(s: AddressSpaceView, ts: usize)
    requires
        !s.mappings.contains_key(ts / PAGE_SIZE) || !s.mappings[ts / PAGE_SIZE].perm.writable,
    ensures
        !get_time_accepts(s, ts),
{
}

/// Where the time is delivered, the record lies within physical memory,
/// reads back as the seconds and microseconds of the count that was given,
/// with fewer than a million microseconds, and no mapping and no free frame
/// has changed.
pub proof fn theorem_delivered_time(s: AddressSpaceView, ts: usize, us: usize)
    requires
        s.well_formed(),
        get_time_accepts(s, ts),
    ensures
        ({
            let pa = physical_address(s, ts);
            let time = TimeVal::of_micros(us);
            let after = s.store(pa, time.wire());
            &&& pa == s.mappings[ts / PAGE_SIZE].ppn.0 * PAGE_SIZE + ts % PAGE_SIZE
            &&& pa + TIMEVAL_SIZE <= s.memory.len()
            &&& after.well_formed()
            &&& after.mappings == s.mappings
            &&& after.free == s.free
            &&& TimeVal::of_wire(after.load(pa, TIMEVAL_SIZE as nat)) == time
            &&& time.sec * MICROS_PER_SEC + time.usec == us
            &&& 0 <= time.usec < MICROS_PER_SEC
        }),
{
    let pa = physical_address(s, ts);
    let time = TimeVal::of_micros(us);
    let after = s.store(pa, time.wire());
    lemma_wire_round_trip(time);
    assert(after.load(pa, TIMEVAL_SIZE as nat) =~= time.wire());
}

/// Where the record fits between its address and the end of the page, the
/// delivery changes bytes of the frame behind that page only.
pub proof fn theorem_record_stays_in_frame(s: AddressSpaceView, ts: usize, us: usize, at: int)
    requires
        s.well_formed(),
        get_time_accepts(s, ts),
        ts % PAGE_SIZE + TIMEVAL_SIZE <= PAGE_SIZE,
        0 <= at < s.memory.len(),
        at / (PAGE_SIZE as int) != s.mappings[ts / PAGE_SIZE].ppn.0,
    ensures
        s.store(physical_address(s, ts), TimeVal::of_micros(us).wire()).memory[at] == s.memory[at],
{
    theorem_delivered_time(s, ts, us);
    lemma_wire_round_trip(TimeVal::of_micros(us));
}

} // verus!
