use vm_syscall::{
    AddressSpace, MapPermission, PhysAddr, PhysPageNum, TimeVal, VirtAddr, VirtPageNum, FAILURE,
    MAX_PAGE_NUMBER, MICROS_PER_SEC, PAGE_SIZE, SUCCESS, TIMEVAL_SIZE,
};

#[test]
fn constants_have_their_values() {
    assert_eq!(PAGE_SIZE, 4096);
    assert_eq!(MAX_PAGE_NUMBER, usize::MAX / 4096);
    assert_eq!(SUCCESS, 0);
    assert_eq!(FAILURE, -1);
    assert_eq!(MICROS_PER_SEC, 1_000_000);
    assert_eq!(TIMEVAL_SIZE, 16);
}

#[test]
fn virtual_address_splits_into_page_and_offset() {
    for a in [0usize, 1, 4095, 4096, 4097, 0x1234_5678, usize::MAX - 4096, usize::MAX] {
        let va = VirtAddr(a);
        assert_eq!(va.floor(), VirtPageNum(a / 4096));
        assert_eq!(va.page_offset(), a % 4096);
        assert!(va.page_offset() < PAGE_SIZE);
        assert_eq!(va.floor().0 * PAGE_SIZE + va.page_offset(), a);
        assert_eq!(va.floor().base().0 + va.page_offset(), a);
        assert_eq!(va.aligned(), a % 4096 == 0);
    }
    assert_eq!(VirtAddr(0x1fff).floor(), VirtPageNum(1));
    assert_eq!(VirtAddr(0x1fff).page_offset(), 0xfff);
    assert_eq!(VirtAddr(0x2000).floor(), VirtPageNum(2));
    assert_eq!(VirtAddr(0x2000).page_offset(), 0);
}

#[test]
fn physical_address_splits_into_frame_and_offset() {
    for a in [0usize, 1, 4095, 4096, 4097, 0x8020_0abc, usize::MAX] {
        let pa = PhysAddr(a);
        assert_eq!(pa.floor(), PhysPageNum(a / 4096));
        assert_eq!(pa.page_offset(), a % 4096);
        assert_eq!(pa.floor().base().0 + pa.page_offset(), a);
    }
    assert_eq!(PhysPageNum(3).base(), PhysAddr(0x3000));
    assert_eq!(VirtPageNum(0x10000).base(), VirtAddr(0x10000000));
    assert_eq!(PhysPageNum(MAX_PAGE_NUMBER).base(), PhysAddr(usize::MAX - 4095));
}

#[test]
fn permission_sets_unite_and_contain() {
    let none = MapPermission::empty();
    let r = MapPermission::read();
    let w = MapPermission::write();
    let x = MapPermission::execute();
    let u = MapPermission::user();
    assert_eq!(
        none,
        MapPermission { readable: false, writable: false, executable: false, user: false }
    );
    assert_eq!(r, MapPermission { readable: true, writable: false, executable: false, user: false });
    assert_eq!(w, MapPermission { readable: false, writable: true, executable: false, user: false });
    assert_eq!(x, MapPermission { readable: false, writable: false, executable: true, user: false });
    assert_eq!(u, MapPermission { readable: false, writable: false, executable: false, user: true });
    let rw = r.union(w);
    assert_eq!(
        rw,
        MapPermission { readable: true, writable: true, executable: false, user: false }
    );
    assert_eq!(r.union(none), r);
    assert_eq!(none.union(none), none);
    assert_eq!(rw.union(x).union(u), u.union(x).union(w).union(r));
    assert!(rw.contains(r));
    assert!(rw.contains(w));
    assert!(rw.contains(rw));
    assert!(rw.contains(none));
    assert!(!rw.contains(x));
    assert!(!rw.contains(u));
    assert!(!r.contains(rw));
    assert!(none.contains(none));
    assert!(!none.contains(u));
}

#[test]
fn time_splits_microseconds() {
    assert_eq!(TimeVal::from_micros(0), TimeVal { sec: 0, usec: 0 });
    assert_eq!(TimeVal::from_micros(999_999), TimeVal { sec: 0, usec: 999_999 });
    assert_eq!(TimeVal::from_micros(1_000_000), TimeVal { sec: 1, usec: 0 });
    assert_eq!(TimeVal::from_micros(3_723_000_125), TimeVal { sec: 3723, usec: 125 });
    let top = TimeVal::from_micros(usize::MAX);
    assert_eq!(top.sec, usize::MAX / 1_000_000);
    assert_eq!(top.usec, usize::MAX % 1_000_000);
}

#[test]
fn time_bytes_are_seconds_then_microseconds() {
    let time = TimeVal { sec: 0x0102_0304_0506_0708, usec: 0x1122_3344 };
    let bytes = time.to_bytes();
    assert_eq!(
        bytes,
        vec![8, 7, 6, 5, 4, 3, 2, 1, 0x44, 0x33, 0x22, 0x11, 0, 0, 0, 0]
    );
    assert_eq!(TimeVal { sec: 0, usec: 0 }.to_bytes(), vec![0u8; 16]);
    assert_eq!(TimeVal { sec: 1, usec: 2 }.to_bytes().len(), TIMEVAL_SIZE);
    assert_eq!(
        TimeVal { sec: usize::MAX, usec: 255 }.to_bytes(),
        vec![255, 255, 255, 255, 255, 255, 255, 255, 255, 0, 0, 0, 0, 0, 0, 0]
    );
}

#[test]
fn time_reads_back_from_its_bytes() {
    for time in [
        TimeVal { sec: 0, usec: 0 },
        TimeVal { sec: 1, usec: 2 },
        TimeVal { sec: 1_700_000_000, usec: 999_999 },
        TimeVal { sec: usize::MAX, usec: usize::MAX },
    ] {
        assert_eq!(TimeVal::from_bytes(&time.to_bytes()), Some(time));
    }
    let bytes = [9u8, 0, 0, 0, 0, 0, 0, 0, 1, 1, 0, 0, 0, 0, 0, 0];
    assert_eq!(TimeVal::from_bytes(&bytes), Some(TimeVal { sec: 9, usec: 257 }));
    assert_eq!(TimeVal::from_bytes(&bytes[..15]), None);
    assert_eq!(TimeVal::from_bytes(&[0u8; 17]), None);
    assert_eq!(TimeVal::from_bytes(&[]), None);
}

#[test]
fn new_address_space_is_empty_and_zeroed() {
    let space = AddressSpace::new(3);
    assert_eq!(space.free_frames(), 3);
    for vpn in [0usize, 1, 2, 3, 0x10000, MAX_PAGE_NUMBER, usize::MAX] {
        assert_eq!(space.translate(VirtPageNum(vpn)), None);
    }
    let memory = space.load(PhysAddr(0), 4 * PAGE_SIZE).unwrap();
    assert_eq!(memory, vec![0u8; 4 * PAGE_SIZE]);
    let none = AddressSpace::new(0);
    assert_eq!(none.free_frames(), 0);
    assert_eq!(none.load(PhysAddr(0), PAGE_SIZE).unwrap(), vec![0u8; PAGE_SIZE]);
}

#[test]
fn load_is_bounded_by_physical_memory() {
    let space = AddressSpace::new(1);
    assert_eq!(space.load(PhysAddr(0), 0), Some(vec![]));
    assert_eq!(space.load(PhysAddr(2 * PAGE_SIZE), 0), Some(vec![]));
    assert_eq!(space.load(PhysAddr(2 * PAGE_SIZE - 1), 1), Some(vec![0]));
    assert_eq!(space.load(PhysAddr(2 * PAGE_SIZE), 1), None);
    assert_eq!(space.load(PhysAddr(2 * PAGE_SIZE + 1), 0), None);
    assert_eq!(space.load(PhysAddr(usize::MAX), 1), None);
    assert_eq!(space.load(PhysAddr(1), usize::MAX), None);
    assert_eq!(space.load(PhysAddr(usize::MAX), usize::MAX), None);
}
