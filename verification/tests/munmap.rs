use vm_syscall::{sys_get_time, sys_mmap, sys_munmap, AddressSpace, VirtPageNum};

fn mapped(space: &AddressSpace, vpn: usize) -> bool {
    space.translate(VirtPageNum(vpn)).is_some()
}

#[test]
fn munmap_never_mapped_region_fails() {
    let mut space = AddressSpace::new(8);
    assert_eq!(sys_munmap(&mut space, 0x1000, 4096), -1);
    assert_eq!(sys_munmap(&mut space, 0x1000, 1), -1);
    assert_eq!(space.free_frames(), 8);
}

#[test]
fn munmap_unaligned_start_fails() {
    let mut space = AddressSpace::new(8);
    assert_eq!(sys_mmap(&mut space, 0x1000, 2 * 4096, 0x3), 0);
    for start in [0x1001usize, 0x1800, 0x1fff, 1, usize::MAX] {
        for len in [0usize, 1, 4096, 8192] {
            assert_eq!(sys_munmap(&mut space, start, len), -1);
        }
    }
    assert!(mapped(&space, 1));
    assert!(mapped(&space, 2));
    assert_eq!(space.free_frames(), 6);
}

#[test]
fn munmap_mapped_region_succeeds() {
    let mut space = AddressSpace::new(8);
    assert_eq!(sys_mmap(&mut space, 0x1000, 4096, 0x3), 0);
    assert_eq!(sys_munmap(&mut space, 0x1000, 4096), 0);
    assert!(!mapped(&space, 1));
    assert_eq!(space.free_frames(), 8);
    assert_eq!(sys_munmap(&mut space, 0x1000, 4096), -1);
    assert_eq!(sys_get_time(&mut space, 0x1000, 0, 1), -1);
}

#[test]
fn munmap_with_a_gap_fails_and_removes_nothing() {
    let mut space = AddressSpace::new(8);
    assert_eq!(sys_mmap(&mut space, 0x1000, 4096, 0x3), 0);
    assert_eq!(sys_mmap(&mut space, 0x3000, 4096, 0x3), 0);
    assert_eq!(sys_munmap(&mut space, 0x1000, 3 * 4096), -1);
    assert!(mapped(&space, 1));
    assert!(!mapped(&space, 2));
    assert!(mapped(&space, 3));
    assert_eq!(space.free_frames(), 6);
    assert_eq!(sys_munmap(&mut space, 0x1000, 2 * 4096), -1);
    assert_eq!(sys_munmap(&mut space, 0x2000, 2 * 4096), -1);
    assert_eq!(sys_munmap(&mut space, 0x0, 2 * 4096), -1);
    assert_eq!(space.free_frames(), 6);
}

#[test]
fn munmap_rounds_length_up_to_pages() {
    let mut space = AddressSpace::new(8);
    assert_eq!(sys_mmap(&mut space, 0x1000, 4 * 4096, 0x1), 0);
    assert_eq!(sys_munmap(&mut space, 0x1000, 1), 0);
    assert!(!mapped(&space, 1));
    assert!(mapped(&space, 2));
    assert_eq!(sys_munmap(&mut space, 0x2000, 4097), 0);
    assert!(!mapped(&space, 2));
    assert!(!mapped(&space, 3));
    assert!(mapped(&space, 4));
    assert_eq!(space.free_frames(), 7);
    assert_eq!(sys_munmap(&mut space, 0x4000, 4097), -1);
    assert!(mapped(&space, 4));
}

#[test]
fn munmap_part_of_a_region_leaves_the_rest() {
    let mut space = AddressSpace::new(8);
    assert_eq!(sys_mmap(&mut space, 0x10000, 3 * 4096, 0x7), 0);
    let before = space.translate(VirtPageNum(0x12)).unwrap();
    assert_eq!(sys_munmap(&mut space, 0x11000, 4096), 0);
    assert!(mapped(&space, 0x10));
    assert!(!mapped(&space, 0x11));
    assert_eq!(space.translate(VirtPageNum(0x12)), Some(before));
    assert_eq!(sys_mmap(&mut space, 0x11000, 4096, 0x1), 0);
    let again = space.translate(VirtPageNum(0x11)).unwrap();
    assert_eq!(again.ppn().0, 1);
    assert!(again.readable());
    assert!(!again.writable());
}

#[test]
fn munmap_of_no_bytes_succeeds_and_removes_nothing() {
    let mut space = AddressSpace::new(2);
    assert_eq!(sys_munmap(&mut space, 0x1000, 0), 0);
    assert_eq!(sys_mmap(&mut space, 0x1000, 4096, 0x3), 0);
    assert_eq!(sys_munmap(&mut space, 0x1000, 0), 0);
    assert!(mapped(&space, 1));
    assert_eq!(space.free_frames(), 1);
}

#[test]
fn munmap_past_the_end_of_the_address_range_fails() {
    let mut space = AddressSpace::new(2);
    let last_page = usize::MAX - 4095;
    assert_eq!(sys_mmap(&mut space, last_page, 4096, 0x3), 0);
    assert_eq!(sys_munmap(&mut space, last_page, 2 * 4096), -1);
    assert_eq!(sys_munmap(&mut space, last_page, usize::MAX), -1);
    assert!(mapped(&space, usize::MAX / 4096));
    assert_eq!(sys_munmap(&mut space, last_page, 4096), 0);
    assert!(!mapped(&space, usize::MAX / 4096));
}
