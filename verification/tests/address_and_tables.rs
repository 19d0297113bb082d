use hypocaust::address::{PPNRange, PhysAddr, PhysPageNum, VPNRange, VirtAddr, VirtPageNum};
use hypocaust::frame::{FrameAllocator, FrameTracker};
use hypocaust::memory::{read_le, PhysMemory};
use hypocaust::page_table::{PageTable, PageTableEntry, PTE_R, PTE_V, PTE_W, PTE_X};

#[test]
fn floor_and_ceil_of_addresses() {
    assert_eq!(VirtAddr(0).floor(), VirtPageNum(0));
    assert_eq!(VirtAddr(0).ceil(), VirtPageNum(0));
    assert_eq!(VirtAddr(0xfff).floor(), VirtPageNum(0));
    assert_eq!(VirtAddr(0xfff).ceil(), VirtPageNum(1));
    assert_eq!(VirtAddr(0x1000).floor(), VirtPageNum(1));
    assert_eq!(VirtAddr(0x1000).ceil(), VirtPageNum(1));
    assert_eq!(VirtAddr(0x1001).ceil(), VirtPageNum(2));
    assert_eq!(PhysAddr(0x8020_0123).floor(), PhysPageNum(0x80200));
    assert_eq!(PhysAddr(0x8020_0123).ceil(), PhysPageNum(0x80201));
    assert_eq!(VirtAddr(u64::MAX).floor(), VirtPageNum(0xf_ffff_ffff_ffff));
    assert_eq!(VirtAddr(u64::MAX).ceil(), VirtPageNum(0x10_0000_0000_0000));
    assert_eq!(PhysAddr(0x8020_0123).page_offset(), 0x123);
    assert!(VirtAddr(0x2000).aligned());
    assert!(!PhysAddr(0x2004).aligned());
}

#[test]
fn step_and_start_addr_of_pages() {
    let mut vpn = VirtPageNum(7);
    vpn.step();
    assert_eq!(vpn, VirtPageNum(8));
    let mut ppn = PhysPageNum(0x80200);
    ppn.step();
    assert_eq!(ppn, PhysPageNum(0x80201));
    assert_eq!(ppn.start_addr(), Some(PhysAddr(0x8020_1000)));
    assert_eq!(VirtPageNum(0x10_0000_0000_0000).start_addr(), None);
    assert_eq!(VirtPageNum(0xf_ffff_ffff_ffff).start_addr(), Some(VirtAddr(0xffff_ffff_ffff_f000)));
}

#[test]
fn ranges_keep_their_ends() {
    let r = VPNRange::new(VirtPageNum(3), VirtPageNum(9));
    assert_eq!(r.get_start(), VirtPageNum(3));
    assert_eq!(r.get_end(), VirtPageNum(9));
    let p = PPNRange::new(PhysPageNum(5), PhysPageNum(5));
    assert_eq!(p.get_start(), p.get_end());
}

#[test]
fn page_table_maps_translates_and_unmaps() {
    let mut pt = PageTable::new(PhysPageNum(0x80400));
    assert_eq!(pt.token(), 0x8000_0000_0008_0400);
    assert_eq!(pt.len(), 0);
    assert_eq!(pt.translate(VirtPageNum(1)), None);
    assert!(pt.map(VirtPageNum(1), PhysPageNum(0x100), PTE_R | PTE_W));
    let pte = pt.translate(VirtPageNum(1)).unwrap();
    assert_eq!(pte, PageTableEntry::new(PhysPageNum(0x100), PTE_R | PTE_W | PTE_V));
    assert_eq!(pte.ppn(), PhysPageNum(0x100));
    assert_eq!(pte.flags(), 0x07);
    assert!(pte.is_valid() && pte.readable() && pte.writable() && !pte.executable());
    assert_eq!(pt.len(), 1);
    pt.unmap(VirtPageNum(1));
    assert_eq!(pt.translate(VirtPageNum(1)), None);
    pt.unmap(VirtPageNum(1));
    assert_eq!(pt.len(), 0);
}

#[test]
fn page_table_never_replaces_a_translation() {
    let mut pt = PageTable::new_guest(PhysPageNum(0x80404));
    assert!(pt.map(VirtPageNum(9), PhysPageNum(0x100), PTE_R));
    assert!(!pt.map(VirtPageNum(9), PhysPageNum(0x200), PTE_X));
    assert_eq!(
        pt.translate(VirtPageNum(9)),
        Some(PageTableEntry::new(PhysPageNum(0x100), PTE_R | PTE_V))
    );
    assert_eq!(pt.len(), 1);
}

#[test]
fn frames_come_fresh_in_rising_order_and_returned_ones_first() {
    let mut frames = FrameAllocator::new(PhysPageNum(0x100), PhysPageNum(0x103));
    assert!(frames.has_available(3));
    assert!(!frames.has_available(4));
    let a = frames.frame_alloc().unwrap();
    let b = frames.frame_alloc().unwrap();
    assert_eq!(a.ppn, PhysPageNum(0x100));
    assert_eq!(b.ppn, PhysPageNum(0x101));
    frames.frame_dealloc(a);
    frames.frame_dealloc(FrameTracker { ppn: PhysPageNum(0x77) });
    assert!(frames.has_available(3));
    assert_eq!(frames.frame_alloc().unwrap().ppn, PhysPageNum(0x77));
    assert_eq!(frames.frame_alloc().unwrap().ppn, PhysPageNum(0x100));
    assert_eq!(frames.frame_alloc().unwrap().ppn, PhysPageNum(0x102));
    assert!(frames.frame_alloc().is_none());
    assert!(frames.has_available(0));
    assert!(!frames.has_available(1));
}

#[test]
fn memory_reads_and_writes_inside_its_window_only() {
    let mut mem = PhysMemory::new(0x1000, vec![0u8; 16]).unwrap();
    assert_eq!(mem.base(), 0x1000);
    assert_eq!(mem.len(), 16);
    assert!(mem.contains(0x1000, 16));
    assert!(!mem.contains(0x1000, 17));
    assert!(!mem.contains(0xfff, 1));
    assert!(mem.contains(0x1010, 0));
    let src = [1u8, 2, 3, 4, 5, 6, 7, 8, 9];
    assert!(mem.write(0x1004, &src, 1, 8));
    assert_eq!(mem.read_u8(0x1003), Some(0));
    assert_eq!(mem.read_u8(0x1004), Some(2));
    assert_eq!(mem.read_u8(0x100b), Some(9));
    assert_eq!(mem.read_u8(0x100c), Some(0));
    assert_eq!(mem.read_u8(0x1010), None);
    assert_eq!(mem.read_le(0x1004, 8), Some(0x0908_0706_0504_0302));
    assert_eq!(mem.read_le(0x1004, 2), Some(0x0302));
    assert_eq!(mem.read_le(0x1004, 0), Some(0));
    assert_eq!(mem.read_le(0x100c, 8), None);
    assert!(!mem.write(0x100c, &src, 0, 8));
    assert_eq!(mem.read_u8(0x100c), Some(0));
    assert_eq!(mem.read_u8(0x100f), Some(0));
}

#[test]
fn memory_cannot_wrap_the_address_space() {
    assert!(PhysMemory::new(u64::MAX - 3, vec![0u8; 4]).is_none());
    assert!(PhysMemory::new(u64::MAX - 4, vec![0u8; 4]).is_some());
}

#[test]
fn little_endian_values() {
    let data = [0x78u8, 0x56, 0x34, 0x12, 0xff];
    assert_eq!(read_le(&data, 0, 4), 0x1234_5678);
    assert_eq!(read_le(&data, 3, 2), 0xff12);
    assert_eq!(read_le(&data, 4, 1), 0xff);
    assert_eq!(read_le(&data, 5, 0), 0);
}
