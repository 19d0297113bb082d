use hypocaust::address::{PhysAddr, PhysPageNum, VirtAddr, VirtPageNum};
use hypocaust::constants::{MEMORY_END, TRAMPOLINE, TRAP_CONTEXT};
use hypocaust::frame::FrameAllocator;
use hypocaust::machine::{Device, KernelLayout, MachineMeta};
use hypocaust::memory::PhysMemory;
use hypocaust::csr::Csrs;
use hypocaust::mm::map_area::{MapArea, MapPermission, MapType, MAP_PERM_R, MAP_PERM_U, MAP_PERM_W, MAP_PERM_X};
use hypocaust::mm::memory_set::{remap_test, GuestMemorySet, HostMemorySet};
use hypocaust::mm::region::MemorySetError;
use hypocaust::page_table::{PageTable, PageTableEntry};

const TRAMPOLINE_VPN: u64 = 0xf_ffff_ffff_ffff;

fn no_frames() -> FrameAllocator {
    FrameAllocator::empty()
}

fn machine() -> MachineMeta {
    MachineMeta {
        physical_memory_offset: 0x8000_0000,
        physical_memory_size: 0x800_0000,
        virtio: vec![
            Device { base_address: 0x1000_1000, size: 0x1000 },
            Device { base_address: 0x1000_2000, size: 0x1000 },
        ],
        test_finisher_address: Some(Device { base_address: 0x10_0000, size: 0x1000 }),
        uart: Some(Device { base_address: 0x1000_0000, size: 0x100 }),
        clint: Some(Device { base_address: 0x200_0000, size: 0x1_0000 }),
        plic: Some(Device { base_address: 0xc00_0000, size: 0x60_0000 }),
        pci: None,
    }
}

fn layout() -> KernelLayout {
    KernelLayout {
        stext: 0x8020_0000,
        etext: 0x8020_5000,
        srodata: 0x8020_5000,
        erodata: 0x8020_7000,
        sdata: 0x8020_7000,
        edata: 0x8020_8000,
        sbss_with_stack: 0x8020_8000,
        ebss: 0x8021_8000,
        ekernel: 0x8021_8000,
        strampoline: 0x8020_1000,
    }
}

fn linear(start_va: u64, end_va: u64, start_pa: u64, end_pa: u64, perm: u8) -> MapArea {
    MapArea::new(
        VirtAddr(start_va),
        VirtAddr(end_va),
        Some(PhysAddr(start_pa)),
        Some(PhysAddr(end_pa)),
        MapType::Linear,
        MapPermission::from_bits(perm),
    )
}

fn shape(area: &MapArea) -> (u64, u64, Option<(u64, u64)>, MapType, u8) {
    (
        area.vpn_range.get_start().0,
        area.vpn_range.get_end().0,
        area.ppn_range.map(|p| (p.get_start().0, p.get_end().0)),
        area.map_type,
        area.map_perm.bits(),
    )
}

fn identity(start: u64, end: u64, perm: u8) -> (u64, u64, Option<(u64, u64)>, MapType, u8) {
    let l = start / 4096;
    let r = (end + 4095) / 4096;
    (l, r, Some((l, r)), MapType::Linear, perm)
}

#[test]
fn permission_bits() {
    assert_eq!((MAP_PERM_R, MAP_PERM_W, MAP_PERM_X, MAP_PERM_U), (2, 4, 8, 16));
    let rw = MapPermission::from_bits(MAP_PERM_R).union(MapPermission::from_bits(MAP_PERM_W));
    assert_eq!(rw.bits(), 6);
    assert!(rw.contains(MapPermission::from_bits(MAP_PERM_W)));
    assert!(!rw.contains(MapPermission::from_bits(MAP_PERM_X)));
}

#[test]
fn new_area_takes_the_pages_that_the_addresses_touch() {
    let area = linear(0x1234, 0x5001, 0x8000_0000, 0x8000_4001, 6);
    assert_eq!(shape(&area), (1, 6, Some((0x80000, 0x80005)), MapType::Linear, 6));
    assert!(area.data_frames.is_empty());
    let framed = MapArea::new(
        VirtAddr(0x3000),
        VirtAddr(0x3000),
        None,
        None,
        MapType::Framed,
        MapPermission::from_bits(2),
    );
    assert_eq!(shape(&framed), (3, 3, None, MapType::Framed, 2));
    let half = MapArea::new(
        VirtAddr(0),
        VirtAddr(1),
        Some(PhysAddr(0)),
        None,
        MapType::Framed,
        MapPermission::from_bits(2),
    );
    assert_eq!(half.ppn_range, None);
}

#[test]
fn linear_area_maps_each_page_at_the_same_distance() {
    let mut pt = PageTable::new(PhysPageNum(1));
    let mut frames = no_frames();
    let mut area = linear(0x1_0000, 0x1_3000, 0x8000_0000, 0x8000_3000, MAP_PERM_R | MAP_PERM_X);
    area.map(&mut pt, &mut frames);
    assert_eq!(pt.len(), 3);
    for i in 0..3u64 {
        assert_eq!(
            pt.translate(VirtPageNum(0x10 + i)),
            Some(PageTableEntry::new(PhysPageNum(0x80000 + i), 0x0b))
        );
    }
    assert_eq!(pt.translate(VirtPageNum(0x13)), None);
    assert!(area.data_frames.is_empty());
    area.unmap(&mut pt, &mut frames);
    assert_eq!(pt.len(), 0);
}

#[test]
fn linear_area_leaves_mapped_pages_alone() {
    let mut pt = PageTable::new(PhysPageNum(1));
    let mut frames = no_frames();
    assert!(pt.map(VirtPageNum(0x11), PhysPageNum(0x999), 0x02));
    let mut area = linear(0x1_0000, 0x1_3000, 0x8000_0000, 0x8000_3000, MAP_PERM_R);
    area.map(&mut pt, &mut frames);
    assert_eq!(pt.translate(VirtPageNum(0x10)).unwrap().ppn(), PhysPageNum(0x80000));
    assert_eq!(pt.translate(VirtPageNum(0x11)).unwrap().ppn(), PhysPageNum(0x999));
    assert_eq!(pt.translate(VirtPageNum(0x12)).unwrap().ppn(), PhysPageNum(0x80002));
}

#[test]
fn empty_linear_area_maps_nothing() {
    let mut pt = PageTable::new(PhysPageNum(1));
    let mut frames = no_frames();
    let mut area = linear(0xc00_0000, 0xc00_0000, 0xc00_0000, 0xc00_0000, MAP_PERM_R);
    assert_eq!(shape(&area), (0xc000, 0xc000, Some((0xc000, 0xc000)), MapType::Linear, 2));
    area.map(&mut pt, &mut frames);
    assert_eq!(pt.len(), 0);
}

#[test]
fn map_one_and_unmap_one() {
    let mut pt = PageTable::new(PhysPageNum(1));
    let mut frames = FrameAllocator::new(PhysPageNum(0x500), PhysPageNum(0x502));
    let mut area = linear(0, 0x2000, 0, 0x2000, MAP_PERM_W);
    area.map_one(&mut pt, &mut frames, VirtPageNum(7), Some(PhysPageNum(0x70)));
    assert_eq!(pt.translate(VirtPageNum(7)), Some(PageTableEntry::new(PhysPageNum(0x70), 5)));
    assert!(frames.has_available(2));
    area.unmap_one(&mut pt, &mut frames, VirtPageNum(7));
    assert_eq!(pt.translate(VirtPageNum(7)), None);
    let mut framed = MapArea::new(
        VirtAddr(0x9000),
        VirtAddr(0xb000),
        None,
        None,
        MapType::Framed,
        MapPermission::from_bits(MAP_PERM_R | MAP_PERM_W),
    );
    framed.map_one(&mut pt, &mut frames, VirtPageNum(9), None);
    assert_eq!(pt.translate(VirtPageNum(9)), Some(PageTableEntry::new(PhysPageNum(0x500), 7)));
    assert_eq!(framed.data_frames.get(&9).unwrap().ppn, PhysPageNum(0x500));
    assert!(!frames.has_available(2));
    framed.unmap_one(&mut pt, &mut frames, VirtPageNum(9));
    assert_eq!(pt.translate(VirtPageNum(9)), None);
    assert!(framed.data_frames.is_empty());
    assert!(frames.has_available(2));
    assert_eq!(frames.frame_alloc().unwrap().ppn, PhysPageNum(0x500));
}

#[test]
fn framed_area_holds_one_frame_for_each_page() {
    let mut pt = PageTable::new(PhysPageNum(1));
    let mut frames = FrameAllocator::new(PhysPageNum(0x500), PhysPageNum(0x510));
    let mut area = MapArea::new(
        VirtAddr(0x9000),
        VirtAddr(0xc001),
        None,
        None,
        MapType::Framed,
        MapPermission::from_bits(MAP_PERM_R | MAP_PERM_W),
    );
    area.map(&mut pt, &mut frames);
    assert_eq!(area.data_frames.len(), 4);
    assert_eq!(area.data_frames.len() as u64, area.vpn_range.get_end().0 - area.vpn_range.get_start().0);
    for i in 0..4u64 {
        let frame = area.data_frames.get(&(9 + i)).unwrap();
        assert_eq!(frame.ppn, PhysPageNum(0x500 + i));
        assert_eq!(pt.translate(VirtPageNum(9 + i)), Some(PageTableEntry::new(frame.ppn, 7)));
    }
    assert!(frames.has_available(12));
    assert!(!frames.has_available(13));
    area.unmap(&mut pt, &mut frames);
    assert!(area.data_frames.is_empty());
    assert_eq!(pt.len(), 0);
    assert!(frames.has_available(16));
    assert_eq!(frames.frame_alloc().unwrap().ppn, PhysPageNum(0x503));
}

#[test]
fn copy_data_fills_the_frames_page_by_page() {
    let mut pt = PageTable::new(PhysPageNum(1));
    let mut frames = FrameAllocator::new(PhysPageNum(0x80000), PhysPageNum(0x80008));
    let a = frames.frame_alloc().unwrap();
    frames.frame_dealloc(a);
    let mut mem = PhysMemory::new(0x8000_0000, vec![0xeeu8; 0x8000]).unwrap();
    let mut area = MapArea::new(
        VirtAddr(0x4000),
        VirtAddr(0x6000),
        None,
        None,
        MapType::Framed,
        MapPermission::from_bits(MAP_PERM_R),
    );
    area.map(&mut pt, &mut frames);
    assert_eq!(pt.translate(VirtPageNum(4)).unwrap().ppn(), PhysPageNum(0x80000));
    assert_eq!(pt.translate(VirtPageNum(5)).unwrap().ppn(), PhysPageNum(0x80001));
    let data: Vec<u8> = (0..5000u32).map(|i| (i % 251) as u8).collect();
    area.copy_data(&mut pt, &mut mem, &data);
    for i in 0..5000u64 {
        assert_eq!(mem.read_u8(0x8000_0000 + i), Some((i % 251) as u8));
    }
    assert_eq!(mem.read_u8(0x8000_0000 + 5000), Some(0xee));
    assert_eq!(mem.read_u8(0x8000_2000), Some(0xee));
    area.copy_data(&mut pt, &mut mem, &[]);
    assert_eq!(mem.read_u8(0x8000_0000), Some(0));
}

#[test]
fn host_set_has_trampoline_context_sections_memory_and_devices() {
    let mut frames = FrameAllocator::new(PhysPageNum(0x80300), PhysPageNum(0x80310));
    let set = match HostMemorySet::new_host_vmm(&machine(), &layout(), PhysPageNum(0x80400), &mut frames) {
        Ok(set) => set,
        Err(e) => panic!("{:?}", e),
    };
    assert_eq!(set.page_table.token(), 0x8000_0000_0008_0400);
    assert_eq!(set.trampoline, Some(PhysPageNum(0x80201)));
    assert_eq!(
        set.page_table.translate(VirtAddr(TRAMPOLINE).floor()),
        Some(PageTableEntry::new(PhysPageNum(0x80201), 0x0b))
    );
    let shapes: Vec<_> = set.areas.iter().map(shape).collect();
    let rw = MAP_PERM_R | MAP_PERM_W;
    assert_eq!(
        shapes,
        vec![
            (TRAP_CONTEXT / 4096, TRAMPOLINE / 4096, None, MapType::Framed, rw),
            identity(0x8020_0000, 0x8020_5000, MAP_PERM_R | MAP_PERM_X),
            identity(0x8020_5000, 0x8020_7000, MAP_PERM_R),
            identity(0x8020_7000, 0x8020_8000, rw),
            identity(0x8020_8000, 0x8021_8000, rw),
            identity(0x8021_8000, MEMORY_END, rw),
            identity(0x10_0000, 0x10_1000, rw),
            identity(0x1000_1000, 0x1000_2000, rw),
            identity(0x1000_2000, 0x1000_3000, rw),
            identity(0xc00_0000, 0xc60_0000, rw),
        ]
    );
    assert_eq!(set.areas[0].data_frames.len(), 1);
    let frame = set.areas[0].data_frames.get(&(TRAP_CONTEXT / 4096)).unwrap();
    assert_eq!(frame.ppn, PhysPageNum(0x80300));
    assert_eq!(
        set.page_table.translate(VirtAddr(TRAP_CONTEXT).floor()),
        Some(PageTableEntry::new(PhysPageNum(0x80300), 0x07))
    );
    assert!(frames.has_available(15));
    assert!(!frames.has_available(16));
    let text = set.page_table.translate(VirtPageNum(0x80202)).unwrap();
    assert_eq!(text, PageTableEntry::new(PhysPageNum(0x80202), 0x0b));
    assert!(!text.writable());
    let rodata = set.page_table.translate(VirtPageNum(0x80206)).unwrap();
    assert!(!rodata.writable() && !rodata.executable() && rodata.readable());
    let data = set.page_table.translate(VirtPageNum(0x80207)).unwrap();
    assert!(data.writable() && !data.executable());
    assert_eq!(
        set.page_table.translate(VirtPageNum(0x87fff)),
        Some(PageTableEntry::new(PhysPageNum(0x87fff), 0x07))
    );
    assert_eq!(set.page_table.translate(VirtPageNum(0x88000)), None);
    assert_eq!(
        set.page_table.translate(VirtPageNum(0xc5ff)),
        Some(PageTableEntry::new(PhysPageNum(0xc5ff), 0x07))
    );
    let pages = 2 + 5 + 2 + 1 + 16 + (0x88000 - 0x80218) + 1 + 2 + 0x600;
    assert_eq!(set.page_table.len(), pages);
}

#[test]
fn host_set_errors() {
    let mut frames = FrameAllocator::new(PhysPageNum(0x80300), PhysPageNum(0x80310));
    let mut bad = layout();
    bad.etext = 0x8010_0000;
    assert!(matches!(
        HostMemorySet::new_host_vmm(&machine(), &bad, PhysPageNum(1), &mut frames),
        Err(MemorySetError::BadLayout)
    ));
    let mut m = machine();
    m.virtio[1] = Device { base_address: u64::MAX - 0xff, size: 0x100 };
    assert!(matches!(
        HostMemorySet::new_host_vmm(&m, &layout(), PhysPageNum(1), &mut frames),
        Err(MemorySetError::RegionOverflow)
    ));
    m.virtio[1] = Device { base_address: u64::MAX - 0xff, size: 0xff };
    m.plic = Some(Device { base_address: 2, size: u64::MAX - 1 });
    assert!(matches!(
        HostMemorySet::new_host_vmm(&m, &layout(), PhysPageNum(1), &mut frames),
        Err(MemorySetError::RegionOverflow)
    ));
    let mut none = no_frames();
    assert!(matches!(
        HostMemorySet::new_host_vmm(&machine(), &layout(), PhysPageNum(1), &mut none),
        Err(MemorySetError::OutOfFrames)
    ));
    assert!(frames.has_available(16));
}

#[test]
fn bare_sets_are_empty() {
    let host = HostMemorySet::new_bare(PhysPageNum(3));
    assert_eq!(host.page_table.len(), 0);
    assert_eq!(host.page_table.token(), 0x8000_0000_0000_0003);
    assert!(host.areas.is_empty());
    assert_eq!(host.trampoline, None);
    let guest = GuestMemorySet::new_guest_bare(PhysPageNum(8));
    assert_eq!(guest.page_table.len(), 0);
    assert_eq!(guest.page_table.token(), 0x8000_0000_0000_0008);
    assert!(guest.areas.is_empty());
    assert_eq!(guest.trampoline, None);
}

#[test]
fn first_area_keeps_a_page_that_two_areas_hold() {
    let mut set = GuestMemorySet::new_guest_bare(PhysPageNum(0));
    set.push(linear(0x2000, 0x4000, 0x8000_2000, 0x8000_4000, MAP_PERM_R));
    set.push(linear(0x3000, 0x6000, 0x9000_3000, 0x9000_6000, MAP_PERM_W));
    assert_eq!(set.areas.len(), 2);
    assert_eq!(set.page_table.translate(VirtPageNum(2)), Some(PageTableEntry::new(PhysPageNum(0x80002), 3)));
    assert_eq!(set.page_table.translate(VirtPageNum(3)), Some(PageTableEntry::new(PhysPageNum(0x80003), 3)));
    assert_eq!(set.page_table.translate(VirtPageNum(4)), Some(PageTableEntry::new(PhysPageNum(0x90004), 5)));
    assert_eq!(set.page_table.translate(VirtPageNum(5)), Some(PageTableEntry::new(PhysPageNum(0x90005), 5)));
    assert_eq!(set.page_table.len(), 4);
}

#[test]
fn trampoline_is_mapped_once() {
    let mut set = HostMemorySet::new_bare(PhysPageNum(0));
    set.map_trampoline(PhysAddr(0x8020_1abc));
    assert_eq!(set.trampoline, Some(PhysPageNum(0x80201)));
    set.map_trampoline(PhysAddr(0x9999_0000));
    assert_eq!(set.trampoline, Some(PhysPageNum(0x80201)));
    assert_eq!(
        set.page_table.translate(VirtPageNum(TRAMPOLINE_VPN)),
        Some(PageTableEntry::new(PhysPageNum(0x80201), 0x0b))
    );
    let mut covered = GuestMemorySet::new_guest_bare(PhysPageNum(0));
    covered.push(linear(TRAMPOLINE, u64::MAX, 0x1000, 0x1fff, MAP_PERM_R));
    covered.map_trampoline(PhysAddr(0x8020_1000));
    assert_eq!(covered.trampoline, None);
    assert_eq!(
        covered.page_table.translate(VirtPageNum(TRAMPOLINE_VPN)),
        Some(PageTableEntry::new(PhysPageNum(1), 3))
    );
}

#[test]
fn push_framed_backs_the_area() {
    let mut set = HostMemorySet::new_bare(PhysPageNum(0));
    let mut frames = FrameAllocator::new(PhysPageNum(0x10), PhysPageNum(0x20));
    let area = MapArea::new(
        VirtAddr(0x7000),
        VirtAddr(0x9000),
        None,
        None,
        MapType::Framed,
        MapPermission::from_bits(MAP_PERM_R),
    );
    set.push_framed(area, &mut frames);
    assert_eq!(set.areas[0].data_frames.len(), 2);
    assert_eq!(set.page_table.translate(VirtPageNum(7)), Some(PageTableEntry::new(PhysPageNum(0x10), 3)));
    assert_eq!(set.page_table.translate(VirtPageNum(8)), Some(PageTableEntry::new(PhysPageNum(0x11), 3)));
}

#[test]
fn guest_without_load_maps_memory_and_devices_to_themselves() {
    let mut m = machine();
    m.pci = Some(Device { base_address: 0x3000_0000, size: 0x1000_0000 });
    let set = match GuestMemorySet::new_guest_without_load(&m, PhysPageNum(0x80404), PhysAddr(0x8020_1000)) {
        Ok(set) => set,
        Err(e) => panic!("{:?}", e),
    };
    let rwxu = MAP_PERM_R | MAP_PERM_W | MAP_PERM_U | MAP_PERM_X;
    let rwu = MAP_PERM_R | MAP_PERM_W | MAP_PERM_U;
    let shapes: Vec<_> = set.areas.iter().map(shape).collect();
    assert_eq!(
        shapes,
        vec![
            identity(0x7fe0_0000, 0x8800_0000, rwxu),
            identity(0x10_0000, 0x10_2000, rwxu),
            identity(0x1000_1000, 0x1000_2000, rwu),
            identity(0x1000_2000, 0x1000_3000, rwu),
            identity(0x1000_0000, 0x1000_0100, rwu),
            identity(0x200_0000, 0x201_0000, rwu),
            identity(0xc00_0000, 0xc20_0000, rwu),
            identity(0x3000_0000, 0x3020_0000, rwu),
        ]
    );
    assert_eq!(set.trampoline, Some(PhysPageNum(0x80201)));
    assert_eq!(set.page_table.token(), 0x8000_0000_0008_0404);
    assert_eq!(
        set.page_table.translate(VirtPageNum(0x7fe00)),
        Some(PageTableEntry::new(PhysPageNum(0x7fe00), 0x1f))
    );
    assert_eq!(
        set.page_table.translate(VirtPageNum(0x10000)),
        Some(PageTableEntry::new(PhysPageNum(0x10000), 0x17))
    );
    assert_eq!(set.page_table.translate(VirtPageNum(0x10003)), None);
    assert_eq!(set.page_table.translate(VirtPageNum(0xc200)), None);
    assert_eq!(
        set.page_table.translate(VirtPageNum(0xc1ff)),
        Some(PageTableEntry::new(PhysPageNum(0xc1ff), 0x17))
    );
}

#[test]
fn guest_without_load_refuses_what_does_not_fit() {
    let mut m = machine();
    m.physical_memory_offset = 0x1f_ffff;
    assert!(matches!(
        GuestMemorySet::new_guest_without_load(&m, PhysPageNum(0), PhysAddr(0)),
        Err(MemorySetError::RegionOverflow)
    ));
    let mut m = machine();
    m.physical_memory_size = u64::MAX - 0x7fff_ffff;
    assert!(matches!(
        GuestMemorySet::new_guest_without_load(&m, PhysPageNum(0), PhysAddr(0)),
        Err(MemorySetError::RegionOverflow)
    ));
    let mut m = machine();
    m.test_finisher_address = Some(Device { base_address: u64::MAX - 0x1fff, size: 0x1000 });
    assert!(matches!(
        GuestMemorySet::new_guest_without_load(&m, PhysPageNum(0), PhysAddr(0)),
        Err(MemorySetError::RegionOverflow)
    ));
    let mut m = machine();
    m.pci = Some(Device { base_address: u64::MAX - 0x1f_ffff, size: 0 });
    assert!(matches!(
        GuestMemorySet::new_guest_without_load(&m, PhysPageNum(0), PhysAddr(0)),
        Err(MemorySetError::RegionOverflow)
    ));
    m.pci = Some(Device { base_address: u64::MAX - 0x20_0000, size: u64::MAX });
    m.physical_memory_offset = 0x20_0000;
    m.physical_memory_size = 0;
    assert!(GuestMemorySet::new_guest_without_load(&m, PhysPageNum(0), PhysAddr(0)).is_ok());
}

#[test]
fn host_maps_guest_memory_to_itself() {
    let mut host = HostMemorySet::new_bare(PhysPageNum(0));
    host.map_guest(0x8800_0000, 0x3000);
    assert_eq!(shape(&host.areas[0]), identity(0x8800_0000, 0x8800_3000, MAP_PERM_R | MAP_PERM_W));
    assert_eq!(
        host.page_table.translate(VirtPageNum(0x88002)),
        Some(PageTableEntry::new(PhysPageNum(0x88002), 7))
    );
    assert_eq!(host.page_table.len(), 3);
}

#[test]
fn host_maps_the_physical_pages_of_a_guest() {
    let mut gpm = GuestMemorySet::new_guest_bare(PhysPageNum(0));
    gpm.push(linear(0x8020_0000, 0x8020_2000, 0x8800_0000, 0x8800_2000, MAP_PERM_R | MAP_PERM_U));
    gpm.push(linear(0x1000_0000, 0x1000_1000, 0x1000_0000, 0x1000_1000, MAP_PERM_W | MAP_PERM_U));
    let mut host = HostMemorySet::new_bare(PhysPageNum(0));
    host.map_guest(0x1000, 0x1000);
    assert!(host.map_gpm(&gpm));
    let shapes: Vec<_> = host.areas.iter().map(shape).collect();
    assert_eq!(
        shapes,
        vec![
            identity(0x1000, 0x2000, MAP_PERM_R | MAP_PERM_W),
            identity(0x8800_0000, 0x8800_2000, MAP_PERM_R | MAP_PERM_U),
            identity(0x1000_0000, 0x1000_1000, MAP_PERM_W | MAP_PERM_U),
        ]
    );
    assert_eq!(
        host.page_table.translate(VirtPageNum(0x88001)),
        Some(PageTableEntry::new(PhysPageNum(0x88001), 0x13))
    );
    assert_eq!(host.page_table.translate(VirtPageNum(0x80200)), None);
}

#[test]
fn host_refuses_a_guest_whose_pages_leave_the_address_space() {
    let mut gpm = GuestMemorySet::new_guest_bare(PhysPageNum(0));
    gpm.push(linear(0x1000, 0x2000, 0x1000, 0x2000, MAP_PERM_R));
    gpm.push(linear(0x8000, 0x9000, u64::MAX - 0xfff, u64::MAX, MAP_PERM_R));
    let mut host = HostMemorySet::new_bare(PhysPageNum(0));
    assert!(!host.map_gpm(&gpm));
    assert!(host.areas.is_empty());
    assert_eq!(host.page_table.len(), 0);
}

#[test]
fn sections_of_the_hypervisor_have_no_permission_too_many() {
    let mut frames = FrameAllocator::new(PhysPageNum(0x80300), PhysPageNum(0x80310));
    let set = match HostMemorySet::new_host_vmm(&machine(), &layout(), PhysPageNum(0x80400), &mut frames) {
        Ok(set) => set,
        Err(e) => panic!("{:?}", e),
    };
    assert_eq!(remap_test(&set, &layout()), Some(true));
    let mut shifted = layout();
    shifted.stext = 0x8020_7000;
    shifted.etext = 0x8020_8000;
    assert_eq!(remap_test(&set, &shifted), Some(false));
    let mut shifted = layout();
    shifted.sdata = 0x8020_0000;
    shifted.edata = 0x8020_2000;
    assert_eq!(remap_test(&set, &shifted), Some(false));
    let mut outside = layout();
    outside.srodata = 0x9000_0000;
    outside.erodata = 0x9000_2000;
    assert_eq!(remap_test(&set, &outside), None);
    assert_eq!(remap_test(&HostMemorySet::new_bare(PhysPageNum(0)), &layout()), None);
}

#[test]
fn activation_loads_the_root_token() {
    let set = HostMemorySet::new_bare(PhysPageNum(0x80400));
    let mut csrs = Csrs {
        satp: 1,
        scause: 2,
        stval: 3,
        stvec: 4,
        sie: 5,
        hgatp: 6,
        hvip: 7,
        htval: 8,
        htinst: 9,
        vsatp: 10,
        vsstatus: 11,
        vsip: 12,
        vsie: 13,
        vstvec: 14,
        vsepc: 15,
        vscause: 16,
    };
    let before = csrs;
    set.activate(&mut csrs);
    assert_eq!(csrs.satp, 0x8000_0000_0008_0400);
    csrs.satp = 1;
    assert_eq!(csrs, before);
}
