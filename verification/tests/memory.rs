//! Addresses, page attributes, address spaces and physical memory.

use bootloader::bootinfo::{FrameRange, MemoryMap, MemoryRegion, MemoryRegionType};

use formal_os::mem::addr::{PhysAddr, PhysFrame, VirtAddr, VirtPage, PAGE_SIZE};
use formal_os::mem::address_space::{
    AddressSpace, AddressSpaceError, AddressSpaceKind, MAX_MAPPINGS,
};
use formal_os::mem::layout;
use formal_os::mem::paging::{MemAction, PageFlags};
use formal_os::mm::{memory_map_is_valid, PhysicalMemoryManager};
use formal_os::types;

fn region(start_frame: u64, end_frame: u64, region_type: MemoryRegionType) -> MemoryRegion {
    MemoryRegion {
        range: FrameRange { start_frame_number: start_frame, end_frame_number: end_frame },
        region_type,
    }
}

fn map_of(regions: &[(u64, u64, MemoryRegionType)]) -> &'static MemoryMap {
    let mut map = MemoryMap::new();
    for r in regions {
        map.add_region(region(r.0, r.1, r.2));
    }
    Box::leak(Box::new(map))
}

#[test]
fn addresses_round_down_to_their_page() {
    assert_eq!(PhysAddr::new(0x12345).align_down(), PhysAddr(0x12000));
    assert_eq!(VirtAddr::new(0xffff_ffff_ffff_ffff).align_down(), VirtAddr(0xffff_ffff_ffff_f000));
    assert_eq!(PhysAddr::new(0x12fff).frame(), PhysFrame::from_index(0x12));
    assert_eq!(VirtAddr::new(0x13000).page(), VirtPage::from_index(0x13));
    assert_eq!(PhysAddr::new(7).as_u64(), 7);
    assert_eq!(VirtAddr::new(8).as_u64(), 8);
}

#[test]
fn frames_and_pages_know_their_start() {
    assert_eq!(PhysFrame::from_index(3).start_address(), PhysAddr(3 * PAGE_SIZE));
    assert_eq!(VirtPage::from_index(0x110).start_address(), VirtAddr(0x110000));
    assert_eq!(VirtPage::from_index(0x110).start_address().page(), VirtPage::from_index(0x110));
}

#[test]
fn addresses_convert_to_and_from_numbers() {
    assert_eq!(PhysAddr::from(5u64), PhysAddr(5));
    assert_eq!(u64::from(VirtAddr(6)), 6);
    assert_eq!(u64::from(PhysAddr(7)), 7);
    assert_eq!(VirtAddr::from(8u64), VirtAddr(8));
}

#[test]
fn user_slot_is_slot_32() {
    assert_eq!(types::pml4_index(layout::USER_SPACE_START), 32);
    assert_eq!(types::pml4_index(layout::USER_SPACE_END), 32);
    assert_eq!(types::pml4_index(layout::USER_SPACE_END + 1), 33);
    assert_eq!(types::pml4_index(layout::KERNEL_SPACE_START), 256);
    assert_eq!(types::pml4_index(layout::PHYSMAP_START), 256);
}

#[test]
fn memory_regions_have_a_size_and_a_name() {
    let r = types::MemoryRegion {
        index: 0,
        start_phys: 0x1000,
        end_phys: 0x5000,
        region_type: types::MemoryRegionType::Usable,
    };
    assert_eq!(r.size_bytes(), 0x4000);
    let backwards = types::MemoryRegion { start_phys: 0x5000, end_phys: 0x1000, ..r };
    assert_eq!(backwards.size_bytes(), 0);
    assert_eq!(types::MemoryRegionType::Usable.name(), "Usable");
    assert_eq!(types::MemoryRegionType::Reserved.name(), "Reserved");
    assert_eq!(types::MemoryRegionType::Other.name(), "Other");
}

#[test]
fn page_flags_are_sets() {
    let f = PageFlags::present().union(PageFlags::user());
    assert_eq!(f.bits(), 5);
    assert!(f.contains(PageFlags::present()));
    assert!(f.contains(PageFlags::user()));
    assert!(!f.contains(PageFlags::writable()));
    assert!(!f.contains(PageFlags::no_exec()));
    assert_eq!(PageFlags::no_exec().bits(), 1 << 63);
    assert_eq!(PageFlags::writable().bits(), 2);
}

fn map_action(page: u64, frame: u64, flags: PageFlags) -> MemAction {
    MemAction::map(VirtPage::from_index(page), PhysFrame::from_index(frame), flags)
}

#[test]
fn address_space_refuses_what_it_must() {
    let mut s = AddressSpace::new_user();
    assert_eq!(s.kind, AddressSpaceKind::User);
    assert_eq!(s.root_page_frame, None);
    let f = PageFlags::present().union(PageFlags::user());
    assert_eq!(s.apply(map_action(0x110, 1, f)), Ok(()));
    assert_eq!(s.apply(map_action(0x110, 2, f)), Err(AddressSpaceError::AlreadyMapped));
    assert_eq!(
        s.apply(MemAction::unmap(VirtPage::from_index(0x111))),
        Err(AddressSpaceError::NotMapped)
    );
    assert_eq!(s.mapping_count(), 1);
    assert_eq!(s.apply(MemAction::unmap(VirtPage::from_index(0x110))), Ok(()));
    assert_eq!(s.mapping_count(), 0);
    assert_eq!(
        s.apply(MemAction::unmap(VirtPage::from_index(0x110))),
        Err(AddressSpaceError::NotMapped)
    );
}

#[test]
fn address_space_has_a_capacity() {
    let mut s = AddressSpace::new_kernel();
    assert_eq!(s.kind, AddressSpaceKind::Kernel);
    for i in 0..MAX_MAPPINGS as u64 {
        assert_eq!(s.mapping_count() as u64, i);
        assert_eq!(s.apply(map_action(i, i, PageFlags::present())), Ok(()));
    }
    assert_eq!(s.mapping_count(), 64);
    assert_eq!(
        s.apply(map_action(1000, 1, PageFlags::present())),
        Err(AddressSpaceError::CapacityExceeded)
    );
    assert_eq!(
        s.apply(map_action(5, 1, PageFlags::present())),
        Err(AddressSpaceError::AlreadyMapped)
    );
    assert_eq!(s.mapping_count(), 64);
    assert_eq!(s.apply(MemAction::unmap(VirtPage::from_index(5))), Ok(()));
    assert_eq!(s.mapping_count(), 63);
    assert_eq!(s.apply(map_action(1000, 1, PageFlags::present())), Ok(()));
    assert_eq!(s.mapping_count(), 64);
}

#[test]
fn user_mappings_can_be_dropped_alone() {
    let mut s = AddressSpace::new_user();
    let user = PageFlags::present().union(PageFlags::user());
    assert_eq!(s.apply(map_action(1, 11, user)), Ok(()));
    assert_eq!(s.apply(map_action(2, 12, PageFlags::present())), Ok(()));
    assert_eq!(s.apply(map_action(3, 13, user)), Ok(()));
    assert_eq!(
        s.for_each_user_mapping_page(),
        vec![VirtPage::from_index(1), VirtPage::from_index(3)]
    );
    let all = s.for_each_mapping();
    assert_eq!(all.len(), 3);
    assert_eq!(all[1].page, VirtPage::from_index(2));
    assert_eq!(all[1].frame, PhysFrame::from_index(12));
    s.clear_user_mappings();
    assert_eq!(s.for_each_user_mapping_page(), Vec::new());
    assert_eq!(s.mapping_count(), 1);
    assert_eq!(s.for_each_mapping()[0].page, VirtPage::from_index(2));
}

#[test]
fn usable_frames_are_handed_out_in_order() {
    let map = map_of(&[
        (0, 2, MemoryRegionType::Reserved),
        (2, 4, MemoryRegionType::Usable),
        (4, 9, MemoryRegionType::PageTable),
        (9, 9, MemoryRegionType::Usable),
        (20, 21, MemoryRegionType::Usable),
    ]);
    let mut m = PhysicalMemoryManager::new(map);
    assert_eq!(m.allocate_frame(), Some(PhysFrame::from_index(2)));
    assert_eq!(m.allocate_frame(), Some(PhysFrame::from_index(3)));
    assert_eq!(m.allocate_frame(), Some(PhysFrame::from_index(20)));
    assert_eq!(m.allocate_frame(), None);
    assert_eq!(m.allocate_frame(), None);
}

#[test]
fn empty_map_has_no_frames() {
    let map = map_of(&[]);
    let mut m = PhysicalMemoryManager::checked_new(map).unwrap();
    assert_eq!(m.allocate_frame(), None);
}

#[test]
fn maps_beyond_the_machine_are_refused() {
    let fine = map_of(&[(0, 0x100_0000_0000, MemoryRegionType::Usable)]);
    assert!(memory_map_is_valid(fine));
    let beyond = map_of(&[(0, 0x100_0000_0001, MemoryRegionType::Usable)]);
    assert!(!memory_map_is_valid(beyond));
    assert!(PhysicalMemoryManager::checked_new(beyond).is_none());
    let reserved = map_of(&[(0, u64::MAX, MemoryRegionType::Reserved)]);
    assert!(memory_map_is_valid(reserved));
}
