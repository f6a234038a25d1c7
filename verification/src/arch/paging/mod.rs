//! The rules of paging: what may be mapped where, when a switch of address spaces is
//! safe, what the first table of an address space holds, and how a fault comes back.

use vstd::prelude::*;

use bootloader::bootinfo::MemoryMap;

use crate::arch::paging::cr3::{
    assert_no_physmap_user_slot_collision, physmap_check, physmap_lines, PhysmapCollision,
};
use crate::kernel::lines::{info, lines_for, push_info, push_value, value};
use crate::kernel::types::LogLine;
use crate::mm::{boot_regions, memory_map_len, memory_map_region, BootRegion, BootRegionKind};

pub mod apply;
pub mod cr3;
pub mod fault;
pub mod tables;

pub use crate::arch::paging::apply::is_user_space_addr_u64;
pub use crate::arch::paging::cr3::{
    configure_cr3_switch_safety, debug_log_execution_context, debug_translate_in_root,
    switch_address_space,
};
pub use crate::arch::paging::fault::{
    guarded_user_rw_u64, pf_guard_try_fixup, record_page_fault, take_last_page_fault, PageFaultInfo,
};
pub use crate::arch::paging::tables::{
    enter_kernel_high_alias, init_user_pml4_from_current, install_kernel_high_alias_from_current,
};
pub use crate::arch::virt_layout::{USER_PML4_INDEX, USER_SPACE_BASE, USER_SPACE_SIZE};

verus! {

#[derive(Clone, Copy, Debug, PartialEq, Eq, Structural)]
pub enum PagingApplyError {
    MapFailed,
    UnmapFailed,
}

/// Why paging cannot start. Each of them stops the machine.
#[derive(Clone, Copy, Debug, PartialEq, Eq, Structural)]
pub enum PagingInitError {
    Physmap { collision: PhysmapCollision },
    /// The addresses of a region of the memory map have more than 64 bits.
    RegionTooHigh { index: usize },
}

/// The first and the last address of the region have 64 bits at most.
pub open spec fn region_fits(region: BootRegion) -> bool {
    region.start_frame_number * 4096 <= u64::MAX && region.end_frame_number * 4096 <= u64::MAX
}

pub open spec fn region_kind_line(kind: BootRegionKind) -> LogLine {
    match kind {
        BootRegionKind::Usable => info("type = Usable"),
        BootRegionKind::Reserved => info("type = Reserved"),
        BootRegionKind::AcpiReclaimable => info("type = AcpiReclaimable"),
        BootRegionKind::AcpiNvs => info("type = AcpiNvs"),
        BootRegionKind::BadMemory => info("type = BadMemory"),
        _ => info("type = Other"),
    }
}

/// What is said of region `i`.
pub open spec fn region_lines(regions: Seq<BootRegion>) -> spec_fn(int) -> Seq<LogLine> {
    |i: int|
        seq![
            info("mem_region:"),
            value("index", i as u64),
            value("start_phys", (regions[i].start_frame_number * 4096) as u64),
            value("end_phys", (regions[i].end_frame_number * 4096) as u64),
            region_kind_line(regions[i].kind),
        ]
}

/// What stands in the way of paging with this window onto physical memory and this memory
/// map: a collision, or the first region that does not fit.
pub open spec fn init_result(physmap_off: u64, regions: Seq<BootRegion>, r: Result<
    (),
    PagingInitError,
>) -> bool {
    match r {
        Ok(_) => {
            &&& physmap_check(physmap_off) is Ok
            &&& forall|i: int| 0 <= i < regions.len() ==> region_fits(#[trigger] regions[i])
        },
        Err(PagingInitError::Physmap { collision }) => physmap_check(physmap_off) == Err::<
            (),
            PhysmapCollision,
        >(collision),
        Err(PagingInitError::RegionTooHigh { index }) => {
            &&& physmap_check(physmap_off) is Ok
            &&& index < regions.len()
            &&& !region_fits(regions[index as int])
            &&& forall|i: int| 0 <= i < index ==> region_fits(#[trigger] regions[i])
        },
    }
}

pub open spec fn init_lines(regions: Seq<BootRegion>, r: Result<(), PagingInitError>) -> Seq<
    LogLine,
> {
    seq![info("arch::paging::init: start")] + match r {
        Err(PagingInitError::Physmap { collision }) => physmap_lines(Err(collision)),
        Err(PagingInitError::RegionTooHigh { index }) => seq![
            info("arch::paging::init: memory map dump start"),
        ] + lines_for(index as int, region_lines(regions)),
        Ok(_) => seq![info("arch::paging::init: memory map dump start")] + lines_for(
            regions.len() as int,
            region_lines(regions),
        ) + seq![
            info("arch::paging::init: memory map dump end"),
            info("arch::paging::init: done"),
        ],
    }
}

fn push_region_kind(kind: BootRegionKind, out: &mut Vec<LogLine>)
    ensures
        final(out)@ == old(out)@.push(region_kind_line(kind)),
{
    match kind {
        BootRegionKind::Usable => push_info(out, "type = Usable"),
        BootRegionKind::Reserved => push_info(out, "type = Reserved"),
        BootRegionKind::AcpiReclaimable => push_info(out, "type = AcpiReclaimable"),
        BootRegionKind::AcpiNvs => push_info(out, "type = AcpiNvs"),
        BootRegionKind::BadMemory => push_info(out, "type = BadMemory"),
        _ => push_info(out, "type = Other"),
    }
}

/// Starts paging: tests where the window onto physical memory is, and says what the
/// memory map holds.
pub fn init(physmap_off: u64, map: &MemoryMap, out: &mut Vec<LogLine>) -> (r: Result<
    (),
    PagingInitError,
>)
    ensures
        init_result(physmap_off, boot_regions(*map), r),
        final(out)@ == old(out)@ + init_lines(boot_regions(*map), r),
{
    let ghost regions = boot_regions(*map);
    push_info(out, "arch::paging::init: start");
    match assert_no_physmap_user_slot_collision(physmap_off, out) {
        Err(collision) => {
            let r = Err(PagingInitError::Physmap { collision });
            assert(out@ =~= old(out)@ + init_lines(regions, r));
            return r;
        },
        Ok(_) => {},
    }
    push_info(out, "arch::paging::init: memory map dump start");
    let ghost head = old(out)@ + seq![
        info("arch::paging::init: start"),
        info("arch::paging::init: memory map dump start"),
    ];
    let n: usize = memory_map_len(map);
    let mut i: usize = 0;
    assert(out@ =~= head + lines_for(0, region_lines(regions)));
    while i < n
        invariant
            i <= n,
            n == regions.len(),
            regions == boot_regions(*map),
            physmap_check(physmap_off) is Ok,
            forall|j: int| 0 <= j < i ==> region_fits(#[trigger] regions[j]),
            out@ == head + lines_for(i as int, region_lines(regions)),
            head == old(out)@ + seq![
                info("arch::paging::init: start"),
                info("arch::paging::init: memory map dump start"),
            ],
        decreases n - i,
    {
        let region = memory_map_region(map, i);
        if region.start_frame_number > u64::MAX / 4096 || region.end_frame_number > u64::MAX
            / 4096 {
            assert(!region_fits(regions[i as int]));
            let r = Err(PagingInitError::RegionTooHigh { index: i });
            assert(out@ =~= old(out)@ + init_lines(regions, r));
            return r;
        }
        assert(region_fits(regions[i as int]));
        let ghost before = out@;
        push_info(out, "mem_region:");
        push_value(out, "index", i as u64);
        push_value(out, "start_phys", region.start_frame_number * 4096);
        push_value(out, "end_phys", region.end_frame_number * 4096);
        push_region_kind(region.kind, out);
        assert(out@ =~= before + region_lines(regions)(i as int));
        assert(out@ =~= head + lines_for(i + 1, region_lines(regions)));
        i += 1;
    }
    push_info(out, "arch::paging::init: memory map dump end");
    push_info(out, "arch::paging::init: done");
    assert(out@ =~= old(out)@ + init_lines(regions, Ok(())));
    Ok(())
}

} // verus!
