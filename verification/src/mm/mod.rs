//! Physical memory: the usable frames of the boot memory map, handed out one by one.

use vstd::prelude::*;

use bootloader::bootinfo::{MemoryMap, MemoryRegion as BootMapEntry, MemoryRegionType as Raw};

use crate::arch::x86::frame_start_of;
use crate::mem::addr::{PhysFrame, PAGE_SIZE};

verus! {

/// The memory map that the bootloader hands over.
#[verifier::external_type_specification]
#[verifier::external_body]
pub struct ExMemoryMap(bootloader::bootinfo::MemoryMap);

/// One entry of that map; the map gives access to a slice of them.
#[verifier::external_type_specification]
#[verifier::external_body]
pub struct ExMemoryRegion(BootMapEntry);

/// The kinds of boot memory regions.
#[derive(Clone, Copy, Debug, PartialEq, Eq, Structural)]
pub enum BootRegionKind {
    Usable,
    InUse,
    Reserved,
    AcpiReclaimable,
    AcpiNvs,
    BadMemory,
    Kernel,
    KernelStack,
    PageTable,
    Bootloader,
    FrameZero,
    Empty,
    BootInfo,
    Package,
    NonExhaustive,
}

/// A region of the boot memory map: the frames from `start_frame_number` up to, and
/// without, `end_frame_number`.
#[derive(Clone, Copy, Debug, PartialEq, Eq, Structural)]
pub struct BootRegion {
    pub start_frame_number: u64,
    pub end_frame_number: u64,
    pub kind: BootRegionKind,
}

/// The regions that a boot memory map holds, in order.
pub uninterp spec fn boot_regions(map: MemoryMap) -> Seq<BootRegion>;

/// Calls `len` on the slice that `bootloader::bootinfo::MemoryMap` dereferences to: the
/// number of regions in the map.
#[verifier::external_body]
pub(crate) fn memory_map_len(map: &MemoryMap) -> (n: usize)
    ensures
        n == boot_regions(*map).len(),
{
    map.len()
}

/// Reads the `region_type` of region `i` of the slice that
/// `bootloader::bootinfo::MemoryMap` dereferences to; each kind keeps its name.
#[verifier::external_body]
fn memory_map_kind(map: &MemoryMap, i: usize) -> (kind: BootRegionKind)
    requires
        i < boot_regions(*map).len(),
    ensures
        kind == boot_regions(*map)[i as int].kind,
{
    match map[i].region_type {
        Raw::Usable => BootRegionKind::Usable, Raw::InUse => BootRegionKind::InUse,
        Raw::Reserved => BootRegionKind::Reserved, Raw::AcpiNvs => BootRegionKind::AcpiNvs,
        Raw::AcpiReclaimable => BootRegionKind::AcpiReclaimable,
        Raw::BadMemory => BootRegionKind::BadMemory, Raw::Kernel => BootRegionKind::Kernel,
        Raw::KernelStack => BootRegionKind::KernelStack,
        Raw::PageTable => BootRegionKind::PageTable,
        Raw::Bootloader => BootRegionKind::Bootloader,
        Raw::FrameZero => BootRegionKind::FrameZero, Raw::Empty => BootRegionKind::Empty,
        Raw::BootInfo => BootRegionKind::BootInfo, Raw::Package => BootRegionKind::Package,
        Raw::NonExhaustive => BootRegionKind::NonExhaustive,
    }
}

/// Reads the `range` of region `i` of the slice that `bootloader::bootinfo::MemoryMap`
/// dereferences to: its first frame, and the one after its last.
#[verifier::external_body]
fn memory_map_range(map: &MemoryMap, i: usize) -> (r: (u64, u64))
    requires
        i < boot_regions(*map).len(),
    ensures
        r.0 == boot_regions(*map)[i as int].start_frame_number,
        r.1 == boot_regions(*map)[i as int].end_frame_number,
{
    (map[i].range.start_frame_number, map[i].range.end_frame_number)
}

/// A region of the boot memory map.
pub(crate) fn memory_map_region(map: &MemoryMap, i: usize) -> (r: BootRegion)
    requires
        i < boot_regions(*map).len(),
    ensures
        r == boot_regions(*map)[i as int],
{
    let (start_frame_number, end_frame_number) = memory_map_range(map, i);
    BootRegion { start_frame_number, end_frame_number, kind: memory_map_kind(map, i) }
}

impl BootRegion {
    /// The region's addresses fit the machine: the first one in 64 bits, and every frame
    /// that can be handed out in 52.
    pub open spec fn valid(self) -> bool {
        self.kind == BootRegionKind::Usable ==> {
            &&& self.start_frame_number < 0x10_0000_0000_0000
            &&& self.end_frame_number <= 0x100_0000_0000
        }
    }

    /// The frame numbers that the region offers.
    pub open spec fn frames(self) -> Seq<u64> {
        if self.kind == BootRegionKind::Usable && self.start_frame_number < self.end_frame_number {
            Seq::new(
                (self.end_frame_number - self.start_frame_number) as nat,
                |i: int| (self.start_frame_number + i) as u64,
            )
        } else {
            Seq::empty()
        }
    }
}

/// The frame numbers that the regions from index `i` on offer, in order.
pub open spec fn frames_from(regions: Seq<BootRegion>, i: int) -> Seq<u64>
    decreases regions.len() - i,
{
    if i < 0 || i >= regions.len() {
        Seq::empty()
    } else {
        regions[i].frames() + frames_from(regions, i + 1)
    }
}

/// Every usable region of the map has addresses that fit the machine.
pub open spec fn memory_map_valid(map: MemoryMap) -> bool {
    forall|i: int| 0 <= i < boot_regions(map).len() ==> (#[trigger] boot_regions(map)[i]).valid()
}

/// Tests whether every usable region of the map has addresses that fit the machine.
pub fn memory_map_is_valid(map: &MemoryMap) -> (r: bool)
    ensures
        r == memory_map_valid(*map),
{
    let n: usize = memory_map_len(map);
    let mut i: usize = 0;
    while i < n
        invariant
            i <= n,
            n == boot_regions(*map).len(),
            forall|j: int| 0 <= j < i ==> (#[trigger] boot_regions(*map)[j]).valid(),
        decreases n - i,
    {
        let region = memory_map_region(map, i);
        if region.kind == BootRegionKind::Usable && (region.start_frame_number
            >= 0x10_0000_0000_0000 || region.end_frame_number > 0x100_0000_0000) {
            assert(!boot_regions(*map)[i as int].valid());
            return false;
        }
        i += 1;
    }
    true
}

/// The kernel's source of physical frames.
pub struct PhysicalMemoryManager {
    inner: BootInfoFrameAllocator,
}

impl View for PhysicalMemoryManager {
    type V = Seq<u64>;

    /// The frame numbers that are still to be handed out, in order.
    closed spec fn view(&self) -> Seq<u64> {
        self.inner.remaining()
    }
}

impl PhysicalMemoryManager {
    pub closed spec fn wf(&self) -> bool {
        self.inner.wf()
    }

    /// Takes over the usable frames of a boot memory map. There must be one manager only
    /// for a map: two would hand out the same frames.
    pub fn new(memory_map: &'static MemoryMap) -> (m: Self)
        requires
            memory_map_valid(*memory_map),
        ensures
            m.wf(),
            m@ == frames_from(boot_regions(*memory_map), 0),
    {
        PhysicalMemoryManager { inner: BootInfoFrameAllocator::new(memory_map) }
    }

    /// Takes over the usable frames of a boot memory map if its addresses fit the machine.
    pub fn checked_new(memory_map: &'static MemoryMap) -> (m: Option<Self>)
        ensures
            m is Some <==> memory_map_valid(*memory_map),
            m matches Some(m) ==> m.wf() && m@ == frames_from(boot_regions(*memory_map), 0),
    {
        if memory_map_is_valid(memory_map) {
            Some(Self::new(memory_map))
        } else {
            None
        }
    }

    /// Hands out the next frame, or nothing when all of them are out.
    pub fn allocate_frame(&mut self) -> (f: Option<PhysFrame>)
        requires
            old(self).wf(),
        ensures
            final(self).wf(),
            match f {
                Some(frame) => old(self)@.len() > 0 && frame.number == old(self)@[0]
                    && frame.number < 0x100_0000_0000 && final(self)@ == old(self)@.skip(1),
                None => old(self)@.len() == 0 && final(self)@ == old(self)@,
            },
    {
        self.inner.allocate_frame()
    }
}

/// Walks the boot memory map and hands out its usable frames. It remembers the address
/// it will hand out next, so a frame costs the same however many went before.
struct BootInfoFrameAllocator {
    memory_map: &'static MemoryMap,
    // the next region to look at
    region_index: usize,
    // what is left of the current region
    cur_addr: u64,
    cur_end: u64,
    // whether there is a current region
    has_region: bool,
}

impl BootInfoFrameAllocator {
    spec fn regions(&self) -> Seq<BootRegion> {
        boot_regions(*self.memory_map)
    }

    spec fn wf(&self) -> bool {
        &&& memory_map_valid(*self.memory_map)
        &&& self.region_index <= self.regions().len()
        &&& self.has_region ==> {
            &&& self.cur_addr % 4096 == 0
            &&& self.cur_end % 4096 == 0
            &&& self.cur_addr <= self.cur_end <= 0x10_0000_0000_0000
        }
        &&& !self.has_region ==> self.region_index == self.regions().len()
    }

    spec fn current(&self) -> Seq<u64> {
        if self.has_region {
            Seq::new(
                ((self.cur_end - self.cur_addr) / 4096) as nat,
                |i: int| (self.cur_addr as int / 4096 + i) as u64,
            )
        } else {
            Seq::empty()
        }
    }

    spec fn remaining(&self) -> Seq<u64> {
        self.current() + frames_from(self.regions(), self.region_index as int)
    }

    fn new(memory_map: &'static MemoryMap) -> (a: Self)
        requires
            memory_map_valid(*memory_map),
        ensures
            a.wf(),
            a.remaining() == frames_from(boot_regions(*memory_map), 0),
    {
        let mut me = BootInfoFrameAllocator {
            memory_map,
            region_index: 0,
            cur_addr: 0,
            cur_end: 0,
            has_region: false,
        };
        me.advance_to_next_usable_region();
        me
    }

    /// Rounds up to a multiple of 4096.
    fn align_up_4k(x: u64) -> (r: u64)
        requires
            x + 4095 <= u64::MAX,
        ensures
            r == (x + 4095) / 4096 * 4096,
    {
        let y: u64 = x + 4095;
        assert(y & !4095u64 == y / 4096 * 4096) by (bit_vector);
        y & !4095u64
    }

    /// Moves on to the next usable region that has frames, if there is one.
    fn advance_to_next_usable_region(&mut self)
        requires
            memory_map_valid(*old(self).memory_map),
            old(self).region_index <= old(self).regions().len(),
        ensures
            final(self).wf(),
            final(self).memory_map == old(self).memory_map,
            final(self).remaining() == frames_from(
                old(self).regions(),
                old(self).region_index as int,
            ),
            final(self).region_index >= old(self).region_index,
            final(self).has_region ==> final(self).region_index > old(self).region_index,
    {
        self.has_region = false;
        let n: usize = memory_map_len(self.memory_map);
        while self.region_index < n
            invariant
                n == self.regions().len(),
                self.memory_map == old(self).memory_map,
                memory_map_valid(*self.memory_map),
                old(self).region_index <= self.region_index <= n,
                !self.has_region,
                frames_from(self.regions(), self.region_index as int) == frames_from(
                    old(self).regions(),
                    old(self).region_index as int,
                ),
            decreases n - self.region_index,
        {
            let region = memory_map_region(self.memory_map, self.region_index);
            let ghost i = self.region_index as int;
            self.region_index += 1;
            assert(frames_from(self.regions(), i) == region.frames() + frames_from(
                self.regions(),
                i + 1,
            ));
            if region.kind != BootRegionKind::Usable {
                assert(region.frames() + frames_from(self.regions(), i + 1) =~= frames_from(
                    self.regions(),
                    i + 1,
                ));
                continue;
            }
            assert(region.valid());
            let start: u64 = region.start_frame_number * PAGE_SIZE;
            let end: u64 = region.end_frame_number * PAGE_SIZE;
            let cur = Self::align_up_4k(start);
            assert(cur == start);
            if cur >= end {
                assert(region.frames() + frames_from(self.regions(), i + 1) =~= frames_from(
                    self.regions(),
                    i + 1,
                ));
                continue;
            }
            self.cur_addr = cur;
            self.cur_end = end;
            self.has_region = true;
            assert(self.current() =~= region.frames());
            return;
        }
        assert(self.remaining() =~= frames_from(self.regions(), n as int));
    }

    /// Hands out the next usable frame.
    fn allocate_frame(&mut self) -> (f: Option<PhysFrame>)
        requires
            old(self).wf(),
        ensures
            final(self).wf(),
            match f {
                Some(frame) => old(self).remaining().len() > 0 && frame.number == old(
                    self,
                ).remaining()[0] && frame.number < 0x100_0000_0000 && final(self).remaining()
                    == old(self).remaining().skip(1),
                None => old(self).remaining().len() == 0 && final(self).remaining() == old(
                    self,
                ).remaining(),
            },
    {
        loop
            invariant
                self.wf(),
                self.remaining() == old(self).remaining(),
            decreases
                self.regions().len() - self.region_index,
                (if self.has_region {
                    1int
                } else {
                    0int
                }),
        {
            if !self.has_region {
                return None;
            }
            if self.cur_addr + PAGE_SIZE <= self.cur_end {
                let ghost before = *self;
                let addr = self.cur_addr;
                self.cur_addr = self.cur_addr + PAGE_SIZE;
                assert(before.current().skip(1) =~= self.current());
                assert(before.remaining().skip(1) =~= self.remaining());
                return Some(PhysFrame::from_index(frame_start_of(addr) / PAGE_SIZE));
            }
            assert(self.current() =~= Seq::empty());
            assert(self.remaining() =~= frames_from(self.regions(), self.region_index as int));
            self.advance_to_next_usable_region();
        }
    }
}

/// Every frame that a memory map offers lies in one of its usable regions.
pub proof fn law_offered_frames_are_usable(regions: Seq<BootRegion>, i: int, k: int)
    requires
        0 <= i <= regions.len(),
        0 <= k < frames_from(regions, i).len(),
    ensures
        exists|r: int|
            i <= r < regions.len() && (#[trigger] regions[r]).kind == BootRegionKind::Usable
                && regions[r].start_frame_number <= frames_from(regions, i)[k]
                < regions[r].end_frame_number,
    decreases regions.len() - i,
{
    let here = regions[i].frames();
    if k < here.len() {
        assert(frames_from(regions, i)[k] == here[k]);
        assert(regions[i].kind == BootRegionKind::Usable);
    } else {
        law_offered_frames_are_usable(regions, i + 1, k - here.len());
        assert(frames_from(regions, i)[k] == frames_from(regions, i + 1)[k - here.len()]);
    }
}

/// Every frame of a usable region is offered.
pub proof fn law_usable_frames_are_offered(regions: Seq<BootRegion>, i: int, r: int, number: u64)
    requires
        0 <= i <= r < regions.len(),
        regions[r].kind == BootRegionKind::Usable,
        regions[r].start_frame_number <= number < regions[r].end_frame_number,
    ensures
        frames_from(regions, i).contains(number),
    decreases regions.len() - i,
{
    let here = regions[i].frames();
    let rest = frames_from(regions, i + 1);
    let all = frames_from(regions, i);
    if i == r {
        let k = number - regions[r].start_frame_number;
        assert(here[k] == number);
        assert(all[k] == number);
    } else {
        law_usable_frames_are_offered(regions, i + 1, r, number);
        let k = choose|k: int| 0 <= k < rest.len() && rest[k] == number;
        assert(all[here.len() + k] == number);
    }
}

/// Within a region the frames are offered from the lowest to the highest.
pub proof fn law_frames_of_a_region_are_in_order(region: BootRegion, a: int, b: int)
    requires
        0 <= a < b < region.frames().len(),
    ensures
        region.frames()[b] - region.frames()[a] == b - a,
        region.frames()[0] == region.start_frame_number,
{
}

/// A memory map whose usable regions do not overlap offers no frame twice.
pub proof fn law_no_frame_twice(regions: Seq<BootRegion>, i: int)
    requires
        0 <= i <= regions.len(),
        forall|a: int, b: int|
            #![trigger regions[a], regions[b]]
            0 <= a < b < regions.len() && regions[a].kind == BootRegionKind::Usable
                && regions[b].kind == BootRegionKind::Usable ==> regions[a].end_frame_number
                <= regions[b].start_frame_number || regions[b].end_frame_number
                <= regions[a].start_frame_number,
    ensures
        frames_from(regions, i).no_duplicates(),
    decreases regions.len() - i,
{
    if i < regions.len() {
        law_no_frame_twice(regions, i + 1);
        let here = regions[i].frames();
        let rest = frames_from(regions, i + 1);
        let all = frames_from(regions, i);
        assert forall|x: int, y: int| 0 <= x < y < all.len() implies all[x] != all[y] by {
            if y < here.len() {
            } else if x >= here.len() {
                assert(rest[x - here.len()] != rest[y - here.len()]);
            } else {
                law_offered_frames_are_usable(regions, i + 1, y - here.len());
                let r = choose|r: int|
                    i + 1 <= r < regions.len() && (#[trigger] regions[r]).kind
                        == BootRegionKind::Usable && regions[r].start_frame_number
                        <= rest[y - here.len()] < regions[r].end_frame_number;
                assert(regions[i].kind == BootRegionKind::Usable);
                assert(all[y] == rest[y - here.len()]);
            }
        }
    }
}

} // verus!
