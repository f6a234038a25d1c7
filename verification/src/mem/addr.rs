//! Addresses, frames and pages: numbers with a type.

use vstd::prelude::*;

verus! {

/// A page is 4 KiB.
pub const PAGE_SIZE: u64 = 4096;

/// A physical address, in bytes.
#[derive(Copy, Clone, Debug, PartialEq, Eq, PartialOrd, Ord, Structural)]
pub struct PhysAddr(pub u64);

/// A virtual address, in bytes.
#[derive(Copy, Clone, Debug, PartialEq, Eq, PartialOrd, Ord, Structural)]
pub struct VirtAddr(pub u64);

/// A physical frame; its number is its address divided by `PAGE_SIZE`.
#[derive(Copy, Clone, Debug, PartialEq, Eq, PartialOrd, Ord, Structural)]
pub struct PhysFrame {
    pub number: u64,
}

/// A virtual page; its number is its address divided by `PAGE_SIZE`.
#[derive(Copy, Clone, Debug, PartialEq, Eq, PartialOrd, Ord, Structural)]
pub struct VirtPage {
    pub number: u64,
}

/// The largest multiple of the page size that is not above `addr`.
pub open spec fn page_floor(addr: u64) -> int {
    addr as int - addr as int % 4096
}

fn clear_page_offset(addr: u64) -> (base: u64)
    ensures
        base == page_floor(addr),
{
    assert(addr & !4095u64 == addr - addr % 4096) by (bit_vector);
    addr & !(PAGE_SIZE - 1)
}

impl PhysAddr {
    pub fn new(addr: u64) -> (a: Self)
        ensures
            a == PhysAddr(addr),
    {
        PhysAddr(addr)
    }

    pub fn as_u64(self) -> (v: u64)
        ensures
            v == self.0,
    {
        self.0
    }

    /// The start of the page that holds this address.
    pub fn align_down(self) -> (a: PhysAddr)
        ensures
            a.0 == page_floor(self.0),
    {
        PhysAddr(clear_page_offset(self.0))
    }

    /// The frame that holds this address.
    pub fn frame(self) -> (f: PhysFrame)
        ensures
            f.number == self.0 / 4096,
    {
        PhysFrame { number: self.0 / PAGE_SIZE }
    }
}

impl VirtAddr {
    pub fn new(addr: u64) -> (a: Self)
        ensures
            a == VirtAddr(addr),
    {
        VirtAddr(addr)
    }

    pub fn as_u64(self) -> (v: u64)
        ensures
            v == self.0,
    {
        self.0
    }

    /// The start of the page that holds this address.
    pub fn align_down(self) -> (a: VirtAddr)
        ensures
            a.0 == page_floor(self.0),
    {
        VirtAddr(clear_page_offset(self.0))
    }

    /// The page that holds this address.
    pub fn page(self) -> (p: VirtPage)
        ensures
            p.number == self.0 / 4096,
    {
        VirtPage { number: self.0 / PAGE_SIZE }
    }
}

impl From<u64> for PhysAddr {
    fn from(v: u64) -> (a: Self) {
        PhysAddr(v)
    }
}

impl vstd::std_specs::convert::FromSpecImpl<u64> for PhysAddr {
    open spec fn obeys_from_spec() -> bool {
        true
    }

    open spec fn from_spec(v: u64) -> Self {
        PhysAddr(v)
    }
}

impl From<u64> for VirtAddr {
    fn from(v: u64) -> (a: Self) {
        VirtAddr(v)
    }
}

impl vstd::std_specs::convert::FromSpecImpl<u64> for VirtAddr {
    open spec fn obeys_from_spec() -> bool {
        true
    }

    open spec fn from_spec(v: u64) -> Self {
        VirtAddr(v)
    }
}

impl From<PhysAddr> for u64 {
    fn from(v: PhysAddr) -> (n: Self) {
        v.0
    }
}

impl vstd::std_specs::convert::FromSpecImpl<PhysAddr> for u64 {
    open spec fn obeys_from_spec() -> bool {
        true
    }

    open spec fn from_spec(v: PhysAddr) -> Self {
        v.0
    }
}

impl From<VirtAddr> for u64 {
    fn from(v: VirtAddr) -> (n: Self) {
        v.0
    }
}

impl vstd::std_specs::convert::FromSpecImpl<VirtAddr> for u64 {
    open spec fn obeys_from_spec() -> bool {
        true
    }

    open spec fn from_spec(v: VirtAddr) -> Self {
        v.0
    }
}

impl PhysFrame {
    /// The frame's first byte has an address that fits in 64 bits.
    pub open spec fn addressable(self) -> bool {
        self.number * 4096 <= u64::MAX
    }

    /// The address of the frame's first byte.
    pub fn start_address(self) -> (a: PhysAddr)
        requires
            self.addressable(),
        ensures
            a.0 == self.number * 4096,
    {
        PhysAddr(self.number * PAGE_SIZE)
    }

    pub fn from_index(number: u64) -> (f: Self)
        ensures
            f == (PhysFrame { number }),
    {
        PhysFrame { number }
    }
}

impl VirtPage {
    /// The page's first byte has an address that fits in 64 bits.
    pub open spec fn addressable(self) -> bool {
        self.number * 4096 <= u64::MAX
    }

    /// The address of the page's first byte.
    pub fn start_address(self) -> (a: VirtAddr)
        requires
            self.addressable(),
        ensures
            a.0 == self.number * 4096,
    {
        VirtAddr(self.number * PAGE_SIZE)
    }

    pub fn from_index(number: u64) -> (p: Self)
        ensures
            p == (VirtPage { number }),
    {
        VirtPage { number }
    }
}

/// The frame of an address starts at the address rounded down to a page, and holds it.
pub proof fn law_frame_holds_its_address(addr: u64)
    ensures
        (PhysFrame { number: addr / 4096 }).addressable(),
        (addr / 4096) * 4096 == page_floor(addr),
        page_floor(addr) <= addr < page_floor(addr) + 4096,
{
}

/// Going from a frame or page number to the start address and back gives the same number.
pub proof fn law_start_address_round_trip(number: u64)
    requires
        number * 4096 <= u64::MAX,
    ensures
        ((number * 4096) as u64) / 4096 == number,
        page_floor((number * 4096) as u64) == number * 4096,
{
}

} // verus!
