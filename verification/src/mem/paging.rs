//! Page operations and page attributes, as the kernel states them; how they reach a
//! page table is the business of `arch::paging`.

use vstd::prelude::*;

use crate::mem::addr::{PhysFrame, VirtPage};

verus! {

/// A set of page attributes, held as bits.
#[derive(Clone, Copy, Debug, PartialEq, Eq, Structural)]
pub struct PageFlags {
    pub bits: u64,
}

impl PageFlags {
    /// The page is valid.
    #[verifier::allow_in_spec]
    pub fn present() -> PageFlags
        returns
            (PageFlags { bits: 1 }),
    {
        PageFlags { bits: 1 }
    }

    /// The page may be written.
    #[verifier::allow_in_spec]
    pub fn writable() -> PageFlags
        returns
            (PageFlags { bits: 2 }),
    {
        PageFlags { bits: 2 }
    }

    /// The page may be used from user space.
    #[verifier::allow_in_spec]
    pub fn user() -> PageFlags
        returns
            (PageFlags { bits: 4 }),
    {
        PageFlags { bits: 4 }
    }

    /// The page may not be executed.
    #[verifier::allow_in_spec]
    pub fn no_exec() -> PageFlags
        returns
            (PageFlags { bits: 0x8000_0000_0000_0000 }),
    {
        PageFlags { bits: 0x8000_0000_0000_0000 }
    }

    pub open spec fn spec_contains(self, other: PageFlags) -> bool {
        self.bits & other.bits == other.bits
    }

    /// Whether every attribute of `other` is set here.
    pub fn contains(self, other: PageFlags) -> (r: bool)
        ensures
            r == self.spec_contains(other),
    {
        self.bits & other.bits == other.bits
    }

    pub open spec fn spec_union(self, other: PageFlags) -> PageFlags {
        PageFlags { bits: self.bits | other.bits }
    }

    /// The attributes that are set here or in `other`.
    pub fn union(self, other: PageFlags) -> (r: PageFlags)
        ensures
            r == self.spec_union(other),
    {
        PageFlags { bits: self.bits | other.bits }
    }

    /// The raw bits.
    pub fn bits(self) -> (r: u64)
        ensures
            r == self.bits,
    {
        self.bits
    }
}

/// A union contains both of its parts, and a single attribute only if a part has it.
pub proof fn law_union_contains(a: PageFlags, b: PageFlags, c: PageFlags)
    ensures
        a.spec_union(b).spec_contains(a),
        a.spec_union(b).spec_contains(b),
        c == PageFlags::present() || c == PageFlags::writable() || c == PageFlags::user() || c
            == PageFlags::no_exec() ==> (a.spec_union(b).spec_contains(c) <==> a.spec_contains(c)
            || b.spec_contains(c)),
{
    let x = a.bits;
    let y = b.bits;
    let z = c.bits;
    assert((x | y) & x == x && (x | y) & y == y) by (bit_vector);
    assert(z == 1 || z == 2 || z == 4 || z == 0x8000_0000_0000_0000 ==> (((x | y) & z == z) == (x
        & z == z || y & z == z))) by (bit_vector);
}

/// One memory operation on one page.
#[derive(Clone, Copy, Debug, PartialEq, Eq, Structural)]
pub enum MemAction {
    MapPage { page: VirtPage, frame: PhysFrame, flags: PageFlags },
    Unmap { page: VirtPage },
}

impl MemAction {
    pub fn map(page: VirtPage, frame: PhysFrame, flags: PageFlags) -> (a: Self)
        ensures
            a == (MemAction::MapPage { page, frame, flags }),
    {
        MemAction::MapPage { page, frame, flags }
    }

    pub fn unmap(page: VirtPage) -> (a: Self)
        ensures
            a == (MemAction::Unmap { page }),
    {
        MemAction::Unmap { page }
    }
}

} // verus!
