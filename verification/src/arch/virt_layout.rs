//! The layout of the virtual address space in PML4 slots, and the arithmetic on it.

use vstd::prelude::*;

use crate::types::spec_pml4_index;

verus! {

/// The range that one PML4 entry covers (512 GiB).
pub const PML4_SLOT_SIZE: u64 = 0x80_0000_0000;

/// The PML4 index that is reserved for user space. It keeps clear of the low slots, where
/// the window onto physical memory may lie.
pub const USER_PML4_INDEX: usize = 32;

/// Where user space starts: at the start of its slot.
pub const USER_SPACE_BASE: u64 = 0x1000_0000_0000;

/// User space fills its slot.
pub const USER_SPACE_SIZE: u64 = 0x80_0000_0000;

/// The first of the slots that hold the high alias of the kernel.
pub const KERNEL_ALIAS_DST_PML4_BASE_INDEX: usize = 508;

/// How many slots there are for it.
pub const KERNEL_ALIAS_MAX_COPY_COUNT: usize = 4;

/// The address with the low 48 bits of `addr` whose upper bits repeat bit 47.
pub open spec fn spec_canonicalize(addr: u64) -> int {
    let low = addr as int % 0x1_0000_0000_0000;
    if low < 0x8000_0000_0000 {
        low
    } else {
        low + 0xffff_0000_0000_0000
    }
}

/// The first address of a PML4 slot.
pub open spec fn slot_base(index: int) -> int {
    if index < 256 {
        index * 0x80_0000_0000
    } else {
        0xffff_0000_0000_0000 + index * 0x80_0000_0000
    }
}

/// The high alias of an address in the first slots: the same place in the slot, 508 slots
/// further up.
pub open spec fn spec_high_alias(low_addr: u64) -> int {
    slot_base(KERNEL_ALIAS_DST_PML4_BASE_INDEX + spec_pml4_index(low_addr)) + low_addr as int
        % 0x80_0000_0000
}

/// Whether an address has a high alias.
pub open spec fn has_high_alias(low_addr: u64) -> bool {
    spec_pml4_index(low_addr) < KERNEL_ALIAS_MAX_COPY_COUNT
}

/// Takes the PML4 index (bits 47..39) out of an address.
pub fn pml4_index(addr: u64) -> (index: usize)
    ensures
        index == spec_pml4_index(addr),
        index < 512,
{
    crate::types::pml4_index(addr)
}

/// Makes an address canonical: bit 47 is repeated in all the bits above it.
pub fn canonicalize_virt(addr: u64) -> (r: u64)
    ensures
        r == spec_canonicalize(addr),
{
    let sign_bit: u64 = 0x8000_0000_0000;
    assert(addr & 0x8000_0000_0000u64 != 0 ==> addr % 0x1_0000_0000_0000u64 >= 0x8000_0000_0000u64
        && addr | 0xffff_0000_0000_0000u64 == addr % 0x1_0000_0000_0000u64
        + 0xffff_0000_0000_0000u64) by (bit_vector);
    assert(addr & 0x8000_0000_0000u64 == 0 ==> addr % 0x1_0000_0000_0000u64 < 0x8000_0000_0000u64
        && addr & 0x0000_ffff_ffff_ffffu64 == addr % 0x1_0000_0000_0000u64) by (bit_vector);
    if (addr & sign_bit) != 0 {
        addr | 0xffff_0000_0000_0000
    } else {
        addr & 0x0000_ffff_ffff_ffff
    }
}

/// The first address of a PML4 slot; only the low nine bits of the index count.
pub fn pml4_index_base_addr(index: usize) -> (addr: u64)
    ensures
        addr == slot_base(index as int % 512),
{
    let i: u64 = index as u64;
    let shifted: u64 = i << 39u64;
    assert((i << 39u64) % 0x1_0000_0000_0000u64 == (i % 512) * 0x80_0000_0000u64) by (bit_vector);
    canonicalize_virt(shifted)
}

/// The high alias of an address in the first slots. It is the address of the same memory
/// once the alias is installed.
pub fn kernel_high_alias_of_low(low_addr: u64) -> (high: u64)
    requires
        has_high_alias(low_addr),
    ensures
        high == spec_high_alias(low_addr),
{
    let low_idx: usize = pml4_index(low_addr);
    let offset_in_slot: u64 = low_addr & (PML4_SLOT_SIZE - 1);
    assert(low_addr & 0x7f_ffff_ffffu64 == low_addr % 0x80_0000_0000u64) by (bit_vector);
    let high_idx: usize = KERNEL_ALIAS_DST_PML4_BASE_INDEX + low_idx;
    pml4_index_base_addr(high_idx) + offset_in_slot
}

/// How many of the first slots the alias has to cover for these addresses to have one; at
/// least one, and no more than there is room for. The address 0 stands for nothing.
pub open spec fn alias_copy_count(addrs: Seq<u64>, count: int) -> bool {
    &&& 1 <= count <= KERNEL_ALIAS_MAX_COPY_COUNT
    &&& count < KERNEL_ALIAS_MAX_COPY_COUNT ==> forall|i: int|
        0 <= i < addrs.len() && #[trigger] addrs[i] != 0 ==> spec_pml4_index(addrs[i]) < count
    &&& count > 1 ==> exists|i: int|
        0 <= i < addrs.len() && #[trigger] addrs[i] != 0 && spec_pml4_index(addrs[i]) >= count - 1
}

/// How many slots the alias has to cover for these addresses.
pub fn recommend_alias_copy_count_from_addrs(addrs: &[u64]) -> (count: usize)
    ensures
        alias_copy_count(addrs@, count as int),
{
    let mut max_idx: usize = 0;
    let mut any: bool = false;
    let mut i: usize = 0;
    while i < addrs.len()
        invariant
            i <= addrs@.len(),
            max_idx < 512,
            !any ==> max_idx == 0,
            forall|j: int|
                0 <= j < i && #[trigger] addrs@[j] != 0 ==> any && spec_pml4_index(addrs@[j])
                    <= max_idx,
            max_idx > 0 ==> exists|j: int|
                0 <= j < i && #[trigger] addrs@[j] != 0 && spec_pml4_index(addrs@[j]) == max_idx,
        decreases addrs@.len() - i,
    {
        let a: u64 = addrs[i];
        if a != 0 {
            any = true;
            let idx: usize = pml4_index(a);
            if idx > max_idx {
                max_idx = idx;
                assert(addrs@[i as int] != 0 && spec_pml4_index(addrs@[i as int]) == max_idx);
            }
        }
        i += 1;
    }
    let res: usize = if any {
        max_idx + 1
    } else {
        1
    };
    if res > KERNEL_ALIAS_MAX_COPY_COUNT {
        KERNEL_ALIAS_MAX_COPY_COUNT
    } else {
        res
    }
}

/// How many slots the alias has to cover for a piece of code and a stack.
pub fn recommend_alias_copy_count_from_guards(code_low: u64, stack_low: u64) -> (count: usize)
    ensures
        alias_copy_count(seq![code_low, stack_low], count as int),
{
    let addrs: [u64; 2] = [code_low, stack_low];
    assert(addrs@ =~= seq![code_low, stack_low]);
    recommend_alias_copy_count_from_addrs(&addrs)
}

/// How many slots the alias has to cover for a piece of code, its stack and its frame.
pub fn recommend_alias_copy_count_from_context(code_low: u64, rsp_low: u64, rbp_low: u64) -> (count:
    usize)
    ensures
        alias_copy_count(seq![code_low, rsp_low, rbp_low], count as int),
{
    let addrs: [u64; 3] = [code_low, rsp_low, rbp_low];
    assert(addrs@ =~= seq![code_low, rsp_low, rbp_low]);
    recommend_alias_copy_count_from_addrs(&addrs)
}

/// The count is the only one that fits the addresses.
pub proof fn law_alias_copy_count_is_unique(addrs: Seq<u64>, a: int, b: int)
    requires
        alias_copy_count(addrs, a),
        alias_copy_count(addrs, b),
    ensures
        a == b,
{
}

/// The user slot is its PML4 slot, and no address of it has a high alias.
pub proof fn law_user_space_is_a_slot(addr: u64)
    ensures
        USER_SPACE_BASE == slot_base(USER_PML4_INDEX as int),
        USER_SPACE_BASE <= addr < USER_SPACE_BASE + USER_SPACE_SIZE ==> spec_pml4_index(addr)
            == USER_PML4_INDEX && !has_high_alias(addr),
{
}

/// Making an address canonical twice is making it canonical once, and keeps its slot.
pub proof fn law_canonical_is_stable(addr: u64)
    ensures
        0 <= spec_canonicalize(addr) <= u64::MAX,
        spec_canonicalize(spec_canonicalize(addr) as u64) == spec_canonicalize(addr),
        spec_pml4_index(spec_canonicalize(addr) as u64) == spec_pml4_index(addr),
{
    assert(addr % 0x1_0000_0000_0000u64 < 0x8000_0000_0000u64 || (addr % 0x1_0000_0000_0000u64
        + 0xffff_0000_0000_0000u64) % 0x1_0000_0000_0000 == addr % 0x1_0000_0000_0000u64)
        by (bit_vector);
    let low = addr as int % 0x1_0000_0000_0000;
    assert((addr as int / 0x80_0000_0000) % 512 == low / 0x80_0000_0000);
    let c = spec_canonicalize(addr);
    assert((c / 0x80_0000_0000) % 512 == low / 0x80_0000_0000);
}

/// An alias is a canonical address in the alias slots, at the same place in its slot, and
/// no two addresses of the first slots share one.
pub proof fn law_high_alias(a: u64, b: u64)
    requires
        has_high_alias(a),
        has_high_alias(b),
        a == spec_canonicalize(a),
        b == spec_canonicalize(b),
    ensures
        0xffff_fe00_0000_0000 <= spec_high_alias(a) <= u64::MAX,
        spec_high_alias(a) == a + 0xffff_fe00_0000_0000,
        spec_pml4_index(spec_high_alias(a) as u64) == KERNEL_ALIAS_DST_PML4_BASE_INDEX
            + spec_pml4_index(a),
        spec_high_alias(a) == spec_high_alias(b) ==> a == b,
{
    assert(a < 0x200_0000_0000 && b < 0x200_0000_0000);
    let h = spec_high_alias(a);
    assert(h == a + 0xffff_fe00_0000_0000);
    assert((h / 0x80_0000_0000) % 512 == 508 + a as int / 0x80_0000_0000);
}

} // verus!
