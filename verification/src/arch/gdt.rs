//! The stacks for exceptions and for entries from user code. They are reached through the
//! high alias, which every address space has.

use vstd::prelude::*;

use crate::arch::paging::tables::{align_down_16, floor_16};
use crate::arch::virt_layout::{
    has_high_alias, kernel_high_alias_of_low, pml4_index, spec_high_alias,
};
use crate::kernel::lines::{info, push_info, push_value, value};
use crate::kernel::types::LogLine;
use crate::types::spec_pml4_index;

verus! {

/// The entry of the interrupt stack table for double faults.
pub const DOUBLE_FAULT_IST_INDEX: u16 = 0;

/// The entry of the interrupt stack table for page faults.
pub const PAGE_FAULT_IST_INDEX: u16 = 1;

/// The size of the stack for entries from user code.
pub const RSP0_STACK_SIZE: usize = 32768;

/// The size of a stack for exceptions.
pub const IST_STACK_SIZE: usize = 32768;

/// Where the task state segment and the tops of the stacks are in the first slots.
#[derive(Clone, Copy, Debug, PartialEq, Eq, Structural)]
pub struct GdtPlaces {
    pub tss: u64,
    pub rsp0: u64,
    pub df_ist: u64,
    pub pf_ist: u64,
}

impl GdtPlaces {
    /// All of them have a high alias.
    pub open spec fn aliased(self) -> bool {
        has_high_alias(self.tss) && has_high_alias(self.rsp0) && has_high_alias(self.df_ist)
            && has_high_alias(self.pf_ist)
    }

    /// Where they are in the high alias; stack pointers are multiples of 16.
    pub open spec fn high(self) -> GdtPlaces {
        GdtPlaces {
            tss: spec_high_alias(self.tss) as u64,
            rsp0: floor_16(spec_high_alias(self.rsp0)) as u64,
            df_ist: floor_16(spec_high_alias(self.df_ist)) as u64,
            pf_ist: floor_16(spec_high_alias(self.pf_ist)) as u64,
        }
    }
}

pub open spec fn gdt_lines(low: GdtPlaces, high: GdtPlaces) -> Seq<LogLine> {
    seq![
        info("arch::gdt::init_high_alias: GDT/TSS loaded"),
        value("tss_low", low.tss),
        value("tss_high", high.tss),
        value("tss_high_pml4", spec_pml4_index(high.tss) as u64),
        value("rsp0_low", low.rsp0),
        value("rsp0_high", high.rsp0),
        value("rsp0_high_pml4", spec_pml4_index(high.rsp0) as u64),
        value("df_ist_index", DOUBLE_FAULT_IST_INDEX as u64),
        value("df_ist_low", low.df_ist),
        value("df_ist_high", high.df_ist),
        value("df_ist_high_pml4", spec_pml4_index(high.df_ist) as u64),
        value("pf_ist_index", PAGE_FAULT_IST_INDEX as u64),
        value("pf_ist_low", low.pf_ist),
        value("pf_ist_high", high.pf_ist),
        value("pf_ist_high_pml4", spec_pml4_index(high.pf_ist) as u64),
    ]
}

fn stack_in_alias(top: u64) -> (r: u64)
    requires
        has_high_alias(top),
    ensures
        r == floor_16(spec_high_alias(top)),
{
    align_down_16(kernel_high_alias_of_low(top))
}

/// Finds the places in the high alias, and says where they are.
pub fn init_high_alias(low: &GdtPlaces, out: &mut Vec<LogLine>) -> (high: GdtPlaces)
    requires
        low.aliased(),
    ensures
        high == low.high(),
        final(out)@ == old(out)@ + gdt_lines(*low, high),
{
    let high = GdtPlaces {
        tss: kernel_high_alias_of_low(low.tss),
        rsp0: stack_in_alias(low.rsp0),
        df_ist: stack_in_alias(low.df_ist),
        pf_ist: stack_in_alias(low.pf_ist),
    };
    push_info(out, "arch::gdt::init_high_alias: GDT/TSS loaded");
    push_value(out, "tss_low", low.tss);
    push_value(out, "tss_high", high.tss);
    push_value(out, "tss_high_pml4", pml4_index(high.tss) as u64);
    push_value(out, "rsp0_low", low.rsp0);
    push_value(out, "rsp0_high", high.rsp0);
    push_value(out, "rsp0_high_pml4", pml4_index(high.rsp0) as u64);
    push_value(out, "df_ist_index", DOUBLE_FAULT_IST_INDEX as u64);
    push_value(out, "df_ist_low", low.df_ist);
    push_value(out, "df_ist_high", high.df_ist);
    push_value(out, "df_ist_high_pml4", pml4_index(high.df_ist) as u64);
    push_value(out, "pf_ist_index", PAGE_FAULT_IST_INDEX as u64);
    push_value(out, "pf_ist_low", low.pf_ist);
    push_value(out, "pf_ist_high", high.pf_ist);
    push_value(out, "pf_ist_high_pml4", pml4_index(high.pf_ist) as u64);
    high
}

} // verus!
