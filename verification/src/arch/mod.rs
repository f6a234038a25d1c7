//! What is particular to x86_64: the virtual layout, the rules for page tables and
//! address-space switches, the page-fault guard, the trap interface.

pub mod gdt;
pub mod interrupts;
pub mod laws;
pub mod paging;
pub mod ring3;
pub mod virt_layout;
pub mod x86;
