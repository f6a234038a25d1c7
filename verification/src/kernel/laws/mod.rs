//! What holds of the kernel as a whole, at every point between its steps.

pub mod clocks;
pub mod consistency;
pub mod counting;
pub mod death;
pub mod delivery;
pub mod demos;
pub mod dumping;
pub mod faults;
pub mod keeping;
pub mod logging;
pub mod mailbox;
pub mod messages;
pub mod pages;
pub mod programs;
pub mod records;
pub mod scheduling;
pub mod selfcheck;
pub mod sleeping;
pub mod sweeping;
pub mod switching;
pub mod telling;
pub mod ticks;
pub mod tracing;
pub mod unmapping;
