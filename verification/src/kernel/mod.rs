//! The kernel proper: a state machine of tasks, queues, endpoints and address spaces,
//! which runs one tick at a time and tells the machine what to do.

pub mod demo;
pub mod dump;
pub mod endpoint;
pub mod entry;
pub mod invariants;
pub mod ipc;
pub mod kill;
pub mod laws;
pub mod lines;
pub mod mem_demo;
pub mod model;
pub mod pagetable_init;
pub mod queue;
pub mod sched;
pub mod state;
pub mod state_ref;
pub mod syscall;
pub mod tick;
pub mod trace;
pub mod types;
pub mod user_program;
