//! formal_os: the verified core of a small x86_64 microkernel.
//!
//! The kernel is a state machine: tasks, address spaces, endpoints, the ready and
//! wait queues and the event log are plain data, and every transition is a function
//! with a contract. What only the machine can do (CR3 writes, page-table writes, port
//! I/O) leaves the library as a request or an effect and comes back as a value.

pub mod arch;
pub mod kernel;
pub mod logging;
pub mod mem;
pub mod mm;
pub mod seqs;
pub mod types;
