//! The debugger of a RISC-V zkVM executor: register and memory access,
//! breakpoints, watchpoints, syscall catching, reverse execution, and the
//! decisions of the loop that drives a remote debugging session.

pub mod access;
pub mod collections;
pub mod control;
pub mod description;
pub mod event_loop;
pub mod executor;
pub mod heap;
pub mod laws;
pub mod state;
pub mod watch;
