//! What holds of the debugger as a whole: laws that relate several of its
//! operations, or that hold of every decision of its loop.

pub mod commands;
pub mod documents;
pub mod execution;
pub mod memory;
pub mod outcomes;
pub mod reversal;
pub mod views;
