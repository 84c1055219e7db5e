//! Kinds of memory accesses and of the watchpoints that look for them.

use vstd::prelude::*;

verus! {

/// The kinds of accesses that a watchpoint reports.
#[derive(Debug, Clone, Copy, PartialEq, Eq, Structural)]
pub enum WatchKind {
    /// The watched location is written.
    Write,
    /// The watched location is read.
    Read,
    /// The watched location is read or written.
    ReadWrite,
}

/// What an instruction did with the memory it touched.
#[derive(Debug, Clone, Copy, PartialEq, Eq, Structural)]
pub enum MemoryAccessType {
    /// The instruction loaded from memory.
    Read,
    /// The instruction stored to memory.
    Write,
}

/// Whether a watchpoint of kind `kind` reports the access `access`.
pub open spec fn watch_triggered(kind: WatchKind, access: Option<MemoryAccessType>) -> bool {
    match access {
        None => false,
        Some(MemoryAccessType::Read) => kind != WatchKind::Write,
        Some(MemoryAccessType::Write) => kind != WatchKind::Read,
    }
}

/// Decides whether a watchpoint of kind `kind` reports the access `access`.
pub fn triggers(kind: WatchKind, access: Option<MemoryAccessType>) -> (r: bool)
    ensures
        r == watch_triggered(kind, access),
{
    match (kind, access) {
        (WatchKind::Write, Some(MemoryAccessType::Write)) => true,
        (WatchKind::Read, Some(MemoryAccessType::Read)) => true,
        (WatchKind::ReadWrite, Some(_)) => true,
        _ => false,
    }
}

} // verus!
