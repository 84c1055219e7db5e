//! Laws on the mathematical views: they hold all of what they stand for.

use vstd::prelude::*;

use crate::executor::{
    fresh_debugger, history_view, DebuggerState, DebuggerView, ExecutionDirection, Executor,
    ExecutorView,
};
use crate::state::{value_or_zero, ExecutionState, MemoryRecord};
use crate::watch::{watch_triggered, MemoryAccessType, WatchKind};

verus! {

/// The view of a machine state has each of its parts.
pub proof fn law_state_view(s: ExecutionState)
    ensures
        s@.pc == s.pc,
        s@.clk == s.clk,
        s@.current_shard == s.current_shard,
        s@.registers == s.memory.registers@,
        s@.words == s.memory.words@,
{
}

/// The view of a history has the view of each of its states, in order.
pub proof fn law_history_view(history: Seq<ExecutionState>)
    ensures
        history_view(history).len() == history.len(),
        forall|i: int|
            0 <= i < history.len() ==> #[trigger] history_view(history)[i] == history[i]@,
{
}

/// The view of a debugger has each of its parts.
pub proof fn law_debugger_view(d: DebuggerState)
    ensures
        d@.execution_direction == d.execution_direction,
        d@.breakpoints == d.breakpoints@,
        d@.watchpoints == d.watchpoints@,
        d@.last_syscall == d.last_syscall,
        d@.history.len() == d.history@.len(),
        forall|i: int| 0 <= i < d.history@.len() ==> #[trigger] d@.history[i] == d.history@[i]@,
        d@.last_access_addr == d.last_access_addr,
        d@.last_access_type == d.last_access_type,
        d@.catch_syscalls == d.catch_syscalls@,
        d@.catch_syscalls_enabled == d.catch_syscalls_enabled,
        d@.at_syscall_entry == d.at_syscall_entry,
        d@.is_stepping == d.is_stepping,
{
}

/// The view of an executor has the state of its machine, and that of its
/// debugger exactly when one is attached.
pub proof fn law_executor_view(e: Executor)
    ensures
        e@.state == e.state@,
        e@.debugger_state is Some <==> e.debugger_state is Some,
        e.debugger_state matches Some(d) ==> e@.debugger_state == Some(d@),
{
}

/// Attaching another debugger state changes nothing else, and it is then the
/// one that is attached.
pub proof fn law_with_debugger(e: ExecutorView, d: DebuggerView)
    ensures
        e.with_debugger(d).debugger_state == Some(d),
        e.with_debugger(d).debugger() == d,
        e.with_debugger(d).state == e.state,
{
}

/// A debugger that was just attached has nothing to stop at and nothing to go
/// back to.
pub proof fn law_fresh_debugger(addr: u32)
    ensures
        fresh_debugger().execution_direction == ExecutionDirection::Forward,
        !fresh_debugger().breakpoints.contains(addr),
        !fresh_debugger().watchpoints.contains_key(addr),
        !fresh_debugger().catch_syscalls.contains(addr),
        !fresh_debugger().catch_syscalls_enabled,
        !fresh_debugger().at_syscall_entry,
        !fresh_debugger().is_stepping,
        fresh_debugger().history.len() == 0,
        fresh_debugger().last_syscall is None,
        fresh_debugger().last_access_addr is None,
        fresh_debugger().last_access_type is None,
{
}

/// What was recorded is read, and what was not recorded is zero.
pub proof fn law_value_or_zero(record: MemoryRecord)
    ensures
        value_or_zero(Some(record)) == record.value,
        value_or_zero(None) == 0,
{
}

/// A watchpoint looks for reads, for writes, or for both; an access is one of
/// the two; without an access none is found.
pub proof fn law_watch_kinds(kind: WatchKind, access: MemoryAccessType)
    ensures
        watch_triggered(WatchKind::Read, Some(access)) <==> access == MemoryAccessType::Read,
        watch_triggered(WatchKind::Write, Some(access)) <==> access == MemoryAccessType::Write,
        watch_triggered(WatchKind::ReadWrite, Some(access)),
        !watch_triggered(kind, None),
{
}

} // verus!
