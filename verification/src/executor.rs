//! The executor under debugging and the state of its debugger.

use std::collections::VecDeque;

use vstd::prelude::*;

use crate::collections::{AddressSet, WatchpointTable};
use crate::state::{ExecutionState, StateView};
use crate::watch::{MemoryAccessType, WatchKind};

verus! {

/// The direction in which the debugger moves through the execution.
#[derive(Debug, Clone, Copy, PartialEq, Eq, Structural)]
pub enum ExecutionDirection {
    /// Execute instructions.
    Forward,
    /// Go back through the saved states.
    Backward,
}

/// The state of the debugger.
#[derive(Debug)]
pub struct DebuggerState {
    /// The direction in which execution continues.
    pub execution_direction: ExecutionDirection,
    /// The addresses of the software breakpoints.
    pub breakpoints: AddressSet,
    /// The watched addresses.
    pub watchpoints: WatchpointTable,
    /// The number of the syscall that the last instruction made, if any.
    pub last_syscall: Option<u32>,
    /// The states that reverse execution can go back to, the latest last.
    pub history: VecDeque<ExecutionState>,
    /// The address that the last instruction accessed, if any.
    pub last_access_addr: Option<u32>,
    /// How the last instruction accessed that address.
    pub last_access_type: Option<MemoryAccessType>,
    /// The numbers of the syscalls to catch; all of them if it is empty.
    pub catch_syscalls: AddressSet,
    /// Whether syscalls are caught.
    pub catch_syscalls_enabled: bool,
    /// Whether the debugger last stopped at the entry of a syscall.
    pub at_syscall_entry: bool,
    /// Whether execution stops after one step.
    pub is_stepping: bool,
}

/// The mathematical content of a [`DebuggerState`].
#[verifier::ext_equal]
pub struct DebuggerView {
    /// The direction in which execution continues.
    pub execution_direction: ExecutionDirection,
    /// The addresses of the software breakpoints.
    pub breakpoints: Set<u32>,
    /// The watched addresses, with the kind of their watchpoint.
    pub watchpoints: Map<u32, WatchKind>,
    /// The number of the syscall that the last instruction made, if any.
    pub last_syscall: Option<u32>,
    /// The states that reverse execution can go back to, the latest last.
    pub history: Seq<StateView>,
    /// The address that the last instruction accessed, if any.
    pub last_access_addr: Option<u32>,
    /// How the last instruction accessed that address.
    pub last_access_type: Option<MemoryAccessType>,
    /// The numbers of the syscalls to catch; all of them if it is empty.
    pub catch_syscalls: Set<u32>,
    /// Whether syscalls are caught.
    pub catch_syscalls_enabled: bool,
    /// Whether the debugger last stopped at the entry of a syscall.
    pub at_syscall_entry: bool,
    /// Whether execution stops after one step.
    pub is_stepping: bool,
}

/// The contents of a history of states.
pub open spec fn history_view(history: Seq<ExecutionState>) -> Seq<StateView> {
    Seq::new(history.len(), |i: int| history[i]@)
}

impl View for DebuggerState {
    type V = DebuggerView;

    open spec fn view(&self) -> DebuggerView {
        DebuggerView {
            execution_direction: self.execution_direction,
            breakpoints: self.breakpoints@,
            watchpoints: self.watchpoints@,
            last_syscall: self.last_syscall,
            history: history_view(self.history@),
            last_access_addr: self.last_access_addr,
            last_access_type: self.last_access_type,
            catch_syscalls: self.catch_syscalls@,
            catch_syscalls_enabled: self.catch_syscalls_enabled,
            at_syscall_entry: self.at_syscall_entry,
            is_stepping: self.is_stepping,
        }
    }
}

/// The content of a debugger that was just attached.
pub open spec fn fresh_debugger() -> DebuggerView {
    DebuggerView {
        execution_direction: ExecutionDirection::Forward,
        breakpoints: Set::empty(),
        watchpoints: Map::empty(),
        last_syscall: None,
        history: Seq::empty(),
        last_access_addr: None,
        last_access_type: None,
        catch_syscalls: Set::empty(),
        catch_syscalls_enabled: false,
        at_syscall_entry: false,
        is_stepping: false,
    }
}

impl Default for DebuggerState {
    fn default() -> (r: Self)
        ensures
            r@ == fresh_debugger(),
            r.execution_direction == ExecutionDirection::Forward,
            r.breakpoints@ == Set::<u32>::empty(),
            r.watchpoints@ == (Map::<u32, WatchKind>::empty()),
            r.last_syscall is None,
            r.history@.len() == 0,
            r.last_access_addr is None,
            r.last_access_type is None,
            r.catch_syscalls@ == Set::<u32>::empty(),
            !r.catch_syscalls_enabled,
            !r.at_syscall_entry,
            !r.is_stepping,
    {
        DebuggerState {
            execution_direction: ExecutionDirection::Forward,
            breakpoints: AddressSet::new(),
            watchpoints: WatchpointTable::new(),
            last_syscall: None,
            history: VecDeque::new(),
            last_access_addr: None,
            last_access_type: None,
            catch_syscalls: AddressSet::new(),
            catch_syscalls_enabled: false,
            at_syscall_entry: false,
            is_stepping: false,
        }
    }
}

/// An executor, with the state of its debugger where one is attached.
#[derive(Debug)]
pub struct Executor {
    /// The state of the machine.
    pub state: ExecutionState,
    /// The state of the debugger, if one is attached.
    pub debugger_state: Option<DebuggerState>,
}

/// The mathematical content of an [`Executor`].
#[verifier::ext_equal]
pub struct ExecutorView {
    /// The state of the machine.
    pub state: StateView,
    /// The state of the debugger, if one is attached.
    pub debugger_state: Option<DebuggerView>,
}

impl View for Executor {
    type V = ExecutorView;

    open spec fn view(&self) -> ExecutorView {
        ExecutorView {
            state: self.state@,
            debugger_state: match self.debugger_state {
                Some(d) => Some(d@),
                None => None,
            },
        }
    }
}

impl ExecutorView {
    /// The state of the debugger that is attached.
    pub open spec fn debugger(self) -> DebuggerView
        recommends
            self.debugger_state is Some,
    {
        self.debugger_state->0
    }

    /// This executor with another debugger state.
    pub open spec fn with_debugger(self, debugger: DebuggerView) -> ExecutorView {
        ExecutorView { debugger_state: Some(debugger), ..self }
    }
}

} // verus!
