//! The decisions of the loop that runs the executor until there is something
//! to report to the remote debugger.
//!
//! The loop alternates between decisions and work on the outside: looking at
//! the connection, and executing one cycle. The decisions are made by
//! [`DebuggerEventLoop::wait_for_stop_reason`]: the caller hands in what just
//! happened as a [`LoopEvent`] and performs the [`LoopAction`] that comes back.

use vstd::prelude::*;

use crate::executor::{
    DebuggerState, DebuggerView, ExecutionDirection, Executor, ExecutorView,
};
use crate::watch::{triggers, watch_triggered, WatchKind};

verus! {

/// The connection is looked at when the clock is a multiple of this number.
pub const POLL_INTERVAL: u32 = 1024;

/// The byte by which the remote debugger asks for an interrupt.
pub const INTERRUPT_BYTE: u8 = 0x03;

/// The number of the signal that reports an interrupt.
pub const SIGINT: u8 = 2;

/// Where in a syscall the executor stopped.
#[derive(Debug, Clone, Copy, PartialEq, Eq, Structural)]
pub enum SyscallPosition {
    /// At the entry of the syscall.
    Entry,
    /// At the return of the syscall.
    Return,
}

/// Why the executor stopped.
#[derive(Debug, Clone, Copy, PartialEq, Eq, Structural)]
pub enum StopReason {
    /// A single step is done.
    DoneStep,
    /// The program exited with this code.
    Exited(u8),
    /// A signal was received.
    Signal(u8),
    /// A software breakpoint was hit.
    SwBreak,
    /// A watchpoint was hit.
    Watch {
        /// The kind of the watchpoint.
        kind: WatchKind,
        /// The watched address.
        addr: u32,
    },
    /// A syscall was caught.
    CatchSyscall {
        /// The number of the syscall.
        number: u32,
        /// Where in the syscall the executor stopped.
        position: SyscallPosition,
    },
}

/// What happened since the last decision of the loop.
#[derive(Debug, Clone, Copy)]
pub enum LoopEvent {
    /// The loop was entered.
    Enter,
    /// The connection was looked at; the byte that waits there, if there is
    /// one.
    Polled(Option<u8>),
    /// A cycle was executed; whether the program is done, or that execution
    /// failed.
    Executed(Result<bool, ()>),
}

/// What to do next.
#[derive(Debug, Clone, Copy)]
pub enum LoopAction {
    /// Look at the connection without waiting, then hand in
    /// [`LoopEvent::Polled`].
    PollConnection,
    /// Execute one cycle, then hand in [`LoopEvent::Executed`].
    ExecuteCycle,
    /// Leave the loop and report the stop reason.
    Stop(StopReason),
    /// Leave the loop and report the error.
    Fail(&'static str),
}

/// Whether syscall `number` is caught.
pub open spec fn catches(d: DebuggerView, number: u32) -> bool {
    d.catch_syscalls_enabled && (d.catch_syscalls =~= Set::empty() || d.catch_syscalls.contains(
        number,
    ))
}

/// The number of the last syscall, if there was one and it is caught.
pub open spec fn caught_syscall(d: DebuggerView) -> Option<u32> {
    match d.last_syscall {
        Some(number) if catches(d, number) => Some(number),
        _ => None,
    }
}

/// The kind of the watchpoint that the last access hit, if it hit one.
pub open spec fn hit_watchpoint(d: DebuggerView) -> Option<WatchKind> {
    match d.last_access_addr {
        Some(addr) if d.watchpoints.contains_key(addr) && watch_triggered(
            d.watchpoints[addr],
            d.last_access_type,
        ) => Some(d.watchpoints[addr]),
        _ => None,
    }
}

/// The debugger after a move: what the last instruction did is forgotten.
pub open spec fn without_last_access(d: DebuggerView) -> DebuggerView {
    DebuggerView { last_syscall: None, last_access_addr: None, last_access_type: None, ..d }
}

/// Why to stop at `pc`, if there is a reason: a caught syscall comes before a
/// breakpoint, that before a watchpoint, that before the end of a step.
pub open spec fn reason_to_stop(d: DebuggerView, pc: u32) -> Option<StopReason> {
    if caught_syscall(d) is Some {
        Some(
            StopReason::CatchSyscall {
                number: caught_syscall(d)->0,
                position: SyscallPosition::Entry,
            },
        )
    } else if d.breakpoints.contains(pc) {
        Some(StopReason::SwBreak)
    } else if hit_watchpoint(d) is Some {
        Some(StopReason::Watch { kind: hit_watchpoint(d)->0, addr: d.last_access_addr->0 })
    } else if d.is_stepping {
        Some(StopReason::DoneStep)
    } else {
        None
    }
}

/// The debugger after that check: a stop at the entry of a syscall is
/// remembered.
pub open spec fn after_check(d: DebuggerView) -> DebuggerView {
    if caught_syscall(d) is Some {
        DebuggerView { at_syscall_entry: true, ..d }
    } else {
        d
    }
}

/// The stop at the return of a syscall that is due before the executor moves
/// on, if one is.
pub open spec fn syscall_return(d: DebuggerView) -> Option<StopReason> {
    if d.at_syscall_entry && caught_syscall(d) is Some {
        Some(
            StopReason::CatchSyscall {
                number: caught_syscall(d)->0,
                position: SyscallPosition::Return,
            },
        )
    } else {
        None
    }
}

/// The executor with a snapshot of its state saved, ready to execute a cycle.
pub open spec fn snapshot_taken(e: ExecutorView) -> ExecutorView {
    e.with_debugger(
        DebuggerView {
            history: e.debugger().history.push(e.state),
            ..without_last_access(e.debugger())
        },
    )
}

/// The executor back in the last state that was saved.
pub open spec fn rewound(e: ExecutorView) -> ExecutorView {
    ExecutorView {
        state: e.debugger().history.last(),
        debugger_state: Some(
            DebuggerView {
                history: e.debugger().history.drop_last(),
                at_syscall_entry: false,
                ..without_last_access(e.debugger())
            },
        ),
    }
}

/// The executor that no longer stands at the entry of a syscall.
pub open spec fn past_syscall_entry(e: ExecutorView) -> ExecutorView {
    e.with_debugger(DebuggerView { at_syscall_entry: false, ..e.debugger() })
}

/// The loop at the beginning of a round: the connection is looked at first
/// when the clock says so.
pub open spec fn round(e: ExecutorView) -> (ExecutorView, LoopAction)
    decreases e.debugger().history.len(), 1int,
{
    if e.state.clk % POLL_INTERVAL == 0 {
        (e, LoopAction::PollConnection)
    } else {
        advance(e)
    }
}

/// The loop once no interrupt was found: a pending syscall return is
/// reported, or the executor moves in the direction that was asked for.
pub open spec fn advance(e: ExecutorView) -> (ExecutorView, LoopAction)
    decreases e.debugger().history.len(), 0int,
{
    let past = past_syscall_entry(e);
    if syscall_return(e.debugger()) is Some {
        (past, LoopAction::Stop(syscall_return(e.debugger())->0))
    } else if e.debugger().execution_direction == ExecutionDirection::Forward {
        (snapshot_taken(past), LoopAction::ExecuteCycle)
    } else if e.debugger().history.len() == 0 {
        (past, LoopAction::Stop(StopReason::Exited(0)))
    } else {
        settle(rewound(past))
    }
}

/// The loop after a move: it stops if there is a reason to, and begins the
/// next round if there is none.
pub open spec fn settle(e: ExecutorView) -> (ExecutorView, LoopAction)
    decreases e.debugger().history.len(), 2int,
{
    let reason = reason_to_stop(e.debugger(), e.state.pc);
    if reason is Some {
        (e.with_debugger(after_check(e.debugger())), LoopAction::Stop(reason->0))
    } else {
        round(e)
    }
}

/// The decision of the loop on an event: the executor after it, and the
/// action.
pub open spec fn decide(e: ExecutorView, event: LoopEvent) -> (ExecutorView, LoopAction) {
    match event {
        LoopEvent::Enter => round(e),
        LoopEvent::Polled(byte) => if byte == Some(INTERRUPT_BYTE) {
            (e, LoopAction::Stop(StopReason::Signal(SIGINT)))
        } else {
            advance(e)
        },
        LoopEvent::Executed(Err(_)) => (e, LoopAction::Fail("execution failed")),
        LoopEvent::Executed(Ok(true)) => (e, LoopAction::Stop(StopReason::Exited(0))),
        LoopEvent::Executed(Ok(false)) => settle(e),
    }
}

/// Whether the decision on an event reads the state of the debugger.
pub open spec fn needs_debugger(e: ExecutorView, event: LoopEvent) -> bool {
    match event {
        LoopEvent::Enter => e.state.clk % POLL_INTERVAL != 0,
        LoopEvent::Polled(byte) => byte != Some(INTERRUPT_BYTE),
        LoopEvent::Executed(done) => done == Ok::<bool, ()>(false),
    }
}

/// The number of the last syscall, if there was one and it is caught.
fn find_caught_syscall(d: &DebuggerState) -> (r: Option<u32>)
    ensures
        r == caught_syscall(d@),
{
    if d.catch_syscalls_enabled {
        if let Some(number) = d.last_syscall {
            if d.catch_syscalls.is_empty() || d.catch_syscalls.contains(number) {
                return Some(number);
            }
        }
    }
    None
}

/// Checks the state that the executor is in for a reason to stop.
fn check_stop(d: &mut DebuggerState, pc: u32) -> (r: Option<StopReason>)
    ensures
        r == reason_to_stop(old(d)@, pc),
        final(d)@ == after_check(old(d)@),
{
    if let Some(number) = find_caught_syscall(d) {
        d.at_syscall_entry = true;
        return Some(StopReason::CatchSyscall { number, position: SyscallPosition::Entry });
    }
    if d.breakpoints.contains(pc) {
        return Some(StopReason::SwBreak);
    }
    if let Some(addr) = d.last_access_addr {
        if let Some(kind) = d.watchpoints.get(addr) {
            if triggers(kind, d.last_access_type) {
                return Some(StopReason::Watch { kind, addr });
            }
        }
    }
    if d.is_stepping {
        return Some(StopReason::DoneStep);
    }
    None
}

/// Reports a pending syscall return, and marks the syscall entry as passed.
fn leave_syscall_entry(d: &mut DebuggerState) -> (r: Option<StopReason>)
    ensures
        r == syscall_return(old(d)@),
        final(d)@ == (DebuggerView { at_syscall_entry: false, ..old(d)@ }),
{
    if d.at_syscall_entry {
        d.at_syscall_entry = false;
        if let Some(number) = find_caught_syscall(d) {
            return Some(StopReason::CatchSyscall { number, position: SyscallPosition::Return });
        }
    }
    None
}

/// Forgets what the last instruction did.
fn clear_last_access(d: &mut DebuggerState)
    ensures
        final(d)@ == without_last_access(old(d)@),
{
    d.last_access_addr = None;
    d.last_access_type = None;
    d.last_syscall = None;
}

/// A custom event loop for the debugger.
pub struct DebuggerEventLoop<'a>(std::marker::PhantomData<&'a ()>);

impl<'a> DebuggerEventLoop<'a> {
    /// Whether the decision on `event` reads the state of the debugger, so
    /// that one has to be attached.
    pub fn reads_debugger(target: &Executor, event: LoopEvent) -> (r: bool)
        ensures
            r == needs_debugger(target@, event),
            event is Enter ==> r == (target.state.clk % 1024 != 0),
            event is Polled ==> r == (event != LoopEvent::Polled(Some(0x03u8))),
            event is Executed ==> r == (event == LoopEvent::Executed(Ok(false))),
    {
        match event {
            LoopEvent::Enter => target.state.clk % POLL_INTERVAL != 0,
            LoopEvent::Polled(Some(byte)) => byte != INTERRUPT_BYTE,
            LoopEvent::Polled(None) => true,
            LoopEvent::Executed(Ok(done)) => !done,
            LoopEvent::Executed(Err(_)) => false,
        }
    }

    /// Decides what the loop does after `event`, and brings the executor into
    /// the state in which that is done.
    pub fn wait_for_stop_reason(target: &mut Executor, event: LoopEvent) -> (action: LoopAction)
        requires
            needs_debugger(old(target)@, event) ==> old(target)@.debugger_state is Some,
        ensures
            (final(target)@, action) == decide(old(target)@, event),
            event == LoopEvent::Executed(Ok(true)) ==> action == LoopAction::Stop(
                StopReason::Exited(0),
            ) && final(target)@ == old(target)@,
            event matches LoopEvent::Executed(Err(_)) ==> action == LoopAction::Fail(
                "execution failed",
            ) && final(target)@ == old(target)@,
            event == LoopEvent::Polled(Some(0x03u8)) ==> action == LoopAction::Stop(
                StopReason::Signal(2),
            ) && final(target)@ == old(target)@,
            event == LoopEvent::Enter && old(target).state.clk % 1024 == 0 ==> action
                == LoopAction::PollConnection && final(target)@ == old(target)@,
    {
        let mut poll_first: bool = match event {
            LoopEvent::Enter => true,
            LoopEvent::Polled(byte) => {
                if let Some(b) = byte {
                    if b == INTERRUPT_BYTE {
                        return LoopAction::Stop(StopReason::Signal(SIGINT));
                    }
                }
                false
            },
            LoopEvent::Executed(Err(_)) => {
                return LoopAction::Fail("execution failed");
            },
            LoopEvent::Executed(Ok(done)) => {
                if done {
                    return LoopAction::Stop(StopReason::Exited(0));
                }
                if let Some(d) = &mut target.debugger_state {
                    if let Some(reason) = check_stop(d, target.state.pc) {
                        return LoopAction::Stop(reason);
                    }
                }
                true
            },
        };
        loop
            invariant
                decide(old(target)@, event) == if poll_first {
                    round(target@)
                } else {
                    advance(target@)
                },
                !poll_first || target@.state.clk % POLL_INTERVAL != 0
                    ==> target@.debugger_state is Some,
            decreases target@.debugger().history.len(),
        {
            let ghost start = target@;
            if poll_first && target.state.clk % POLL_INTERVAL == 0 {
                return LoopAction::PollConnection;
            }
            if let Some(d) = &mut target.debugger_state {
                if let Some(reason) = leave_syscall_entry(d) {
                    return LoopAction::Stop(reason);
                }
                match d.execution_direction {
                    ExecutionDirection::Forward => {
                        d.history.push_back(target.state.clone());
                        clear_last_access(d);
                        return LoopAction::ExecuteCycle;
                    },
                    ExecutionDirection::Backward => {
                        match d.history.pop_back() {
                            Some(previous) => {
                                target.state = previous;
                                clear_last_access(d);
                                d.at_syscall_entry = false;
                            },
                            None => {
                                return LoopAction::Stop(StopReason::Exited(0));
                            },
                        }
                    },
                }
                if let Some(reason) = check_stop(d, target.state.pc) {
                    return LoopAction::Stop(reason);
                }
            }
            assert(target@ =~= rewound(past_syscall_entry(start)));
            poll_first = true;
        }
    }

    /// The stop reason that answers an interrupt of the remote debugger.
    pub fn on_interrupt(_target: &mut Executor) -> (r: Result<Option<StopReason>, &'static str>)
        ensures
            r == Ok::<Option<StopReason>, &'static str>(Some(StopReason::Signal(SIGINT))),
            r == Ok::<Option<StopReason>, &'static str>(Some(StopReason::Signal(2))),
            final(_target)@ == old(_target)@,
    {
        Ok(Some(StopReason::Signal(SIGINT)))
    }
}

} // verus!
