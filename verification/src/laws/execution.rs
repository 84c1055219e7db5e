//! Laws on the decisions of the loop.

use vstd::prelude::*;

use crate::control::directed;
use crate::event_loop::{
    advance, catches, caught_syscall, decide, past_syscall_entry, reason_to_stop, rewound, settle,
    snapshot_taken, LoopAction, LoopEvent, StopReason, SyscallPosition, INTERRUPT_BYTE,
    POLL_INTERVAL, SIGINT,
};
use crate::executor::{DebuggerView, ExecutionDirection, ExecutorView};
use crate::watch::watch_triggered;

verus! {

/// Whether two debuggers have the same settings: everything but the history,
/// what the last instruction did, and whether a syscall was just entered.
pub open spec fn same_settings(a: DebuggerView, b: DebuggerView) -> bool {
    &&& a.execution_direction == b.execution_direction
    &&& a.breakpoints == b.breakpoints
    &&& a.watchpoints == b.watchpoints
    &&& a.catch_syscalls == b.catch_syscalls
    &&& a.catch_syscalls_enabled == b.catch_syscalls_enabled
    &&& a.is_stepping == b.is_stepping
}

/// Whether a stop reason describes the executor that stopped.
pub open spec fn reason_is_true(e: ExecutorView, reason: StopReason) -> bool {
    let d = e.debugger();
    match reason {
        StopReason::DoneStep => d.is_stepping,
        StopReason::SwBreak => d.breakpoints.contains(e.state.pc),
        StopReason::Watch { kind, addr } => {
            &&& d.last_access_addr == Some(addr)
            &&& d.watchpoints.contains_key(addr)
            &&& d.watchpoints[addr] == kind
            &&& watch_triggered(kind, d.last_access_type)
        },
        StopReason::CatchSyscall { number, .. } => d.last_syscall == Some(number) && catches(
            d,
            number,
        ),
        StopReason::Exited(_) => true,
        StopReason::Signal(_) => true,
    }
}

/// What [`law_decision`] says of the loop past the look at the connection.
pub(crate) proof fn lemma_advance(e: ExecutorView)
    ensures
        advance(e).0.debugger_state is Some,
        same_settings(e.debugger(), advance(e).0.debugger()),
        advance(e).1 is PollConnection ==> advance(e).0.state.clk % POLL_INTERVAL == 0,
        advance(e).1 is ExecuteCycle ==> {
            &&& e.debugger().execution_direction == ExecutionDirection::Forward
            &&& advance(e).0.state == e.state
            &&& advance(e).0.debugger().history == e.debugger().history.push(e.state)
        },
        advance(e).1 is Stop ==> reason_is_true(advance(e).0, advance(e).1->Stop_0),
        !(advance(e).1 is Fail),
        advance(e).1 is PollConnection ==> advance(e).0.debugger().history.len()
            < e.debugger().history.len(),
    decreases e.debugger().history.len(),
{
    let past = past_syscall_entry(e);
    if e.debugger().execution_direction == ExecutionDirection::Backward
        && e.debugger().history.len() > 0 {
        lemma_advance(rewound(past));
    }
}

/// Whatever the event, the loop keeps the settings of the debugger; it asks
/// to look at the connection only when the clock is a multiple of
/// [`POLL_INTERVAL`]; and a stop reason that it reports is true of the
/// executor that it leaves behind.
pub proof fn law_decision(e: ExecutorView, event: LoopEvent)
    requires
        e.debugger_state is Some,
    ensures
        decide(e, event).0.debugger_state is Some,
        same_settings(e.debugger(), decide(e, event).0.debugger()),
        decide(e, event).1 is PollConnection ==> decide(e, event).0.state.clk % POLL_INTERVAL == 0,
        decide(e, event).1 is Stop ==> reason_is_true(
            decide(e, event).0,
            decide(e, event).1->Stop_0,
        ),
{
    lemma_advance(e);
}

/// A cycle is only executed when execution goes forward, from the state that
/// the executor was in, and a snapshot of that state is saved before.
pub proof fn law_cycle_is_recorded(e: ExecutorView, event: LoopEvent)
    requires
        e.debugger_state is Some,
        decide(e, event).1 is ExecuteCycle,
    ensures
        e.debugger().execution_direction == ExecutionDirection::Forward,
        decide(e, event).0.state == e.state,
        decide(e, event).0.debugger().history == e.debugger().history.push(e.state),
{
    lemma_advance(e);
}

/// The loop fails exactly when a cycle failed.
pub proof fn law_fails_with_the_cycle(e: ExecutorView, event: LoopEvent)
    requires
        e.debugger_state is Some,
    ensures
        decide(e, event).1 is Fail <==> event is Executed && event->Executed_0 is Err,
{
    lemma_advance(e);
}

/// An interrupt stops the executor as it is, and any other byte on the
/// connection is the same as none.
pub proof fn law_interrupt(e: ExecutorView, byte: u8)
    ensures
        byte == INTERRUPT_BYTE ==> decide(e, LoopEvent::Polled(Some(byte))) == (
            e,
            LoopAction::Stop(StopReason::Signal(SIGINT)),
        ),
        byte != INTERRUPT_BYTE ==> decide(e, LoopEvent::Polled(Some(byte))) == decide(
            e,
            LoopEvent::Polled(None),
        ),
{
}

/// Single stepping executes one cycle: while the debugger steps, the loop
/// stops after every cycle, in the state that the cycle left.
pub proof fn law_step_executes_one_cycle(e: ExecutorView)
    requires
        e.debugger_state is Some,
        e.debugger().is_stepping,
    ensures
        decide(e, LoopEvent::Executed(Ok(false))).1 is Stop,
        decide(e, LoopEvent::Executed(Ok(false))).0.state == e.state,
{
}

/// Execution does not run past a breakpoint: when a cycle ends at one, the
/// loop stops there. It reports the breakpoint unless a syscall was caught.
pub proof fn law_breakpoint_stops(e: ExecutorView)
    requires
        e.debugger_state is Some,
        e.debugger().breakpoints.contains(e.state.pc),
    ensures
        decide(e, LoopEvent::Executed(Ok(false))).0.state == e.state,
        decide(e, LoopEvent::Executed(Ok(false))).1 == LoopAction::Stop(
            match caught_syscall(e.debugger()) {
                Some(number) => StopReason::CatchSyscall {
                    number,
                    position: SyscallPosition::Entry,
                },
                None => StopReason::SwBreak,
            },
        ),
{
}

/// Execution does not run past an access that a watchpoint looks for.
pub proof fn law_watchpoint_stops(e: ExecutorView, addr: u32)
    requires
        e.debugger_state is Some,
        e.debugger().last_access_addr == Some(addr),
        e.debugger().watchpoints.contains_key(addr),
        watch_triggered(e.debugger().watchpoints[addr], e.debugger().last_access_type),
    ensures
        decide(e, LoopEvent::Executed(Ok(false))).0.state == e.state,
        decide(e, LoopEvent::Executed(Ok(false))).1 is Stop,
        caught_syscall(e.debugger()) is None && !e.debugger().breakpoints.contains(e.state.pc)
            ==> decide(e, LoopEvent::Executed(Ok(false))).1 == LoopAction::Stop(
            StopReason::Watch { kind: e.debugger().watchpoints[addr], addr },
        ),
{
}

/// A caught syscall is reported twice, first at its entry and then, when the
/// executor is told to go on, at its return; nothing is executed and no state
/// is saved or restored in between. After that the syscall is not reported
/// again.
pub proof fn law_syscall_entry_then_return(
    e: ExecutorView,
    number: u32,
    direction: ExecutionDirection,
    stepping: bool,
)
    requires
        e.debugger_state is Some,
        caught_syscall(e.debugger()) == Some(number),
    ensures
        ({
            let (entered, at_entry) = decide(e, LoopEvent::Executed(Ok(false)));
            let (returned, at_return) = decide(
                directed(entered, direction, stepping),
                LoopEvent::Polled(None),
            );
            let (moved, afterwards) = decide(returned, LoopEvent::Polled(None));
            &&& at_entry == LoopAction::Stop(
                StopReason::CatchSyscall { number, position: SyscallPosition::Entry },
            )
            &&& at_return == LoopAction::Stop(
                StopReason::CatchSyscall { number, position: SyscallPosition::Return },
            )
            &&& entered.state == e.state
            &&& returned.state == e.state
            &&& returned.debugger().history == e.debugger().history
            &&& !(afterwards matches LoopAction::Stop(StopReason::CatchSyscall { .. }))
        }),
{
    let entered = decide(e, LoopEvent::Executed(Ok(false))).0;
    let told = directed(entered, direction, stepping);
    let returned = past_syscall_entry(told);
    assert(decide(told, LoopEvent::Polled(None)).0 == returned);
    if direction == ExecutionDirection::Backward && returned.debugger().history.len() > 0 {
        lemma_quiet_backward(rewound(past_syscall_entry(returned)));
    }
}

/// Execution goes on as long as there is no reason to stop: the next cycle is
/// executed, after a look at the connection where one is due.
pub proof fn law_resume_goes_on(e: ExecutorView)
    requires
        e.debugger_state is Some,
        e.debugger().execution_direction == ExecutionDirection::Forward,
        reason_to_stop(e.debugger(), e.state.pc) is None,
    ensures
        decide(e, LoopEvent::Executed(Ok(false))) == if e.state.clk % POLL_INTERVAL == 0 {
            (e, LoopAction::PollConnection)
        } else {
            (snapshot_taken(past_syscall_entry(e)), LoopAction::ExecuteCycle)
        },
        decide(e, LoopEvent::Polled(None)) == (
            snapshot_taken(past_syscall_entry(e)),
            LoopAction::ExecuteCycle,
        ),
{
}

/// Going back to a state reports no memory access and no syscall of it.
pub proof fn law_backward_reports_no_access(e: ExecutorView, event: LoopEvent)
    requires
        e.debugger_state is Some,
        e.debugger().execution_direction == ExecutionDirection::Backward,
        !(event is Executed),
    ensures
        !(decide(e, event).1 matches LoopAction::Stop(StopReason::Watch { .. })),
        !(decide(e, event).1 matches LoopAction::Stop(
            StopReason::CatchSyscall { position: SyscallPosition::Entry, .. },
        )),
{
    if e.debugger().history.len() > 0 {
        lemma_quiet_backward(rewound(past_syscall_entry(e)));
    }
}

/// The loop in a state that it went back to reports no memory access and no
/// syscall.
proof fn lemma_quiet_backward(e: ExecutorView)
    requires
        e.debugger().last_syscall is None,
        e.debugger().last_access_addr is None,
        e.debugger().execution_direction == ExecutionDirection::Backward,
    ensures
        !(settle(e).1 matches LoopAction::Stop(StopReason::CatchSyscall { .. })),
        !(settle(e).1 matches LoopAction::Stop(StopReason::Watch { .. })),
    decreases e.debugger().history.len(),
{
    if e.debugger().history.len() > 0 {
        lemma_quiet_backward(rewound(past_syscall_entry(e)));
    }
}

} // verus!
