//! Laws on what the loop reports: for each outcome, exactly when it comes, and
//! in what state it leaves the executor. They speak of the fields of the
//! machine and of the debugger alone.

use vstd::prelude::*;

use crate::event_loop::{
    decide, needs_debugger, past_syscall_entry, rewound, LoopAction, LoopEvent, StopReason,
    SyscallPosition,
};
use crate::executor::{DebuggerView, ExecutionDirection, ExecutorView};
use crate::state::StateView;
use crate::watch::{MemoryAccessType, WatchKind};

verus! {

/// The end of the program is reported as such, and a cycle that failed as a
/// failure, whatever else there might be to report; the executor stays as the
/// cycle left it.
pub proof fn law_end_of_program(e: ExecutorView)
    ensures
        decide(e, LoopEvent::Executed(Ok(true))) == (e, LoopAction::Stop(StopReason::Exited(0))),
        decide(e, LoopEvent::Executed(Err(()))) == (e, LoopAction::Fail("execution failed")),
{
}

/// An exit is only ever reported when the program is done, or when the history
/// is used up on the way back; and its code is zero.
pub proof fn law_exit_only_at_an_end(s: StateView, d: DebuggerView, event: LoopEvent, code: u8)
    requires
        decide(ExecutorView { state: s, debugger_state: Some(d) }, event).1 == LoopAction::Stop(
            StopReason::Exited(code),
        ),
    ensures
        code == 0,
        event == LoopEvent::Executed(Ok(true)) || {
            &&& d.execution_direction == ExecutionDirection::Backward
            &&& decide(
                ExecutorView { state: s, debugger_state: Some(d) },
                event,
            ).0.debugger_state matches Some(left)
            &&& left.history.len() == 0
        },
    decreases d.history.len(),
{
    let e = ExecutorView { state: s, debugger_state: Some(d) };
    if event != LoopEvent::Executed(Ok(true)) && d.history.len() > 0 {
        let r = rewound(past_syscall_entry(e));
        if decide(e, event).1 == decide(r, LoopEvent::Executed(Ok(false))).1 {
            law_exit_only_at_an_end(
                r.state,
                r.debugger_state->0,
                LoopEvent::Executed(Ok(false)),
                code,
            );
        }
    }
}

/// The end of a step is only reported while stepping, and then the debugger
/// still steps; so after a command to run on, no end of a step is reported.
pub proof fn law_done_step_only_while_stepping(s: StateView, d: DebuggerView, event: LoopEvent)
    ensures
        !d.is_stepping ==> decide(ExecutorView { state: s, debugger_state: Some(d) }, event).1
            != LoopAction::Stop(StopReason::DoneStep),
        decide(
            ExecutorView { state: s, debugger_state: Some(d) },
            event,
        ).0.debugger_state matches Some(left) && left.is_stepping == d.is_stepping
            && left.execution_direction == d.execution_direction,
    decreases d.history.len(),
{
    let e = ExecutorView { state: s, debugger_state: Some(d) };
    if d.history.len() > 0 {
        let r = rewound(past_syscall_entry(e));
        law_done_step_only_while_stepping(
            r.state,
            r.debugger_state->0,
            LoopEvent::Executed(Ok(false)),
        );
    }
}

/// A signal is reported exactly when the interrupt byte was found on the
/// connection, and the executor stays as it is.
pub proof fn law_signal_exactly_on_interrupt(s: StateView, d: DebuggerView, event: LoopEvent)
    ensures
        (decide(ExecutorView { state: s, debugger_state: Some(d) }, event).1 matches
            LoopAction::Stop(StopReason::Signal(_))) <==> event == LoopEvent::Polled(Some(0x03u8)),
        event == LoopEvent::Polled(Some(0x03u8)) ==> decide(
            ExecutorView { state: s, debugger_state: Some(d) },
            event,
        ) == (
            ExecutorView { state: s, debugger_state: Some(d) },
            LoopAction::Stop(StopReason::Signal(2)),
        ),
    decreases d.history.len(),
{
    let e = ExecutorView { state: s, debugger_state: Some(d) };
    if d.history.len() > 0 {
        let r = rewound(past_syscall_entry(e));
        law_signal_exactly_on_interrupt(
            r.state,
            r.debugger_state->0,
            LoopEvent::Executed(Ok(false)),
        );
    }
}

/// After a forward cycle that did not end the program, each stop reason is
/// reported exactly when it applies and none that goes before it does: first
/// a syscall that is caught, then a breakpoint at the program counter, then an
/// access that a watchpoint looks for, then the end of a step. Without any of
/// these the loop does not stop.
pub proof fn law_stops_after_cycle(
    s: StateView,
    d: DebuggerView,
    number: u32,
    addr: u32,
    kind: WatchKind,
)
    requires
        d.execution_direction == ExecutionDirection::Forward,
    ensures
        ({
            let action = decide(
                ExecutorView { state: s, debugger_state: Some(d) },
                LoopEvent::Executed(Ok(false)),
            ).1;
            let caught = d.catch_syscalls_enabled && d.last_syscall is Some && ((forall|n: u32|
                !d.catch_syscalls.contains(n)) || d.catch_syscalls.contains(d.last_syscall->0));
            let at_breakpoint = d.breakpoints.contains(s.pc);
            let watched = d.last_access_addr is Some && d.watchpoints.contains_key(
                d.last_access_addr->0,
            ) && match d.last_access_type {
                Some(MemoryAccessType::Read) => d.watchpoints[d.last_access_addr->0]
                    == WatchKind::Read || d.watchpoints[d.last_access_addr->0]
                    == WatchKind::ReadWrite,
                Some(MemoryAccessType::Write) => d.watchpoints[d.last_access_addr->0]
                    == WatchKind::Write || d.watchpoints[d.last_access_addr->0]
                    == WatchKind::ReadWrite,
                None => false,
            };
            &&& action == LoopAction::Stop(
                StopReason::CatchSyscall { number, position: SyscallPosition::Entry },
            ) <==> caught && d.last_syscall == Some(number)
            &&& action == LoopAction::Stop(StopReason::SwBreak) <==> at_breakpoint && !caught
            &&& action == LoopAction::Stop(StopReason::Watch { kind, addr }) <==> watched
                && d.last_access_addr == Some(addr) && d.watchpoints[addr] == kind
                && !at_breakpoint && !caught
            &&& action == LoopAction::Stop(StopReason::DoneStep) <==> d.is_stepping && !watched
                && !at_breakpoint && !caught
            &&& (action is ExecuteCycle || action is PollConnection) <==> !d.is_stepping
                && !watched && !at_breakpoint && !caught
            &&& !(action is Fail)
        }),
{
    if forall|n: u32| !d.catch_syscalls.contains(n) {
        assert(d.catch_syscalls =~= Set::empty());
    }
}

/// After a cycle that did not end the program, in whatever direction the
/// executor is set to go: where nothing is to be reported the next round
/// begins, and otherwise the report names what applies, the syscall first.
pub proof fn law_report_or_go_on(s: StateView, d: DebuggerView)
    ensures
        ({
            let e = ExecutorView { state: s, debugger_state: Some(d) };
            let (left, action) = decide(e, LoopEvent::Executed(Ok(false)));
            let caught = d.catch_syscalls_enabled && d.last_syscall is Some && ((forall|n: u32|
                !d.catch_syscalls.contains(n)) || d.catch_syscalls.contains(d.last_syscall->0));
            let at_breakpoint = d.breakpoints.contains(s.pc);
            let watched = d.last_access_addr is Some && d.watchpoints.contains_key(
                d.last_access_addr->0,
            ) && match d.last_access_type {
                Some(MemoryAccessType::Read) => d.watchpoints[d.last_access_addr->0]
                    != WatchKind::Write,
                Some(MemoryAccessType::Write) => d.watchpoints[d.last_access_addr->0]
                    != WatchKind::Read,
                None => false,
            };
            &&& caught ==> action == LoopAction::Stop(
                StopReason::CatchSyscall {
                    number: d.last_syscall->0,
                    position: SyscallPosition::Entry,
                },
            ) && left == (ExecutorView {
                state: s,
                debugger_state: Some(DebuggerView { at_syscall_entry: true, ..d }),
            })
            &&& !caught && at_breakpoint ==> (left, action) == (
                e,
                LoopAction::Stop(StopReason::SwBreak),
            )
            &&& !caught && !at_breakpoint && watched ==> (left, action) == (
                e,
                LoopAction::Stop(
                    StopReason::Watch {
                        kind: d.watchpoints[d.last_access_addr->0],
                        addr: d.last_access_addr->0,
                    },
                ),
            )
            &&& !caught && !at_breakpoint && !watched && d.is_stepping ==> (left, action) == (
                e,
                LoopAction::Stop(StopReason::DoneStep),
            )
            &&& !caught && !at_breakpoint && !watched && !d.is_stepping ==> (
                left,
                action,
            ) == decide(e, LoopEvent::Enter)
        }),
{
    if forall|n: u32| !d.catch_syscalls.contains(n) {
        assert(d.catch_syscalls =~= Set::empty());
    }
}

/// Where the loop stops after a cycle, the machine stays as the cycle left it,
/// and so does the debugger, but for the note that a caught syscall was
/// entered.
pub proof fn law_stop_after_cycle_keeps_executor(s: StateView, d: DebuggerView)
    requires
        decide(
            ExecutorView { state: s, debugger_state: Some(d) },
            LoopEvent::Executed(Ok(false)),
        ).1 is Stop,
        d.execution_direction == ExecutionDirection::Forward,
    ensures
        ({
            let (left, action) = decide(
                ExecutorView { state: s, debugger_state: Some(d) },
                LoopEvent::Executed(Ok(false)),
            );
            left == (ExecutorView {
                state: s,
                debugger_state: Some(
                    DebuggerView {
                        at_syscall_entry: d.at_syscall_entry || action->Stop_0 is CatchSyscall,
                        ..d
                    },
                ),
            })
        }),
{
}

/// The connection is looked at at the beginning of a round exactly when the
/// clock is a multiple of 1024, and before anything else is done; without that
/// look the round is the one that follows a look that found nothing.
pub proof fn law_look_at_connection(e: ExecutorView)
    ensures
        e.state.clk % 1024 == 0 ==> decide(e, LoopEvent::Enter) == (e, LoopAction::PollConnection),
        e.state.clk % 1024 != 0 ==> decide(e, LoopEvent::Enter) == decide(
            e,
            LoopEvent::Polled(None),
        ),
{
}

/// A forward cycle after which the loop does not stop is followed by the next
/// round, from the executor that the cycle left.
pub proof fn law_next_round(s: StateView, d: DebuggerView)
    requires
        d.execution_direction == ExecutionDirection::Forward,
        !(decide(
            ExecutorView { state: s, debugger_state: Some(d) },
            LoopEvent::Executed(Ok(false)),
        ).1 is Stop),
    ensures
        decide(
            ExecutorView { state: s, debugger_state: Some(d) },
            LoopEvent::Executed(Ok(false)),
        ) == decide(ExecutorView { state: s, debugger_state: Some(d) }, LoopEvent::Enter),
{
}

/// Told to go on, the executor first reports the return of a syscall that it
/// reported the entry of, if that syscall is still caught, and only then
/// moves; the report changes nothing else.
pub proof fn law_syscall_return_first(s: StateView, d: DebuggerView, number: u32, byte: Option<u8>)
    requires
        byte != Some(0x03u8),
    ensures
        ({
            let (left, action) = decide(
                ExecutorView { state: s, debugger_state: Some(d) },
                LoopEvent::Polled(byte),
            );
            let due = d.at_syscall_entry && d.catch_syscalls_enabled && d.last_syscall == Some(
                number,
            ) && ((forall|n: u32| !d.catch_syscalls.contains(n)) || d.catch_syscalls.contains(
                number,
            ));
            &&& due ==> left == (ExecutorView {
                state: s,
                debugger_state: Some(DebuggerView { at_syscall_entry: false, ..d }),
            })
            &&& action == LoopAction::Stop(
                StopReason::CatchSyscall { number, position: SyscallPosition::Return },
            ) <==> due
        }),
{
    if forall|n: u32| !d.catch_syscalls.contains(n) {
        assert(d.catch_syscalls =~= Set::empty());
    }
    if d.history.len() > 0 {
        let r = rewound(past_syscall_entry(ExecutorView { state: s, debugger_state: Some(d) }));
        lemma_no_return_backward(r.state, r.debugger_state->0);
    }
}

/// On the way back no return of a syscall is reported.
proof fn lemma_no_return_backward(s: StateView, d: DebuggerView)
    requires
        d.last_syscall is None,
    ensures
        !(decide(
            ExecutorView { state: s, debugger_state: Some(d) },
            LoopEvent::Executed(Ok(false)),
        ).1 matches LoopAction::Stop(StopReason::CatchSyscall { .. })),
    decreases d.history.len(),
{
    if d.history.len() > 0 {
        let r = rewound(past_syscall_entry(ExecutorView { state: s, debugger_state: Some(d) }));
        lemma_no_return_backward(r.state, r.debugger_state->0);
    }
}

/// With no syscall return to report, going forward executes a cycle: the
/// present state is added to the history, what the last instruction did is
/// forgotten, and nothing else changes.
pub proof fn law_forward_move(s: StateView, d: DebuggerView, byte: Option<u8>)
    requires
        byte != Some(0x03u8),
        d.execution_direction == ExecutionDirection::Forward,
        !d.at_syscall_entry || !d.catch_syscalls_enabled || d.last_syscall is None || (
        (exists|n: u32| d.catch_syscalls.contains(n)) && !d.catch_syscalls.contains(
            d.last_syscall->0,
        )),
    ensures
        decide(ExecutorView { state: s, debugger_state: Some(d) }, LoopEvent::Polled(byte)) == (
            ExecutorView {
                state: s,
                debugger_state: Some(
                    DebuggerView {
                        history: d.history.push(s),
                        last_syscall: None,
                        last_access_addr: None,
                        last_access_type: None,
                        at_syscall_entry: false,
                        ..d
                    },
                ),
            },
            LoopAction::ExecuteCycle,
        ),
{
}

/// With no syscall return to report, going backward takes the latest state off
/// the history and makes it the present one; the loop stops there at a
/// breakpoint, or else when stepping, and otherwise goes on from there. With
/// an empty history it stays and reports an exit.
pub proof fn law_backward_move(s: StateView, d: DebuggerView, byte: Option<u8>)
    requires
        byte != Some(0x03u8),
        d.execution_direction == ExecutionDirection::Backward,
        !d.at_syscall_entry || !d.catch_syscalls_enabled || d.last_syscall is None || (
        (exists|n: u32| d.catch_syscalls.contains(n)) && !d.catch_syscalls.contains(
            d.last_syscall->0,
        )),
    ensures
        ({
            let outcome = decide(
                ExecutorView { state: s, debugger_state: Some(d) },
                LoopEvent::Polled(byte),
            );
            let back = ExecutorView {
                state: d.history[d.history.len() - 1],
                debugger_state: Some(
                    DebuggerView {
                        history: d.history.take(d.history.len() - 1),
                        last_syscall: None,
                        last_access_addr: None,
                        last_access_type: None,
                        at_syscall_entry: false,
                        ..d
                    },
                ),
            };
            if d.history.len() == 0 {
                outcome == (
                    ExecutorView {
                        state: s,
                        debugger_state: Some(DebuggerView { at_syscall_entry: false, ..d }),
                    },
                    LoopAction::Stop(StopReason::Exited(0)),
                )
            } else if d.breakpoints.contains(back.state.pc) {
                outcome == (back, LoopAction::Stop(StopReason::SwBreak))
            } else if d.is_stepping {
                outcome == (back, LoopAction::Stop(StopReason::DoneStep))
            } else {
                outcome == decide(back, LoopEvent::Enter)
            }
        }),
{
    if d.history.len() > 0 {
        assert(d.history.drop_last() =~= d.history.take(d.history.len() - 1));
    }
}

/// A debugger has to be attached for every decision but these: to look at the
/// connection, to report an interrupt, and to report that a cycle ended the
/// program or failed.
pub proof fn law_debugger_needed(e: ExecutorView, event: LoopEvent)
    ensures
        !needs_debugger(e, event) <==> {
            ||| event == LoopEvent::Enter && e.state.clk % 1024 == 0
            ||| event == LoopEvent::Polled(Some(0x03u8))
            ||| event == LoopEvent::Executed(Ok(true))
            ||| event matches LoopEvent::Executed(Err(_))
        },
        !needs_debugger(e, event) ==> decide(e, event).0 == e,
        event == LoopEvent::Polled(Some(0x03u8)) ==> decide(e, event).1 == LoopAction::Stop(
            StopReason::Signal(2),
        ),
{
}

} // verus!
