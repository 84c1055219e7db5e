//! Laws on the commands of the remote debugger.

use vstd::prelude::*;

use crate::control::{
    directed, filter_numbers, stepped_back, with_breakpoints, with_catching, with_watchpoints,
};
use crate::event_loop::{catches, decide, LoopAction, LoopEvent, StopReason, SyscallPosition};
use crate::executor::{DebuggerView, ExecutionDirection, ExecutorView};
use crate::laws::execution::law_decision;
use crate::laws::outcomes::{law_done_step_only_while_stepping, law_stops_after_cycle};
use crate::state::StateView;
use crate::watch::WatchKind;

verus! {

/// The executor after a breakpoint was set at `addr`.
pub open spec fn breakpoint_added(e: ExecutorView, addr: u32) -> ExecutorView {
    with_breakpoints(e, e.debugger().breakpoints.insert(addr))
}

/// The executor after the breakpoint at `addr` was taken away.
pub open spec fn breakpoint_removed(e: ExecutorView, addr: u32) -> ExecutorView {
    with_breakpoints(e, e.debugger().breakpoints.remove(addr))
}

/// The executor after `addr` was put under watch.
pub open spec fn watchpoint_added(e: ExecutorView, addr: u32, kind: WatchKind) -> ExecutorView {
    with_watchpoints(e, e.debugger().watchpoints.insert(addr, kind))
}

/// The executor after the watch on `addr` ended.
pub open spec fn watchpoint_removed(e: ExecutorView, addr: u32) -> ExecutorView {
    with_watchpoints(e, e.debugger().watchpoints.remove(addr))
}

/// Taking a breakpoint away undoes setting it, and setting it twice is
/// setting it once.
pub proof fn law_breakpoint_add_remove(e: ExecutorView, addr: u32)
    requires
        e.debugger_state is Some,
    ensures
        !e.debugger().breakpoints.contains(addr) ==> breakpoint_removed(
            breakpoint_added(e, addr),
            addr,
        ) == e,
        breakpoint_added(breakpoint_added(e, addr), addr) == breakpoint_added(e, addr),
{
    let set = e.debugger().breakpoints;
    assert(set.insert(addr).insert(addr) =~= set.insert(addr));
    if !set.contains(addr) {
        assert(set.insert(addr).remove(addr) =~= set);
        assert(breakpoint_removed(breakpoint_added(e, addr), addr) =~= e);
    }
}

/// Ending a watch undoes setting it, and a second watch on an address takes
/// the place of the first.
pub proof fn law_watchpoint_add_remove(
    e: ExecutorView,
    addr: u32,
    first: WatchKind,
    second: WatchKind,
)
    requires
        e.debugger_state is Some,
    ensures
        !e.debugger().watchpoints.contains_key(addr) ==> watchpoint_removed(
            watchpoint_added(e, addr, first),
            addr,
        ) == e,
        watchpoint_added(watchpoint_added(e, addr, first), addr, second) == watchpoint_added(
            e,
            addr,
            second,
        ),
{
    let map = e.debugger().watchpoints;
    assert(map.insert(addr, first).insert(addr, second) =~= map.insert(addr, second));
    if !map.contains_key(addr) {
        assert(map.insert(addr, first).remove(addr) =~= map);
        assert(watchpoint_removed(watchpoint_added(e, addr, first), addr) =~= e);
    }
}

/// A breakpoint that was set stops the executor: a cycle that ends at its
/// address is the last one, until the executor is told to go on.
pub proof fn law_added_breakpoint_stops(e: ExecutorView, addr: u32)
    requires
        e.debugger_state is Some,
        e.state.pc == addr,
    ensures
        decide(breakpoint_added(e, addr), LoopEvent::Executed(Ok(false))).1 is Stop,
        decide(breakpoint_added(e, addr), LoopEvent::Executed(Ok(false))).0.state == e.state,
{
    crate::laws::execution::law_breakpoint_stops(breakpoint_added(e, addr));
}

/// A breakpoint that was taken away is not reported any more.
pub proof fn law_removed_breakpoint_is_silent(e: ExecutorView, addr: u32, event: LoopEvent)
    requires
        e.debugger_state is Some,
        decide(breakpoint_removed(e, addr), event).1 == LoopAction::Stop(StopReason::SwBreak),
    ensures
        decide(breakpoint_removed(e, addr), event).0.state.pc != addr,
{
    law_decision(breakpoint_removed(e, addr), event);
}

/// With catching on, the listed syscalls are caught, or all of them if none
/// is listed; with catching off, none is.
pub proof fn law_catch_filter(e: ExecutorView, numbers: Set<u32>, number: u32)
    ensures
        catches(with_catching(e, true, Set::empty()).debugger(), number),
        catches(with_catching(e, true, numbers.insert(number)).debugger(), number),
        numbers != Set::<u32>::empty() ==> catches(
            with_catching(e, true, numbers).debugger(),
            number,
        ) == numbers.contains(number),
        !catches(with_catching(e, false, numbers).debugger(), number),
{
}

/// Of several commands to move, the last one counts.
pub proof fn law_last_direction_counts(
    e: ExecutorView,
    first: ExecutionDirection,
    first_stepping: bool,
    second: ExecutionDirection,
    second_stepping: bool,
)
    ensures
        directed(directed(e, first, first_stepping), second, second_stepping) == directed(
            e,
            second,
            second_stepping,
        ),
{
}

/// A command to move sets the direction and whether to step, to what it says
/// and whatever else is set; it changes nothing else, and nothing at all where
/// no debugger is attached.
pub proof fn law_move_command(
    s: StateView,
    d: DebuggerView,
    direction: ExecutionDirection,
    stepping: bool,
)
    ensures
        directed(
            ExecutorView { state: s, debugger_state: Some(d) },
            direction,
            stepping,
        ).debugger_state matches Some(after) && after.execution_direction == direction
            && after.is_stepping == stepping && after == (DebuggerView {
            execution_direction: after.execution_direction,
            is_stepping: after.is_stepping,
            ..d
        }),
        directed(
            ExecutorView { state: s, debugger_state: Some(d) },
            direction,
            stepping,
        ).state == s,
        directed(ExecutorView { state: s, debugger_state: None }, direction, stepping) == (
        ExecutorView { state: s, debugger_state: None }),
{
}

/// Told to run on, forward or backward, the executor reports the end of no
/// step, whatever happens, until it is told otherwise.
pub proof fn law_running_reports_no_step(
    s: StateView,
    d: DebuggerView,
    direction: ExecutionDirection,
    event: LoopEvent,
)
    ensures
        ({
            let running = directed(
                ExecutorView { state: s, debugger_state: Some(d) },
                direction,
                false,
            );
            let (left, action) = decide(running, event);
            &&& action != LoopAction::Stop(StopReason::DoneStep)
            &&& left.debugger_state matches Some(after)
            &&& !after.is_stepping
            &&& after.execution_direction == direction
        }),
{
    let running = directed(ExecutorView { state: s, debugger_state: Some(d) }, direction, false);
    law_done_step_only_while_stepping(running.state, running.debugger_state->0, event);
}

/// Told to take one step, the executor does not begin another one after a
/// cycle.
pub proof fn law_step_ends_after_one_cycle(s: StateView, d: DebuggerView, done: bool)
    ensures
        decide(
            directed(
                ExecutorView { state: s, debugger_state: Some(d) },
                ExecutionDirection::Forward,
                true,
            ),
            LoopEvent::Executed(Ok(done)),
        ).1 is Stop,
{
}

/// A step back brings the latest saved state back, takes it, and it alone, off
/// the history, and leaves the debugger stepping; nothing else changes, the
/// direction included.
pub proof fn law_step_back(s: StateView, d: DebuggerView)
    requires
        d.history.len() > 0,
    ensures
        ({
            let back = stepped_back(ExecutorView { state: s, debugger_state: Some(d) });
            &&& back.state == d.history[d.history.len() - 1]
            &&& back.debugger_state matches Some(after)
            &&& after.history.push(back.state) == d.history
            &&& after.is_stepping
            &&& after == (DebuggerView { history: after.history, is_stepping: true, ..d })
        }),
{
    let back = stepped_back(ExecutorView { state: s, debugger_state: Some(d) });
    assert(d.history.drop_last().push(back.state) =~= d.history);
}

/// Setting or taking away a breakpoint decides about that address and about no
/// other one, and changes nothing else.
pub proof fn law_breakpoint_commands(s: StateView, d: DebuggerView, addr: u32, other: u32)
    ensures
        ({
            let e = ExecutorView { state: s, debugger_state: Some(d) };
            &&& breakpoint_added(e, addr).debugger_state matches Some(added)
            &&& added.breakpoints.contains(addr)
            &&& other != addr ==> added.breakpoints.contains(other) == d.breakpoints.contains(
                other,
            )
            &&& added == (DebuggerView { breakpoints: added.breakpoints, ..d })
            &&& breakpoint_removed(e, addr).debugger_state matches Some(removed)
            &&& !removed.breakpoints.contains(addr)
            &&& other != addr ==> removed.breakpoints.contains(other) == d.breakpoints.contains(
                other,
            )
            &&& removed == (DebuggerView { breakpoints: removed.breakpoints, ..d })
            &&& breakpoint_added(e, addr).state == s
            &&& breakpoint_removed(e, addr).state == s
        }),
{
}

/// Setting or ending a watch decides about that address and about no other
/// one, and changes nothing else.
pub proof fn law_watchpoint_commands(
    s: StateView,
    d: DebuggerView,
    addr: u32,
    kind: WatchKind,
    other: u32,
)
    ensures
        ({
            let e = ExecutorView { state: s, debugger_state: Some(d) };
            &&& watchpoint_added(e, addr, kind).debugger_state matches Some(added)
            &&& added.watchpoints.get(addr) == Some(kind)
            &&& other != addr ==> added.watchpoints.get(other) == d.watchpoints.get(other)
            &&& added == (DebuggerView { watchpoints: added.watchpoints, ..d })
            &&& watchpoint_removed(e, addr).debugger_state matches Some(removed)
            &&& removed.watchpoints.get(addr) is None
            &&& other != addr ==> removed.watchpoints.get(other) == d.watchpoints.get(other)
            &&& removed == (DebuggerView { watchpoints: removed.watchpoints, ..d })
            &&& watchpoint_added(e, addr, kind).state == s
            &&& watchpoint_removed(e, addr).state == s
        }),
{
}

/// A filter lists exactly the numbers that were given, each of them, wherever
/// it stands in the list; without a filter nothing is listed.
pub proof fn law_filter_lists_every_number(numbers: Vec<u32>, number: u32)
    ensures
        filter_numbers(Some(numbers)).contains(number) <==> exists|i: int|
            0 <= i < numbers@.len() && numbers@[i] == number,
        !filter_numbers(None).contains(number),
{
}

/// Switching catching on or off sets the switch and the numbers as given, and
/// changes nothing else.
pub proof fn law_catch_commands(s: StateView, d: DebuggerView, enabled: bool, numbers: Set<u32>)
    ensures
        ({
            let after = with_catching(
                ExecutorView { state: s, debugger_state: Some(d) },
                enabled,
                numbers,
            );
            &&& after.state == s
            &&& after.debugger_state == Some(
                DebuggerView {
                    catch_syscalls_enabled: enabled,
                    catch_syscalls: numbers,
                    ..d
                },
            )
        }),
{
}

/// Once catching is on with a list of numbers, a forward cycle that makes a
/// syscall is followed by a report of its entry exactly when its number stands
/// in the list, at whatever place, or when the list is empty or missing. Once
/// catching is off, no syscall is reported.
pub proof fn law_listed_syscalls_are_reported(
    s: StateView,
    d: DebuggerView,
    filter: Option<Vec<u32>>,
    number: u32,
)
    requires
        d.execution_direction == ExecutionDirection::Forward,
        d.last_syscall == Some(number),
    ensures
        ({
            let e = ExecutorView { state: s, debugger_state: Some(d) };
            let report = LoopAction::Stop(
                StopReason::CatchSyscall { number, position: SyscallPosition::Entry },
            );
            &&& decide(
                with_catching(e, true, filter_numbers(filter)),
                LoopEvent::Executed(Ok(false)),
            ).1 == report <==> filter is None || filter->0@.len() == 0 || exists|i: int|
                0 <= i < filter->0@.len() && filter->0@[i] == number
            &&& decide(
                with_catching(e, false, filter_numbers(filter)),
                LoopEvent::Executed(Ok(false)),
            ).1 != report
        }),
{
    let e = ExecutorView { state: s, debugger_state: Some(d) };
    let numbers = filter_numbers(filter);
    let on = with_catching(e, true, numbers).debugger_state->0;
    let off = with_catching(e, false, numbers).debugger_state->0;
    law_stops_after_cycle(s, on, number, 0, WatchKind::Read);
    law_stops_after_cycle(s, off, number, 0, WatchKind::Read);
    if let Some(list) = filter {
        law_filter_lists_every_number(list, number);
        if list@.len() > 0 {
            law_filter_lists_every_number(list, list@[0]);
            assert(numbers.contains(list@[0]));
        } else {
            assert forall|n: u32| !numbers.contains(n) by {
                law_filter_lists_every_number(list, n);
            }
        }
    }
}

} // verus!
