//! Laws on reverse execution.

use vstd::prelude::*;

use crate::control::stepped_back;
use crate::event_loop::{
    advance, decide, past_syscall_entry, rewound, settle, syscall_return, LoopAction, LoopEvent,
    StopReason, POLL_INTERVAL,
};
use crate::executor::{ExecutionDirection, ExecutorView};
use crate::laws::execution::{law_cycle_is_recorded, lemma_advance};

verus! {

/// Whether a cycle was executed from `before`, on the decision of the loop on
/// `event`, and led to `after`; what the cycle does to the machine is open,
/// but it leaves the history alone.
pub open spec fn cycle_executed(
    before: ExecutorView,
    event: LoopEvent,
    after: ExecutorView,
) -> bool {
    &&& before.debugger_state is Some
    &&& after.debugger_state is Some
    &&& decide(before, event).1 is ExecuteCycle
    &&& after.debugger().history == decide(before, event).0.debugger().history
}

/// A step back undoes a cycle: whatever the cycle did to the machine, the
/// executor is again in the state, and has again the history, that it had
/// before.
pub proof fn law_reverse_step_undoes_cycle(
    before: ExecutorView,
    event: LoopEvent,
    after: ExecutorView,
)
    requires
        cycle_executed(before, event, after),
    ensures
        stepped_back(after).state == before.state,
        stepped_back(after).debugger().history == before.debugger().history,
{
    law_cycle_is_recorded(before, event);
    assert(before.debugger().history.push(before.state).drop_last()
        =~= before.debugger().history);
}

/// The executor after `n` steps back.
pub open spec fn stepped_back_times(e: ExecutorView, n: nat) -> ExecutorView
    decreases n,
{
    if n == 0 {
        e
    } else {
        stepped_back(stepped_back_times(e, (n - 1) as nat))
    }
}

/// After `n` steps back the executor is in the state that was saved `n`
/// cycles ago, and can go back to all the states that were saved before.
pub proof fn law_reverse_steps(e: ExecutorView, n: nat)
    requires
        e.debugger_state is Some,
        0 < n <= e.debugger().history.len(),
    ensures
        stepped_back_times(e, n).state == e.debugger().history[e.debugger().history.len() - n],
        stepped_back_times(e, n).debugger().history == e.debugger().history.take(
            e.debugger().history.len() - n,
        ),
    decreases n,
{
    let history = e.debugger().history;
    if n == 1 {
        assert(stepped_back_times(e, 0) == e);
        assert(history.drop_last() =~= history.take(history.len() - 1));
    } else {
        law_reverse_steps(e, (n - 1) as nat);
        assert(history.take(history.len() - n + 1).drop_last() =~= history.take(
            history.len() - n,
        ));
    }
}

/// Every cycle is recorded: after a run of cycles the history has grown by the
/// states that the cycles started from, in order.
pub proof fn law_run_is_recorded(trace: Seq<ExecutorView>, events: Seq<LoopEvent>)
    requires
        trace.len() == events.len() + 1,
        trace[0].debugger_state is Some,
        forall|i: int|
            0 <= i < events.len() ==> cycle_executed(trace[i], #[trigger] events[i], trace[i + 1]),
    ensures
        trace.last().debugger_state is Some,
        trace.last().debugger().history == trace[0].debugger().history + Seq::new(
            events.len(),
            |i: int| trace[i].state,
        ),
    decreases events.len(),
{
    let start = trace[0].debugger().history;
    let n = events.len() as int;
    if n == 0 {
        assert(start + Seq::new(0, |i: int| trace[i].state) =~= start);
    } else {
        let shorter = trace.drop_last();
        assert forall|i: int| 0 <= i < n - 1 implies cycle_executed(
            shorter[i],
            #[trigger] events.drop_last()[i],
            shorter[i + 1],
        ) by {
            assert(cycle_executed(trace[i], events[i], trace[i + 1]));
        }
        law_run_is_recorded(shorter, events.drop_last());
        assert(cycle_executed(trace[n - 1], events[n - 1], trace[n]));
        law_cycle_is_recorded(trace[n - 1], events[n - 1]);
        assert((start + Seq::new((n - 1) as nat, |i: int| shorter[i].state)).push(
            trace[n - 1].state,
        ) =~= start + Seq::new(n as nat, |i: int| trace[i].state));
    }
}

/// As many steps back as there were cycles undo the run: the executor is in
/// the state, and has the history, that it started with.
pub proof fn law_reverse_steps_undo_run(trace: Seq<ExecutorView>, events: Seq<LoopEvent>)
    requires
        trace.len() == events.len() + 1,
        events.len() > 0,
        forall|i: int|
            0 <= i < events.len() ==> cycle_executed(trace[i], #[trigger] events[i], trace[i + 1]),
    ensures
        stepped_back_times(trace.last(), events.len()).state == trace[0].state,
        stepped_back_times(trace.last(), events.len()).debugger().history
            == trace[0].debugger().history,
{
    assert(cycle_executed(trace[0], events[0], trace[1]));
    law_run_is_recorded(trace, events);
    law_reverse_steps(trace.last(), events.len());
    let start = trace[0].debugger().history;
    let states = Seq::new(events.len(), |i: int| trace[i].state);
    assert((start + states).take(start.len() as int) =~= start);
}

/// Going backward only ever leads to saved states: where the loop stops or
/// pauses, the executor is where it was, or in a state of its history, and
/// keeps the part of the history before that state.
pub proof fn law_backward_stays_in_history(e: ExecutorView, event: LoopEvent) -> (k: int)
    requires
        e.debugger_state is Some,
        e.debugger().execution_direction == ExecutionDirection::Backward,
    ensures
        0 <= k <= e.debugger().history.len(),
        decide(e, event).0.debugger().history == e.debugger().history.take(k),
        decide(e, event).0.state == if k == e.debugger().history.len() {
            e.state
        } else {
            e.debugger().history[k]
        },
        !(decide(e, event).1 is ExecuteCycle),
{
    let n = e.debugger().history.len() as int;
    assert(e.debugger().history.take(n) =~= e.debugger().history);
    if decide(e, event) == advance(e) {
        lemma_backward(e)
    } else {
        n
    }
}

/// What [`law_backward_stays_in_history`] says of the loop past the look at
/// the connection.
proof fn lemma_backward(e: ExecutorView) -> (k: int)
    requires
        e.debugger_state is Some,
        e.debugger().execution_direction == ExecutionDirection::Backward,
    ensures
        0 <= k <= e.debugger().history.len(),
        advance(e).0.debugger().history == e.debugger().history.take(k),
        advance(e).0.state == if k == e.debugger().history.len() {
            e.state
        } else {
            e.debugger().history[k]
        },
        !(advance(e).1 is ExecuteCycle),
    decreases e.debugger().history.len(),
{
    let history = e.debugger().history;
    let n = history.len() as int;
    assert(history.take(n) =~= history);
    if syscall_return(e.debugger()) is None && n > 0 {
        let r = rewound(past_syscall_entry(e));
        assert(history.drop_last() =~= history.take(n - 1));
        if settle(r) == advance(r) {
            let k = lemma_backward(r);
            assert(history.drop_last().take(k) =~= history.take(k));
            k
        } else {
            n - 1
        }
    } else {
        n
    }
}

/// The loop past a look at the connection, as long as nothing arrives there:
/// each further look finds no byte.
pub open spec fn undisturbed(e: ExecutorView) -> (ExecutorView, LoopAction)
    decreases e.debugger().history.len(),
    via undisturbed_terminates
{
    let (next, action) = decide(e, LoopEvent::Polled(None));
    if action is PollConnection {
        undisturbed(next)
    } else {
        (next, action)
    }
}

/// The loop goes back between two looks at the connection.
#[via_fn]
proof fn undisturbed_terminates(e: ExecutorView) {
    lemma_advance(e);
}

/// Entering the loop, as long as nothing arrives on the connection.
pub open spec fn entered_undisturbed(e: ExecutorView) -> (ExecutorView, LoopAction) {
    let (next, action) = decide(e, LoopEvent::Enter);
    if action is PollConnection {
        undisturbed(next)
    } else {
        (next, action)
    }
}

/// Whether the executor is about to continue backward.
pub open spec fn continues_backward(e: ExecutorView) -> bool {
    &&& e.debugger_state is Some
    &&& e.debugger().execution_direction == ExecutionDirection::Backward
    &&& !e.debugger().is_stepping
    &&& syscall_return(e.debugger()) is None
}

/// Whether no state of the history from `from` on is at a breakpoint.
pub open spec fn no_breakpoint_from(e: ExecutorView, from: int) -> bool {
    forall|j: int|
        from <= j < e.debugger().history.len() ==> !e.debugger().breakpoints.contains(
            (#[trigger] e.debugger().history[j]).pc,
        )
}

/// A round of the loop that goes back to a state without a breakpoint goes on
/// from there.
proof fn lemma_round_backward(e: ExecutorView)
    requires
        continues_backward(e),
        e.debugger().history.len() > 0,
        !e.debugger().breakpoints.contains(e.debugger().history.last().pc),
    ensures
        continues_backward(rewound(past_syscall_entry(e))),
        undisturbed(e) == undisturbed(rewound(past_syscall_entry(e))),
{
    let r = rewound(past_syscall_entry(e));
    assert(decide(e, LoopEvent::Polled(None)) == settle(r));
    if r.state.clk % POLL_INTERVAL == 0 {
        assert(settle(r) == (r, LoopAction::PollConnection));
    } else {
        assert(settle(r) == decide(r, LoopEvent::Polled(None)));
    }
}

/// Reverse-continue stops at the last breakpoint before: the executor goes
/// back to the latest state of its history that is at a breakpoint, reports
/// the breakpoint, and can go back further from there.
pub proof fn law_reverse_continue_to_breakpoint(e: ExecutorView, i: int)
    requires
        continues_backward(e),
        0 <= i < e.debugger().history.len(),
        e.debugger().breakpoints.contains(e.debugger().history[i].pc),
        no_breakpoint_from(e, i + 1),
    ensures
        entered_undisturbed(e).1 == LoopAction::Stop(StopReason::SwBreak),
        entered_undisturbed(e).0.state == e.debugger().history[i],
        entered_undisturbed(e).0.debugger().history == e.debugger().history.take(i),
{
    lemma_entered(e);
    lemma_to_breakpoint(e, i);
}

/// Reverse-continue without a breakpoint goes back to the beginning: the
/// executor ends in the oldest state of its history, and reports that it
/// cannot go back further.
pub proof fn law_reverse_continue_to_beginning(e: ExecutorView)
    requires
        continues_backward(e),
        no_breakpoint_from(e, 0),
    ensures
        entered_undisturbed(e).1 == LoopAction::Stop(StopReason::Exited(0)),
        entered_undisturbed(e).0.state == if e.debugger().history.len() == 0 {
            e.state
        } else {
            e.debugger().history[0]
        },
        entered_undisturbed(e).0.debugger().history.len() == 0,
{
    lemma_entered(e);
    lemma_to_beginning(e);
}

/// On a quiet connection it makes no difference whether it is looked at.
proof fn lemma_entered(e: ExecutorView)
    ensures
        entered_undisturbed(e) == undisturbed(e),
{
}

proof fn lemma_to_breakpoint(e: ExecutorView, i: int)
    requires
        continues_backward(e),
        0 <= i < e.debugger().history.len(),
        e.debugger().breakpoints.contains(e.debugger().history[i].pc),
        no_breakpoint_from(e, i + 1),
    ensures
        undisturbed(e).1 == LoopAction::Stop(StopReason::SwBreak),
        undisturbed(e).0.state == e.debugger().history[i],
        undisturbed(e).0.debugger().history == e.debugger().history.take(i),
    decreases e.debugger().history.len(),
{
    let history = e.debugger().history;
    let r = rewound(past_syscall_entry(e));
    if i == history.len() - 1 {
        assert(decide(e, LoopEvent::Polled(None)) == settle(r));
        assert(history.drop_last() =~= history.take(i));
    } else {
        lemma_round_backward(e);
        assert(r.debugger().history.take(i) =~= history.take(i));
        assert forall|j: int| i + 1 <= j < r.debugger().history.len() implies !r.debugger(
        ).breakpoints.contains((#[trigger] r.debugger().history[j]).pc) by {
            assert(r.debugger().history[j] == history[j]);
        }
        lemma_to_breakpoint(r, i);
    }
}

proof fn lemma_to_beginning(e: ExecutorView)
    requires
        continues_backward(e),
        no_breakpoint_from(e, 0),
    ensures
        undisturbed(e).1 == LoopAction::Stop(StopReason::Exited(0)),
        undisturbed(e).0.state == if e.debugger().history.len() == 0 {
            e.state
        } else {
            e.debugger().history[0]
        },
        undisturbed(e).0.debugger().history.len() == 0,
    decreases e.debugger().history.len(),
{
    let history = e.debugger().history;
    let r = rewound(past_syscall_entry(e));
    if history.len() > 0 {
        lemma_round_backward(e);
        assert forall|j: int| 0 <= j < r.debugger().history.len() implies !r.debugger(
        ).breakpoints.contains((#[trigger] r.debugger().history[j]).pc) by {
            assert(r.debugger().history[j] == history[j]);
        }
        lemma_to_beginning(r);
    }
}

} // verus!
