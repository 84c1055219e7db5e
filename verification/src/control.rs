//! The commands by which a remote debugger steers the executor: resuming,
//! stepping, going back, and setting what to stop at.

use vstd::prelude::*;

use crate::collections::AddressSet;
use crate::executor::{DebuggerView, ExecutionDirection, Executor, ExecutorView};
use crate::watch::WatchKind;

verus! {

/// The executor set to move in `direction`, one step or without end. Without
/// a debugger nothing changes.
pub open spec fn directed(
    e: ExecutorView,
    direction: ExecutionDirection,
    stepping: bool,
) -> ExecutorView {
    if e.debugger_state is Some {
        e.with_debugger(
            DebuggerView { execution_direction: direction, is_stepping: stepping, ..e.debugger() },
        )
    } else {
        e
    }
}

/// The executor after one step back: in the last state that was saved, which
/// leaves the history.
pub open spec fn stepped_back(e: ExecutorView) -> ExecutorView {
    ExecutorView {
        state: e.debugger().history.last(),
        debugger_state: Some(
            DebuggerView {
                history: e.debugger().history.drop_last(),
                is_stepping: true,
                ..e.debugger()
            },
        ),
    }
}

/// The executor with other software breakpoints.
pub open spec fn with_breakpoints(e: ExecutorView, breakpoints: Set<u32>) -> ExecutorView {
    e.with_debugger(DebuggerView { breakpoints, ..e.debugger() })
}

/// The executor with other watchpoints.
pub open spec fn with_watchpoints(
    e: ExecutorView,
    watchpoints: Map<u32, WatchKind>,
) -> ExecutorView {
    e.with_debugger(DebuggerView { watchpoints, ..e.debugger() })
}

/// The executor with syscall catching switched on or off, and with the
/// numbers to catch.
pub open spec fn with_catching(e: ExecutorView, enabled: bool, numbers: Set<u32>) -> ExecutorView {
    e.with_debugger(
        DebuggerView { catch_syscalls_enabled: enabled, catch_syscalls: numbers, ..e.debugger() },
    )
}

/// The numbers that a filter lists; none if there is no filter.
pub open spec fn filter_numbers(filter: Option<Vec<u32>>) -> Set<u32> {
    match filter {
        Some(numbers) => numbers@.to_set(),
        None => Set::empty(),
    }
}

/// Adds every one of `numbers` to `set`.
fn insert_all(set: &mut AddressSet, numbers: &Vec<u32>)
    ensures
        final(set)@ == old(set)@.union(numbers@.to_set()),
{
    let mut i: usize = 0;
    while i < numbers.len()
        invariant
            i <= numbers@.len(),
            set@ =~= old(set)@.union(numbers@.take(i as int).to_set()),
        decreases numbers@.len() - i,
    {
        set.insert(numbers[i]);
        proof {
            let shorter = numbers@.take(i as int);
            let longer = numbers@.take(i + 1);
            assert(longer =~= shorter.push(numbers@[i as int]));
            assert forall|v: u32| longer.contains(v) == (shorter.contains(v) || v
                == numbers@[i as int]) by {
                if shorter.contains(v) {
                    let j = choose|j: int| 0 <= j < shorter.len() && shorter[j] == v;
                    assert(longer[j] == v);
                }
                assert(longer[i as int] == numbers@[i as int]);
            }
        }
        i += 1;
    }
    assert(numbers@.take(i as int) =~= numbers@);
}

impl Executor {
    /// Continues forward.
    pub fn resume(&mut self, _signal: Option<u8>) -> (r: Result<(), &'static str>)
        ensures
            r is Ok,
            final(self)@ == directed(old(self)@, ExecutionDirection::Forward, false),
            old(self).debugger_state is None ==> final(self)@ == old(self)@,
            old(self).debugger_state is Some ==> final(self)@ == (ExecutorView {
                state: old(self)@.state,
                debugger_state: Some(
                    DebuggerView {
                        execution_direction: ExecutionDirection::Forward,
                        is_stepping: false,
                        ..old(self)@.debugger()
                    },
                ),
            }),
    {
        if let Some(state) = &mut self.debugger_state {
            state.execution_direction = ExecutionDirection::Forward;
            state.is_stepping = false;
        }
        Ok(())
    }

    /// Executes one step forward.
    pub fn step(&mut self, _signal: Option<u8>) -> (r: Result<(), &'static str>)
        ensures
            r is Ok,
            final(self)@ == directed(old(self)@, ExecutionDirection::Forward, true),
            old(self).debugger_state is None ==> final(self)@ == old(self)@,
            old(self).debugger_state is Some ==> final(self)@ == (ExecutorView {
                state: old(self)@.state,
                debugger_state: Some(
                    DebuggerView {
                        execution_direction: ExecutionDirection::Forward,
                        is_stepping: true,
                        ..old(self)@.debugger()
                    },
                ),
            }),
    {
        if let Some(state) = &mut self.debugger_state {
            state.execution_direction = ExecutionDirection::Forward;
            state.is_stepping = true;
        }
        Ok(())
    }

    /// Goes back to the last state that was saved. The direction of execution
    /// stays as it is. Fails, and changes nothing, if no state was saved.
    pub fn reverse_step(&mut self) -> (r: Result<(), &'static str>)
        requires
            old(self)@.debugger_state is Some,
        ensures
            r is Ok <==> old(self)@.debugger().history.len() > 0,
            r is Ok ==> final(self)@ == stepped_back(old(self)@),
            r is Ok ==> final(self)@ == (ExecutorView {
                state: old(self)@.debugger().history[old(self)@.debugger().history.len() - 1],
                debugger_state: Some(
                    DebuggerView {
                        history: old(self)@.debugger().history.take(
                            old(self)@.debugger().history.len() - 1,
                        ),
                        is_stepping: true,
                        ..old(self)@.debugger()
                    },
                ),
            }),
            r is Err ==> r->Err_0 == "no history available" && final(self)@ == old(self)@,
    {
        if let Some(state) = &mut self.debugger_state {
            if let Some(previous) = state.history.pop_back() {
                self.state = previous;
                state.is_stepping = true;
                return Ok(());
            }
        }
        Err("no history available")
    }

    /// Continues backward.
    pub fn reverse_cont(&mut self) -> (r: Result<(), &'static str>)
        ensures
            r is Ok,
            final(self)@ == directed(old(self)@, ExecutionDirection::Backward, false),
            old(self).debugger_state is None ==> final(self)@ == old(self)@,
            old(self).debugger_state is Some ==> final(self)@ == (ExecutorView {
                state: old(self)@.state,
                debugger_state: Some(
                    DebuggerView {
                        execution_direction: ExecutionDirection::Backward,
                        is_stepping: false,
                        ..old(self)@.debugger()
                    },
                ),
            }),
    {
        if let Some(state) = &mut self.debugger_state {
            state.execution_direction = ExecutionDirection::Backward;
            state.is_stepping = false;
        }
        Ok(())
    }

    /// Sets a software breakpoint at `addr`.
    pub fn add_sw_breakpoint(&mut self, addr: u32, _kind: usize) -> (r: Result<bool, &'static str>)
        requires
            old(self)@.debugger_state is Some,
        ensures
            r == Ok::<bool, &'static str>(true),
            final(self)@ == with_breakpoints(
                old(self)@,
                old(self)@.debugger().breakpoints.insert(addr),
            ),
            final(self)@ == (ExecutorView {
                state: old(self)@.state,
                debugger_state: Some(
                    DebuggerView {
                        breakpoints: old(self)@.debugger().breakpoints.insert(addr),
                        ..old(self)@.debugger()
                    },
                ),
            }),
    {
        if let Some(state) = &mut self.debugger_state {
            state.breakpoints.insert(addr);
        }
        Ok(true)
    }

    /// Takes the software breakpoint at `addr` away.
    pub fn remove_sw_breakpoint(&mut self, addr: u32, _kind: usize) -> (r: Result<
        bool,
        &'static str,
    >)
        requires
            old(self)@.debugger_state is Some,
        ensures
            r == Ok::<bool, &'static str>(true),
            final(self)@ == with_breakpoints(
                old(self)@,
                old(self)@.debugger().breakpoints.remove(addr),
            ),
            final(self)@ == (ExecutorView {
                state: old(self)@.state,
                debugger_state: Some(
                    DebuggerView {
                        breakpoints: old(self)@.debugger().breakpoints.remove(addr),
                        ..old(self)@.debugger()
                    },
                ),
            }),
    {
        if let Some(state) = &mut self.debugger_state {
            state.breakpoints.remove(addr);
        }
        Ok(true)
    }

    /// Watches `addr`; a watchpoint that is already there changes its kind.
    pub fn add_hw_watchpoint(&mut self, addr: u32, _len: u32, kind: WatchKind) -> (r: Result<
        bool,
        &'static str,
    >)
        requires
            old(self)@.debugger_state is Some,
        ensures
            r == Ok::<bool, &'static str>(true),
            final(self)@ == with_watchpoints(
                old(self)@,
                old(self)@.debugger().watchpoints.insert(addr, kind),
            ),
            final(self)@ == (ExecutorView {
                state: old(self)@.state,
                debugger_state: Some(
                    DebuggerView {
                        watchpoints: old(self)@.debugger().watchpoints.insert(addr, kind),
                        ..old(self)@.debugger()
                    },
                ),
            }),
    {
        if let Some(state) = &mut self.debugger_state {
            state.watchpoints.insert(addr, kind);
        }
        Ok(true)
    }

    /// Stops watching `addr`, whatever the kind of its watchpoint.
    pub fn remove_hw_watchpoint(&mut self, addr: u32, _len: u32, _kind: WatchKind) -> (r: Result<
        bool,
        &'static str,
    >)
        requires
            old(self)@.debugger_state is Some,
        ensures
            r == Ok::<bool, &'static str>(true),
            final(self)@ == with_watchpoints(
                old(self)@,
                old(self)@.debugger().watchpoints.remove(addr),
            ),
            final(self)@ == (ExecutorView {
                state: old(self)@.state,
                debugger_state: Some(
                    DebuggerView {
                        watchpoints: old(self)@.debugger().watchpoints.remove(addr),
                        ..old(self)@.debugger()
                    },
                ),
            }),
    {
        if let Some(state) = &mut self.debugger_state {
            state.watchpoints.remove(addr);
        }
        Ok(true)
    }

    /// Catches the syscalls that `filter` lists, in place of those caught
    /// before; without a filter, or with an empty one, all of them.
    pub fn enable_catch_syscalls(&mut self, filter: Option<Vec<u32>>) -> (r: Result<
        (),
        &'static str,
    >)
        requires
            old(self)@.debugger_state is Some,
        ensures
            r is Ok,
            final(self)@ == with_catching(old(self)@, true, filter_numbers(filter)),
            final(self)@ == (ExecutorView {
                state: old(self)@.state,
                debugger_state: Some(
                    DebuggerView {
                        catch_syscalls_enabled: true,
                        catch_syscalls: final(self)@.debugger().catch_syscalls,
                        ..old(self)@.debugger()
                    },
                ),
            }),
            forall|n: u32| #[trigger]
                final(self)@.debugger().catch_syscalls.contains(n) <==> filter is Some
                    && filter->0@.contains(n),
    {
        if let Some(state) = &mut self.debugger_state {
            state.catch_syscalls_enabled = true;
            state.catch_syscalls.clear();
            if let Some(numbers) = &filter {
                insert_all(&mut state.catch_syscalls, numbers);
            }
        }
        Ok(())
    }

    /// Stops catching syscalls.
    pub fn disable_catch_syscalls(&mut self) -> (r: Result<(), &'static str>)
        requires
            old(self)@.debugger_state is Some,
        ensures
            r is Ok,
            final(self)@ == with_catching(old(self)@, false, Set::empty()),
            final(self)@ == (ExecutorView {
                state: old(self)@.state,
                debugger_state: Some(
                    DebuggerView {
                        catch_syscalls_enabled: false,
                        catch_syscalls: Set::empty(),
                        ..old(self)@.debugger()
                    },
                ),
            }),
    {
        if let Some(state) = &mut self.debugger_state {
            state.catch_syscalls_enabled = false;
            state.catch_syscalls.clear();
        }
        Ok(())
    }
}

} // verus!
