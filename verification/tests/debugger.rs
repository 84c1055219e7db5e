//! Debugging sessions on a small machine that only knows how to add.

use sp1_debugger::access::CoreRegs;
use sp1_debugger::event_loop::{
    DebuggerEventLoop, LoopAction, LoopEvent, StopReason, SyscallPosition, SIGINT,
};
use sp1_debugger::executor::{DebuggerState, ExecutionDirection, Executor};
use sp1_debugger::state::{ExecutionState, Memory, MemoryRecord};
use sp1_debugger::watch::{triggers, MemoryAccessType, WatchKind};

/// What an instruction of the machine does besides moving on.
#[derive(Clone, Copy)]
enum Instruction {
    /// Sets a register to the sum of a register and a number.
    Add(u32, u32, u32),
    /// Loads a word.
    Load(u32),
    /// Stores a word.
    Store(u32, u32),
    /// Makes a syscall.
    Syscall(u32),
    /// Fails.
    Trap,
}

fn executor(clk: u32) -> Executor {
    Executor {
        state: ExecutionState { pc: 0, clk, current_shard: 1, memory: Memory::new() },
        debugger_state: Some(DebuggerState::default()),
    }
}

fn debugger(executor: &Executor) -> &DebuggerState {
    executor.debugger_state.as_ref().unwrap()
}

fn execute_cycle(executor: &mut Executor, program: &[Instruction]) -> Result<bool, ()> {
    let state = &mut executor.state;
    let debugger = executor.debugger_state.as_mut().unwrap();
    let (shard, timestamp) = (state.current_shard, state.clk);
    match program[(state.pc / 4) as usize] {
        Instruction::Add(rd, rs, imm) => {
            let old = state.memory.registers.get(rs).map_or(0, |r| r.value);
            let value = old.wrapping_add(imm);
            state.memory.registers.insert(rd, MemoryRecord { shard, timestamp, value });
        }
        Instruction::Load(addr) => {
            debugger.last_access_addr = Some(addr);
            debugger.last_access_type = Some(MemoryAccessType::Read);
        }
        Instruction::Store(addr, value) => {
            state.memory.insert(addr, MemoryRecord { shard, timestamp, value });
            debugger.last_access_addr = Some(addr);
            debugger.last_access_type = Some(MemoryAccessType::Write);
        }
        Instruction::Syscall(number) => debugger.last_syscall = Some(number),
        Instruction::Trap => return Err(()),
    }
    state.pc += 4;
    state.clk += 4;
    Ok(state.pc / 4 >= program.len() as u32)
}

/// Runs the loop until it stops; looks at the connection find `byte`.
fn wait_with(
    executor: &mut Executor,
    program: &[Instruction],
    byte: Option<u8>,
) -> Result<StopReason, &'static str> {
    let mut event = LoopEvent::Enter;
    loop {
        event = match DebuggerEventLoop::wait_for_stop_reason(executor, event) {
            LoopAction::PollConnection => LoopEvent::Polled(byte),
            LoopAction::ExecuteCycle => LoopEvent::Executed(execute_cycle(executor, program)),
            LoopAction::Stop(reason) => return Ok(reason),
            LoopAction::Fail(message) => return Err(message),
        };
    }
}

fn wait(executor: &mut Executor, program: &[Instruction]) -> StopReason {
    wait_with(executor, program, None).unwrap()
}

fn stepi(executor: &mut Executor, program: &[Instruction]) -> StopReason {
    executor.step(None).unwrap();
    wait(executor, program)
}

fn info_registers_pc(executor: &mut Executor) -> String {
    let mut regs = CoreRegs { x: [0; 32], pc: 0xffff_ffff };
    executor.read_registers(&mut regs).unwrap();
    format!("0x{:x}", regs.pc)
}

fn x1(executor: &mut Executor) -> u32 {
    let mut regs = CoreRegs { x: [0; 32], pc: 0 };
    executor.read_registers(&mut regs).unwrap();
    regs.x[1]
}

#[test]
fn test_remote_debugger() {
    let program = vec![Instruction::Add(1, 0, 10), Instruction::Add(1, 0, 20)];
    let mut executor = executor(0);
    assert_eq!(info_registers_pc(&mut executor), "0x0", "Expected initial PC 0");
    stepi(&mut executor, &program);
    assert_eq!(info_registers_pc(&mut executor), "0x4", "Expected stepped PC 4");
}

#[test]
fn test_remote_debugger_lldb() {
    let program = vec![Instruction::Add(1, 0, 10), Instruction::Add(1, 0, 20)];
    let mut executor = executor(0);
    let pc = executor.lldb_register_info(32).unwrap().unwrap();
    assert_eq!(pc.name, "pc");
    assert_eq!(info_registers_pc(&mut executor), "0x0", "Expected initial PC 0");
    stepi(&mut executor, &program);
    assert_eq!(info_registers_pc(&mut executor), "0x4", "Expected stepped PC 4");
}

#[test]
fn test_reverse_debugging() {
    let program = vec![
        Instruction::Add(1, 0, 10),
        Instruction::Add(1, 0, 20),
        Instruction::Add(1, 0, 30),
        Instruction::Add(1, 0, 40),
    ];
    let mut executor = executor(0);
    stepi(&mut executor, &program);
    stepi(&mut executor, &program);
    stepi(&mut executor, &program);
    assert_eq!(info_registers_pc(&mut executor), "0xc", "Expected PC 12 after 3 steps");
    assert_eq!(x1(&mut executor), 30);
    executor.add_sw_breakpoint(0, 4).unwrap();
    executor.reverse_cont().unwrap();
    assert_eq!(wait(&mut executor, &program), StopReason::SwBreak);
    assert_eq!(
        info_registers_pc(&mut executor),
        "0x0",
        "Expected PC 0 after reverse-continue to breakpoint"
    );
    assert_eq!(x1(&mut executor), 0);
}

#[test]
fn reverse_continue_stops_at_the_latest_breakpoint() {
    let program = vec![Instruction::Add(1, 1, 1); 6];
    let mut executor = executor(4);
    for _ in 0..5 {
        assert_eq!(stepi(&mut executor, &program), StopReason::DoneStep);
    }
    executor.add_sw_breakpoint(4, 4).unwrap();
    executor.add_sw_breakpoint(12, 4).unwrap();
    executor.reverse_cont().unwrap();
    assert_eq!(wait(&mut executor, &program), StopReason::SwBreak);
    assert_eq!(executor.state.pc, 12);
    assert_eq!(x1(&mut executor), 3);
    assert_eq!(debugger(&executor).history.len(), 3);
    assert_eq!(wait(&mut executor, &program), StopReason::SwBreak);
    assert_eq!(executor.state.pc, 4);
    executor.remove_sw_breakpoint(4, 4).unwrap();
    assert_eq!(wait(&mut executor, &program), StopReason::Exited(0));
    assert_eq!(executor.state.pc, 0);
    assert_eq!(debugger(&executor).history.len(), 0);
}

#[test]
fn reverse_continue_without_history_exits_in_place() {
    let mut executor = executor(4);
    executor.state.pc = 20;
    executor.reverse_cont().unwrap();
    assert_eq!(wait(&mut executor, &[]), StopReason::Exited(0));
    assert_eq!(executor.state.pc, 20);
}

#[test]
fn reverse_continue_looks_at_the_connection_when_the_clock_says_so() {
    let program = vec![Instruction::Add(1, 1, 1); 4];
    let mut executor = executor(1020);
    for _ in 0..3 {
        stepi(&mut executor, &program);
    }
    assert_eq!(executor.state.clk, 1032);
    executor.reverse_cont().unwrap();
    let action = DebuggerEventLoop::wait_for_stop_reason(&mut executor, LoopEvent::Enter);
    assert!(matches!(action, LoopAction::PollConnection));
    assert_eq!(executor.state.clk, 1024);
    let action = DebuggerEventLoop::wait_for_stop_reason(&mut executor, LoopEvent::Polled(Some(3)));
    assert!(matches!(action, LoopAction::Stop(StopReason::Signal(2))));
    assert_eq!(executor.state.clk, 1024);
    assert_eq!(debugger(&executor).history.len(), 1);
}

#[test]
fn reverse_step_undoes_a_cycle() {
    let program = vec![Instruction::Add(1, 1, 7), Instruction::Store(64, 5), Instruction::Trap];
    let mut executor = executor(4);
    stepi(&mut executor, &program);
    stepi(&mut executor, &program);
    assert_eq!(executor.state.memory.get(64).unwrap().value, 5);
    executor.reverse_step().unwrap();
    assert_eq!(executor.state.pc, 4);
    assert!(executor.state.memory.get(64).is_none());
    assert_eq!(x1(&mut executor), 7);
    assert!(debugger(&executor).is_stepping);
    executor.reverse_step().unwrap();
    assert_eq!(executor.state.pc, 0);
    assert_eq!(executor.state.clk, 4);
    assert_eq!(x1(&mut executor), 0);
    assert_eq!(executor.reverse_step(), Err("no history available"));
    assert_eq!(executor.state.pc, 0);
}

#[test]
fn reverse_step_keeps_the_direction() {
    let program = vec![Instruction::Add(1, 1, 7); 3];
    let mut executor = executor(4);
    stepi(&mut executor, &program);
    executor.reverse_step().unwrap();
    assert_eq!(debugger(&executor).execution_direction, ExecutionDirection::Forward);
    assert_eq!(wait(&mut executor, &program), StopReason::DoneStep);
    assert_eq!(executor.state.pc, 4);
}

#[test]
fn step_executes_one_cycle_and_resume_runs_on() {
    let program = vec![Instruction::Add(1, 1, 1); 5];
    let mut executor = executor(4);
    assert_eq!(stepi(&mut executor, &program), StopReason::DoneStep);
    assert_eq!(x1(&mut executor), 1);
    executor.resume(None).unwrap();
    assert_eq!(wait(&mut executor, &program), StopReason::Exited(0));
    assert_eq!(x1(&mut executor), 5);
    assert_eq!(debugger(&executor).history.len(), 5);
}

#[test]
fn a_failing_cycle_is_reported() {
    let program = vec![Instruction::Trap];
    let mut executor = executor(4);
    assert_eq!(wait_with(&mut executor, &program, None), Err("execution failed"));
    assert_eq!(debugger(&executor).history.len(), 1);
}

#[test]
fn breakpoints_stop_where_they_are() {
    let program = vec![Instruction::Add(1, 1, 1); 8];
    let mut executor = executor(4);
    assert_eq!(executor.add_sw_breakpoint(8, 4), Ok(true));
    assert_eq!(executor.add_sw_breakpoint(8, 4), Ok(true));
    assert_eq!(executor.add_sw_breakpoint(20, 4), Ok(true));
    assert_eq!(wait(&mut executor, &program), StopReason::SwBreak);
    assert_eq!(executor.state.pc, 8);
    assert_eq!(executor.remove_sw_breakpoint(20, 4), Ok(true));
    assert_eq!(executor.remove_sw_breakpoint(24, 4), Ok(true));
    assert_eq!(wait(&mut executor, &program), StopReason::Exited(0));
    assert_eq!(executor.state.pc, 32);
}

#[test]
fn breakpoints_come_before_the_end_of_a_step() {
    let program = vec![Instruction::Add(1, 1, 1); 3];
    let mut executor = executor(4);
    executor.add_sw_breakpoint(4, 4).unwrap();
    assert_eq!(stepi(&mut executor, &program), StopReason::SwBreak);
    assert_eq!(stepi(&mut executor, &program), StopReason::DoneStep);
}

#[test]
fn watchpoints_report_the_accesses_of_their_kind() {
    let program = vec![
        Instruction::Load(64),
        Instruction::Store(64, 1),
        Instruction::Load(68),
        Instruction::Store(72, 1),
        Instruction::Load(72),
        Instruction::Add(1, 1, 1),
    ];
    let mut executor = executor(4);
    executor.add_hw_watchpoint(64, 4, WatchKind::Write).unwrap();
    executor.add_hw_watchpoint(68, 4, WatchKind::Write).unwrap();
    executor.add_hw_watchpoint(72, 4, WatchKind::ReadWrite).unwrap();
    let hit = |kind, addr| StopReason::Watch { kind, addr };
    assert_eq!(wait(&mut executor, &program), hit(WatchKind::Write, 64));
    assert_eq!(executor.state.pc, 8);
    executor.add_hw_watchpoint(68, 4, WatchKind::Read).unwrap();
    assert_eq!(wait(&mut executor, &program), hit(WatchKind::Read, 68));
    assert_eq!(wait(&mut executor, &program), hit(WatchKind::ReadWrite, 72));
    assert_eq!(executor.state.pc, 16);
    assert_eq!(executor.remove_hw_watchpoint(72, 4, WatchKind::Read), Ok(true));
    assert_eq!(wait(&mut executor, &program), StopReason::Exited(0));
}

#[test]
fn watch_kinds() {
    let (read, write) = (Some(MemoryAccessType::Read), Some(MemoryAccessType::Write));
    assert!(triggers(WatchKind::Read, read));
    assert!(!triggers(WatchKind::Read, write));
    assert!(!triggers(WatchKind::Write, read));
    assert!(triggers(WatchKind::Write, write));
    assert!(triggers(WatchKind::ReadWrite, read));
    assert!(triggers(WatchKind::ReadWrite, write));
    assert!(!triggers(WatchKind::ReadWrite, None));
}

#[test]
fn a_caught_syscall_is_reported_at_entry_and_at_return() {
    let program =
        vec![Instruction::Syscall(7), Instruction::Syscall(9), Instruction::Add(1, 1, 1)];
    let mut executor = executor(4);
    executor.enable_catch_syscalls(Some(vec![9, 11])).unwrap();
    let caught = |number, position| StopReason::CatchSyscall { number, position };
    executor.add_sw_breakpoint(8, 4).unwrap();
    assert_eq!(wait(&mut executor, &program), caught(9, SyscallPosition::Entry));
    assert_eq!(executor.state.pc, 8);
    assert!(debugger(&executor).at_syscall_entry);
    assert_eq!(wait(&mut executor, &program), caught(9, SyscallPosition::Return));
    assert_eq!(executor.state.pc, 8);
    assert!(!debugger(&executor).at_syscall_entry);
    assert_eq!(debugger(&executor).history.len(), 2);
    assert_eq!(wait(&mut executor, &program), StopReason::Exited(0));
}

#[test]
fn an_empty_filter_catches_every_syscall() {
    for filter in [None, Some(vec![])] {
        let program = vec![Instruction::Syscall(7), Instruction::Add(1, 1, 1)];
        let mut executor = executor(4);
        executor.enable_catch_syscalls(Some(vec![8])).unwrap();
        executor.enable_catch_syscalls(filter).unwrap();
        let entry = StopReason::CatchSyscall { number: 7, position: SyscallPosition::Entry };
        assert_eq!(wait(&mut executor, &program), entry);
    }
}

#[test]
fn a_new_filter_replaces_the_old_one() {
    let program = vec![Instruction::Syscall(7), Instruction::Syscall(8), Instruction::Load(0)];
    let mut executor = executor(4);
    executor.enable_catch_syscalls(Some(vec![7])).unwrap();
    executor.enable_catch_syscalls(Some(vec![8])).unwrap();
    let entry = StopReason::CatchSyscall { number: 8, position: SyscallPosition::Entry };
    assert_eq!(wait(&mut executor, &program), entry);
}

#[test]
fn nothing_is_caught_once_catching_is_off() {
    let program = vec![Instruction::Syscall(7), Instruction::Add(1, 1, 1)];
    let mut executor = executor(4);
    executor.enable_catch_syscalls(None).unwrap();
    let entry = StopReason::CatchSyscall { number: 7, position: SyscallPosition::Entry };
    assert_eq!(wait(&mut executor, &program), entry);
    executor.disable_catch_syscalls().unwrap();
    assert_eq!(wait(&mut executor, &program), StopReason::Exited(0));
}

#[test]
fn interrupts_are_found_when_the_clock_says_so() {
    let program = vec![Instruction::Add(1, 1, 1); 600];
    let mut executor = executor(4);
    assert_eq!(wait_with(&mut executor, &program, Some(3)), Ok(StopReason::Signal(2)));
    assert_eq!(executor.state.clk, 1024);
    assert_eq!(wait_with(&mut executor, &program, Some(4)), Ok(StopReason::Exited(0)));
}

#[test]
fn an_interrupt_needs_no_debugger_state() {
    let mut executor = executor(0);
    executor.debugger_state = None;
    assert!(!DebuggerEventLoop::reads_debugger(&executor, LoopEvent::Enter));
    assert!(!DebuggerEventLoop::reads_debugger(&executor, LoopEvent::Polled(Some(3))));
    assert!(DebuggerEventLoop::reads_debugger(&executor, LoopEvent::Polled(Some(4))));
    assert!(DebuggerEventLoop::reads_debugger(&executor, LoopEvent::Polled(None)));
    assert!(DebuggerEventLoop::reads_debugger(&executor, LoopEvent::Executed(Ok(false))));
    assert!(!DebuggerEventLoop::reads_debugger(&executor, LoopEvent::Executed(Ok(true))));
    assert!(!DebuggerEventLoop::reads_debugger(&executor, LoopEvent::Executed(Err(()))));
    let action = DebuggerEventLoop::wait_for_stop_reason(&mut executor, LoopEvent::Enter);
    assert!(matches!(action, LoopAction::PollConnection));
    let action = DebuggerEventLoop::wait_for_stop_reason(&mut executor, LoopEvent::Polled(Some(3)));
    assert!(matches!(action, LoopAction::Stop(StopReason::Signal(2))));
}

#[test]
fn the_signal_is_that_of_the_protocol() {
    assert_eq!(SIGINT, gdbstub::common::Signal::SIGINT.0);
}

#[test]
fn on_interrupt_reports_the_signal() {
    let mut executor = executor(0);
    assert_eq!(
        DebuggerEventLoop::on_interrupt(&mut executor),
        Ok(Some(StopReason::Signal(2)))
    );
}

#[test]
fn commands_to_move_without_a_debugger_change_nothing() {
    let mut executor = executor(0);
    executor.debugger_state = None;
    assert_eq!(executor.resume(Some(5)), Ok(()));
    assert_eq!(executor.step(None), Ok(()));
    assert_eq!(executor.reverse_cont(), Ok(()));
    assert!(executor.debugger_state.is_none());
}

#[test]
fn the_last_command_to_move_counts() {
    let mut executor = executor(0);
    executor.reverse_cont().unwrap();
    assert_eq!(debugger(&executor).execution_direction, ExecutionDirection::Backward);
    assert!(!debugger(&executor).is_stepping);
    executor.step(None).unwrap();
    assert_eq!(debugger(&executor).execution_direction, ExecutionDirection::Forward);
    assert!(debugger(&executor).is_stepping);
    executor.resume(None).unwrap();
    assert!(!debugger(&executor).is_stepping);
}

#[test]
fn a_fresh_debugger_has_nothing_to_stop_at() {
    let d = DebuggerState::default();
    assert_eq!(d.execution_direction, ExecutionDirection::Forward);
    assert!(d.history.is_empty());
    assert!(d.last_syscall.is_none() && d.last_access_addr.is_none());
    assert!(d.last_access_type.is_none());
    assert!(!d.catch_syscalls_enabled && !d.at_syscall_entry && !d.is_stepping);
}

#[test]
fn going_back_reports_no_access() {
    let program =
        vec![Instruction::Store(64, 1), Instruction::Syscall(7), Instruction::Add(1, 1, 1)];
    let mut executor = executor(4);
    stepi(&mut executor, &program);
    stepi(&mut executor, &program);
    executor.add_hw_watchpoint(64, 4, WatchKind::ReadWrite).unwrap();
    executor.enable_catch_syscalls(None).unwrap();
    executor.reverse_cont().unwrap();
    assert_eq!(wait(&mut executor, &program), StopReason::Exited(0));
    assert_eq!(executor.state.pc, 0);
    assert!(debugger(&executor).last_syscall.is_none());
}

#[test]
fn steps_back_undo_a_run() {
    let program = vec![Instruction::Add(1, 1, 3); 300];
    let mut executor = executor(1000);
    executor.add_sw_breakpoint(400, 4).unwrap();
    assert_eq!(wait(&mut executor, &program), StopReason::SwBreak);
    assert_eq!(x1(&mut executor), 300);
    for cycles in (0..100).rev() {
        executor.reverse_step().unwrap();
        assert_eq!(executor.state.pc, 4 * cycles);
        assert_eq!(executor.state.clk, 1000 + 4 * cycles);
        assert_eq!(x1(&mut executor), 3 * cycles);
    }
    assert!(executor.reverse_step().is_err());
}
