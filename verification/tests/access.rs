//! Registers and memory as a debugger sees them.

use sp1_debugger::access::CoreRegs;
use sp1_debugger::executor::Executor;
use sp1_debugger::state::{ExecutionState, Memory, MemoryRecord};

fn executor() -> Executor {
    Executor {
        state: ExecutionState { pc: 16, clk: 40, current_shard: 3, memory: Memory::new() },
        debugger_state: None,
    }
}

fn read(executor: &mut Executor, start: u32, len: usize) -> Vec<u8> {
    let mut data = vec![0xaa; len];
    assert_eq!(executor.read_addrs(start, &mut data), Ok(len));
    data
}

#[test]
fn registers_read_as_zero_until_written() {
    let mut executor = executor();
    let mut regs = CoreRegs { x: [9; 32], pc: 0 };
    assert_eq!(executor.read_registers(&mut regs), Ok(()));
    assert_eq!(regs.x, [0; 32]);
    assert_eq!(regs.pc, 16);
}

#[test]
fn registers_round_trip() {
    let mut executor = executor();
    let mut x = [0; 32];
    for (i, value) in x.iter_mut().enumerate() {
        *value = 1000 + i as u32;
    }
    assert_eq!(executor.write_registers(&CoreRegs { x, pc: 0x80 }), Ok(()));
    let mut regs = CoreRegs { x: [0; 32], pc: 0 };
    executor.read_registers(&mut regs).unwrap();
    assert_eq!(regs.x, x);
    assert_eq!(regs.pc, 0x80);
    assert_eq!(
        executor.state.memory.registers.get(31),
        Some(MemoryRecord { shard: 3, timestamp: 40, value: 1031 })
    );
    assert_eq!(executor.state.clk, 40);
}

#[test]
fn memory_reads_as_zero_until_written() {
    let mut executor = executor();
    assert_eq!(read(&mut executor, 5, 7), vec![0; 7]);
    assert_eq!(read(&mut executor, 5, 0), Vec::<u8>::new());
}

#[test]
fn words_are_little_endian() {
    let mut executor = executor();
    executor
        .state
        .memory
        .insert(8, MemoryRecord { shard: 1, timestamp: 1, value: 0x0403_0201 });
    assert_eq!(read(&mut executor, 8, 4), vec![1, 2, 3, 4]);
    assert_eq!(read(&mut executor, 7, 3), vec![0, 1, 2]);
    assert_eq!(read(&mut executor, 10, 4), vec![3, 4, 0, 0]);
}

#[test]
fn memory_round_trip_across_words() {
    let mut executor = executor();
    assert_eq!(executor.write_addrs(6, &[1, 2, 3, 4, 5, 6, 7]), Ok(()));
    assert_eq!(read(&mut executor, 5, 9), vec![0, 1, 2, 3, 4, 5, 6, 7, 0]);
    let record = |value| Some(MemoryRecord { shard: 3, timestamp: 40, value });
    assert_eq!(executor.state.memory.get(4), record(0x0201_0000));
    assert_eq!(executor.state.memory.get(8), record(0x0605_0403));
    assert_eq!(executor.state.memory.get(12), record(0x0000_0007));
    assert_eq!(executor.state.memory.get(0), None);
    assert_eq!(executor.state.memory.get(16), None);
    assert_eq!(executor.state.pc, 16);
}

#[test]
fn writing_keeps_the_other_bytes_of_a_word() {
    let mut executor = executor();
    executor
        .state
        .memory
        .insert(0, MemoryRecord { shard: 1, timestamp: 1, value: 0xffff_ffff });
    executor
        .state
        .memory
        .insert(4, MemoryRecord { shard: 1, timestamp: 1, value: 0xeeee_eeee });
    executor.write_addrs(1, &[0x12, 0x34]).unwrap();
    assert_eq!(executor.state.memory.get(0).unwrap().value, 0xff34_12ff);
    assert_eq!(
        executor.state.memory.get(4),
        Some(MemoryRecord { shard: 1, timestamp: 1, value: 0xeeee_eeee })
    );
}

#[test]
fn the_last_byte_of_memory_can_be_accessed() {
    let mut executor = executor();
    executor.write_addrs(0xffff_fffe, &[8, 9]).unwrap();
    assert_eq!(read(&mut executor, 0xffff_fffd, 3), vec![0, 8, 9]);
    assert_eq!(executor.state.memory.get(0xffff_fffc).unwrap().value, 0x0908_0000);
}

#[test]
fn writing_in_pieces_is_writing_at_once() {
    let (mut whole, mut pieces) = (executor(), executor());
    whole.write_addrs(3, &[1, 2, 3, 4, 5]).unwrap();
    pieces.write_addrs(3, &[1, 2]).unwrap();
    pieces.write_addrs(5, &[3, 4, 5]).unwrap();
    for addr in [0, 4, 8] {
        assert_eq!(whole.state.memory.get(addr), pieces.state.memory.get(addr));
    }
}

#[test]
fn writing_nothing_changes_nothing() {
    let mut executor = executor();
    executor.write_addrs(4, &[]).unwrap();
    assert_eq!(executor.state.memory.get(4), None);
}

#[test]
fn a_clone_of_the_state_is_independent() {
    let mut executor = executor();
    executor.write_addrs(0, &[1]).unwrap();
    let saved = executor.state.clone();
    executor.write_addrs(0, &[2]).unwrap();
    executor.state.pc = 20;
    assert_eq!(saved.memory.get(0).unwrap().value, 1);
    assert_eq!(saved.pc, 16);
    assert_eq!(saved.clk, 40);
    assert_eq!(saved.current_shard, 3);
}
