//! The part of the machine that a debugger looks at: the program counter, the
//! clocks, the register file and the word-addressed memory.

use std::collections::HashMap;

use vstd::prelude::*;

verus! {

/// A word together with the shard and the clock of its last access.
#[derive(Debug, Clone, Copy, PartialEq, Eq, Structural)]
pub struct MemoryRecord {
    /// The shard of the last access.
    pub shard: u32,
    /// The clock of the last access.
    pub timestamp: u32,
    /// The word.
    pub value: u32,
}

/// The word that a register or a memory location reads as: locations that
/// were never written read as zero.
pub open spec fn value_or_zero(record: Option<MemoryRecord>) -> u32 {
    match record {
        Some(r) => r.value,
        None => 0,
    }
}

/// The register file.
#[derive(Debug, Clone, Copy)]
pub struct Registers {
    records: [Option<MemoryRecord>; 32],
}

impl View for Registers {
    type V = Seq<Option<MemoryRecord>>;

    closed spec fn view(&self) -> Seq<Option<MemoryRecord>> {
        self.records@
    }
}

impl Registers {
    /// A register file in which no register was written yet.
    pub fn new() -> (r: Registers)
        ensures
            r@ == Seq::new(32, |i: int| None::<MemoryRecord>),
    {
        let r = Registers { records: [None; 32] };
        assert(r@ =~= Seq::new(32, |i: int| None::<MemoryRecord>));
        r
    }

    /// There are always 32 registers.
    pub broadcast proof fn lemma_len(self)
        ensures
            #[trigger] self@.len() == 32,
    {
    }

    /// The record of register `index`.
    pub fn get(&self, index: u32) -> (r: Option<MemoryRecord>)
        requires
            index < 32,
        ensures
            r == self@[index as int],
    {
        self.records[index as usize]
    }

    /// Sets the record of register `index`.
    pub fn insert(&mut self, index: u32, record: MemoryRecord)
        requires
            index < 32,
        ensures
            final(self)@ == old(self)@.update(index as int, Some(record)),
    {
        self.records[index as usize] = Some(record);
    }
}

/// A sparse store of words.
#[derive(Debug)]
pub struct WordStore {
    words: HashMap<u32, MemoryRecord>,
}

impl View for WordStore {
    type V = Map<u32, MemoryRecord>;

    closed spec fn view(&self) -> Map<u32, MemoryRecord> {
        self.words@
    }
}

impl WordStore {
    /// A store in which nothing was written yet.
    pub fn new() -> (r: WordStore)
        ensures
            r@ == Map::<u32, MemoryRecord>::empty(),
    {
        WordStore { words: HashMap::new() }
    }

    /// The record of the word at `addr`, if it was written before.
    pub fn get(&self, addr: u32) -> (r: Option<MemoryRecord>)
        ensures
            r == self@.get(addr),
    {
        broadcast use vstd::std_specs::hash::group_hash_axioms;

        match self.words.get(&addr) {
            Some(record) => Some(*record),
            None => None,
        }
    }

    /// Sets the record of the word at `addr`.
    pub fn insert(&mut self, addr: u32, record: MemoryRecord)
        ensures
            final(self)@ == old(self)@.insert(addr, record),
    {
        broadcast use vstd::std_specs::hash::group_hash_axioms;

        self.words.insert(addr, record);
    }
}

impl Clone for WordStore {
    fn clone(&self) -> (r: Self)
        ensures
            r@ == self@,
    {
        WordStore { words: self.words.clone() }
    }
}

/// The memory of the machine: a register file and a sparse word-addressed
/// store.
#[derive(Debug)]
pub struct Memory {
    /// The register file.
    pub registers: Registers,
    /// The words that were written so far.
    pub words: WordStore,
}

impl Memory {
    /// A memory in which nothing was written yet.
    pub fn new() -> (r: Memory)
        ensures
            r.registers@ == Seq::new(32, |i: int| None::<MemoryRecord>),
            r.words@ == Map::<u32, MemoryRecord>::empty(),
    {
        Memory { registers: Registers::new(), words: WordStore::new() }
    }

    /// The record of the word at `addr`, if it was written before.
    pub fn get(&self, addr: u32) -> (r: Option<MemoryRecord>)
        ensures
            r == self.words@.get(addr),
    {
        self.words.get(addr)
    }

    /// Sets the record of the word at `addr`.
    pub fn insert(&mut self, addr: u32, record: MemoryRecord)
        ensures
            final(self).words@ == old(self).words@.insert(addr, record),
            final(self).registers == old(self).registers,
    {
        self.words.insert(addr, record);
    }
}

impl Clone for Memory {
    fn clone(&self) -> (r: Self)
        ensures
            r.registers == self.registers,
            r.words@ == self.words@,
    {
        Memory { registers: self.registers, words: self.words.clone() }
    }
}

/// The state of the executor that reverse execution saves and restores.
#[derive(Debug)]
pub struct ExecutionState {
    /// The program counter.
    pub pc: u32,
    /// The clock within the current shard.
    pub clk: u32,
    /// The current shard.
    pub current_shard: u32,
    /// The registers and the memory.
    pub memory: Memory,
}

/// The mathematical content of an [`ExecutionState`].
#[verifier::ext_equal]
pub struct StateView {
    /// The program counter.
    pub pc: u32,
    /// The clock within the current shard.
    pub clk: u32,
    /// The current shard.
    pub current_shard: u32,
    /// The records of the 32 registers.
    pub registers: Seq<Option<MemoryRecord>>,
    /// The records of the words that were written.
    pub words: Map<u32, MemoryRecord>,
}

impl View for ExecutionState {
    type V = StateView;

    open spec fn view(&self) -> StateView {
        StateView {
            pc: self.pc,
            clk: self.clk,
            current_shard: self.current_shard,
            registers: self.memory.registers@,
            words: self.memory.words@,
        }
    }
}

impl Clone for ExecutionState {
    fn clone(&self) -> (r: Self)
        ensures
            r@ == self@,
            r.pc == self.pc,
            r.clk == self.clk,
            r.current_shard == self.current_shard,
            r.memory.registers == self.memory.registers,
            r.memory.words@ == self.memory.words@,
    {
        ExecutionState {
            pc: self.pc,
            clk: self.clk,
            current_shard: self.current_shard,
            memory: self.memory.clone(),
        }
    }
}

} // verus!
