//! Reading and writing the registers and the memory of the executor.
//!
//! A debugger addresses memory by bytes, and the machine keeps words: byte
//! `k` of the word at `w` is the byte at address `w + k`.

use vstd::prelude::*;

use crate::executor::{Executor, ExecutorView};
use crate::state::{value_or_zero, MemoryRecord, StateView};

verus! {

/// The values of the general purpose registers and of the program counter.
#[derive(Debug, Clone, Copy)]
pub struct CoreRegs {
    /// The general purpose registers.
    pub x: [u32; 32],
    /// The program counter.
    pub pc: u32,
}

/// The records of the registers after `values` were written to them.
pub open spec fn registers_written(s: StateView, values: Seq<u32>) -> Seq<Option<MemoryRecord>> {
    Seq::new(
        32,
        |i: int|
            Some(
                MemoryRecord { shard: s.current_shard, timestamp: s.clk, value: values[i] },
            ),
    )
}

/// Byte `k` of `word`, the least significant byte being byte 0.
pub open spec fn byte_of(word: u32, k: int) -> u8
    recommends
        0 <= k < 4,
{
    if k == 0 {
        (word % 0x100) as u8
    } else if k == 1 {
        (word / 0x100 % 0x100) as u8
    } else if k == 2 {
        (word / 0x1_0000 % 0x100) as u8
    } else {
        (word / 0x100_0000) as u8
    }
}

/// The word that has the given bytes, the least significant first.
pub open spec fn word_of(b0: u8, b1: u8, b2: u8, b3: u8) -> u32 {
    (b0 + 0x100 * b1 + 0x1_0000 * b2 + 0x100_0000 * b3) as u32
}

/// The address of the word that holds the byte at `addr`.
pub open spec fn word_address(addr: int) -> int {
    addr - addr % 4
}

/// The byte at `addr`; a byte that was never written is zero.
pub open spec fn byte_at(words: Map<u32, MemoryRecord>, addr: int) -> u8
    recommends
        0 <= addr <= u32::MAX,
{
    byte_of(value_or_zero(words.get(word_address(addr) as u32)), addr % 4)
}

/// The byte at `addr` after `data` was written at `start`.
pub open spec fn byte_written(
    words: Map<u32, MemoryRecord>,
    start: int,
    data: Seq<u8>,
    addr: int,
) -> u8 {
    if start <= addr < start + data.len() {
        data[addr - start]
    } else {
        byte_at(words, addr)
    }
}

/// Whether writing `len` bytes at `start` touches the word at `w`.
pub open spec fn touches(start: int, len: int, w: u32) -> bool {
    w % 4 == 0 && len > 0 && start <= w + 3 && w < start + len
}

/// The words after `data` was written at `start`: the words that it touches
/// carry its bytes, and the present shard and clock.
pub open spec fn words_written(s: StateView, start: int, data: Seq<u8>) -> Map<u32, MemoryRecord> {
    Map::new(
        |w: u32| s.words.contains_key(w) || touches(start, data.len() as int, w),
        |w: u32|
            if touches(start, data.len() as int, w) {
                MemoryRecord {
                    shard: s.current_shard,
                    timestamp: s.clk,
                    value: word_of(
                        byte_written(s.words, start, data, w as int),
                        byte_written(s.words, start, data, w + 1),
                        byte_written(s.words, start, data, w + 2),
                        byte_written(s.words, start, data, w + 3),
                    ),
                }
            } else {
                s.words[w]
            },
    )
}

/// Shifting and masking select a byte of a word.
proof fn lemma_extract(word: u32, k: u32)
    requires
        k < 4,
    ensures
        ((word >> ((k * 8) as u32)) & 0xff) as u8 == byte_of(word, k as int),
{
    assert(((word >> 0u32) & 0xff) as u8 == (word % 0x100) as u8) by (bit_vector);
    assert(((word >> 8u32) & 0xff) as u8 == (word / 0x100 % 0x100) as u8) by (bit_vector);
    assert(((word >> 16u32) & 0xff) as u8 == (word / 0x1_0000 % 0x100) as u8) by (bit_vector);
    assert(((word >> 24u32) & 0xff) as u8 == (word / 0x100_0000) as u8) by (bit_vector);
}

/// A word is made of its bytes.
proof fn lemma_word_of_bytes(word: u32)
    ensures
        word_of(byte_of(word, 0), byte_of(word, 1), byte_of(word, 2), byte_of(word, 3)) == word,
{
}

/// The bytes of a word are those that it was made of.
proof fn lemma_bytes_of_word(b0: u8, b1: u8, b2: u8, b3: u8)
    ensures
        byte_of(word_of(b0, b1, b2, b3), 0) == b0,
        byte_of(word_of(b0, b1, b2, b3), 1) == b1,
        byte_of(word_of(b0, b1, b2, b3), 2) == b2,
        byte_of(word_of(b0, b1, b2, b3), 3) == b3,
{
    let word = word_of(b0, b1, b2, b3);
    assert(word / 0x100 == b1 + 0x100 * b2 + 0x1_0000 * b3);
    assert(word / 0x1_0000 == b2 + 0x100 * b3);
    assert(word / 0x100_0000 == b3);
}

/// Whether `after` has `byte` as byte `k`, and the other bytes of `before`.
spec fn byte_replaced(before: u32, after: u32, k: int, byte: u8) -> bool {
    forall|j: int|
        0 <= j < 4 ==> #[trigger] byte_of(after, j) == if j == k {
            byte
        } else {
            byte_of(before, j)
        }
}

/// Clearing eight bits and setting them anew replaces a byte of a word.
proof fn lemma_replace(word: u32, k: u32, byte: u8)
    requires
        k < 4,
    ensures
        byte_replaced(
            word,
            (word & !(0xffu32 << ((k * 8) as u32))) | ((byte as u32) << ((k * 8) as u32)),
            k as int,
            byte,
        ),
{
    let b = byte as u32;
    let n = (word & !(0xffu32 << ((k * 8) as u32))) | (b << ((k * 8) as u32));
    if k == 0 {
        assert(n % 0x100 == b && n / 0x100 % 0x100 == word / 0x100 % 0x100
            && n / 0x1_0000 % 0x100 == word / 0x1_0000 % 0x100 && n / 0x100_0000 == word
            / 0x100_0000) by (bit_vector)
            requires
                b < 0x100,
                n == (word & !(0xffu32 << 0u32)) | (b << 0u32),
        ;
    } else if k == 1 {
        assert(n % 0x100 == word % 0x100 && n / 0x100 % 0x100 == b
            && n / 0x1_0000 % 0x100 == word / 0x1_0000 % 0x100 && n / 0x100_0000 == word
            / 0x100_0000) by (bit_vector)
            requires
                b < 0x100,
                n == (word & !(0xffu32 << 8u32)) | (b << 8u32),
        ;
    } else if k == 2 {
        assert(n % 0x100 == word % 0x100 && n / 0x100 % 0x100 == word / 0x100 % 0x100
            && n / 0x1_0000 % 0x100 == b && n / 0x100_0000 == word
            / 0x100_0000) by (bit_vector)
            requires
                b < 0x100,
                n == (word & !(0xffu32 << 16u32)) | (b << 16u32),
        ;
    } else {
        assert(n % 0x100 == word % 0x100 && n / 0x100 % 0x100 == word / 0x100 % 0x100
            && n / 0x1_0000 % 0x100 == word / 0x1_0000 % 0x100 && n / 0x100_0000
            == b) by (bit_vector)
            requires
                b < 0x100,
                n == (word & !(0xffu32 << 24u32)) | (b << 24u32),
        ;
    }
}

/// Bytes of the words after a write are the bytes that were written, and the
/// old ones elsewhere.
pub proof fn lemma_byte_at_written(s: StateView, start: int, data: Seq<u8>, addr: int)
    requires
        0 <= addr <= u32::MAX,
    ensures
        byte_at(words_written(s, start, data), addr) == byte_written(s.words, start, data, addr),
{
    let w = word_address(addr) as u32;
    if touches(start, data.len() as int, w) {
        lemma_bytes_of_word(
            byte_written(s.words, start, data, w as int),
            byte_written(s.words, start, data, w + 1),
            byte_written(s.words, start, data, w + 2),
            byte_written(s.words, start, data, w + 3),
        );
    }
}

/// Among the aligned words, a write that is one byte longer touches no word
/// more than the one with the last byte, and changes no byte of another word.
proof fn lemma_touches_step(s: StateView, start: int, data: Seq<u8>, i: int, v: u32)
    requires
        0 <= start,
        0 <= i < data.len(),
        start + i <= u32::MAX,
    ensures
        touches(start, i, v) ==> touches(start, i + 1, v),
        v == word_address(start + i) ==> touches(start, i + 1, v),
        v != word_address(start + i) && touches(start, i + 1, v) ==> {
            &&& touches(start, i, v)
            &&& forall|j: int|
                0 <= j < 4 ==> #[trigger] byte_written(s.words, start, data.take(i + 1), v + j)
                    == byte_written(s.words, start, data.take(i), v + j)
        },
{
    if v != word_address(start + i) && touches(start, i + 1, v) {
        assert(!(v <= start + i <= v + 3));
        assert forall|j: int| 0 <= j < 4 implies #[trigger] byte_written(
            s.words,
            start,
            data.take(i + 1),
            v + j,
        ) == byte_written(s.words, start, data.take(i), v + j) by {
            assert(v + j != start + i);
        }
    }
}

/// The bytes of the word that one more byte was put into are those of the
/// longer write.
proof fn lemma_bytes_step(s: StateView, start: int, data: Seq<u8>, i: int, value: u32, j: int)
    requires
        0 <= start,
        0 <= i < data.len(),
        start + i <= u32::MAX,
        byte_replaced(
            value_or_zero(
                words_written(s, start, data.take(i)).get(word_address(start + i) as u32),
            ),
            value,
            (start + i) % 4,
            data[i],
        ),
        0 <= j < 4,
    ensures
        byte_of(value, j) == byte_written(
            s.words,
            start,
            data.take(i + 1),
            word_address(start + i) + j,
        ),
{
    let w = word_address(start + i) as u32;
    let before = words_written(s, start, data.take(i));
    assert(word_address(w + j) == w && (w + j) % 4 == j);
    assert(w + j == start + i <==> j == (start + i) % 4);
    lemma_byte_at_written(s, start, data.take(i), w + j);
    assert(byte_at(before, w + j) == byte_of(value_or_zero(before.get(w)), j));
}

/// The word that one more byte was put into is that of the longer write.
proof fn lemma_value_step(s: StateView, start: int, data: Seq<u8>, i: int, value: u32)
    requires
        0 <= start,
        0 <= i < data.len(),
        start + i <= u32::MAX,
        byte_replaced(
            value_or_zero(
                words_written(s, start, data.take(i)).get(word_address(start + i) as u32),
            ),
            value,
            (start + i) % 4,
            data[i],
        ),
    ensures
        words_written(s, start, data.take(i + 1)).get(word_address(start + i) as u32) == Some(
            MemoryRecord { shard: s.current_shard, timestamp: s.clk, value },
        ),
{
    let w = word_address(start + i) as u32;
    lemma_bytes_step(s, start, data, i, value, 0);
    lemma_bytes_step(s, start, data, i, value, 1);
    lemma_bytes_step(s, start, data, i, value, 2);
    lemma_bytes_step(s, start, data, i, value, 3);
    lemma_word_of_bytes(value);
    lemma_touches_step(s, start, data, i, w);
}

/// Writing one byte more leaves the words without that byte alone.
proof fn lemma_other_words_step(s: StateView, start: int, data: Seq<u8>, i: int, v: u32)
    requires
        0 <= start,
        0 <= i < data.len(),
        start + i <= u32::MAX,
        v != word_address(start + i),
    ensures
        words_written(s, start, data.take(i + 1)).get(v) == words_written(
            s,
            start,
            data.take(i),
        ).get(v),
{
    lemma_touches_step(s, start, data, i, v);
    if touches(start, i + 1, v) {
        let shorter = data.take(i);
        let longer = data.take(i + 1);
        assert(byte_written(s.words, start, longer, v + 0) == byte_written(
            s.words,
            start,
            shorter,
            v + 0,
        ));
        assert(byte_written(s.words, start, longer, v + 1) == byte_written(
            s.words,
            start,
            shorter,
            v + 1,
        ));
        assert(byte_written(s.words, start, longer, v + 2) == byte_written(
            s.words,
            start,
            shorter,
            v + 2,
        ));
        assert(byte_written(s.words, start, longer, v + 3) == byte_written(
            s.words,
            start,
            shorter,
            v + 3,
        ));
    }
}

/// A map that differs from another one in one entry is that map with the
/// entry inserted.
proof fn lemma_insert(
    before: Map<u32, MemoryRecord>,
    after: Map<u32, MemoryRecord>,
    w: u32,
    record: MemoryRecord,
)
    requires
        after.get(w) == Some(record),
        forall|v: u32| v != w ==> #[trigger] after.get(v) == before.get(v),
    ensures
        before.insert(w, record) == after,
{
    let inserted = before.insert(w, record);
    assert forall|v: u32| #[trigger] inserted.dom().contains(v) == after.dom().contains(v) by {
        assert(v != w ==> after.get(v) == before.get(v));
    }
    assert forall|v: u32| #[trigger] inserted.dom().contains(v) implies inserted[v] == after[v] by {
        assert(v != w ==> after.get(v) == before.get(v));
    }
    assert(inserted =~= after);
}

/// Writing one byte more changes one word.
proof fn lemma_write_step(s: StateView, start: int, data: Seq<u8>, i: int, value: u32)
    requires
        0 <= start,
        0 <= i < data.len(),
        start + i <= u32::MAX,
        byte_replaced(
            value_or_zero(
                words_written(s, start, data.take(i)).get(word_address(start + i) as u32),
            ),
            value,
            (start + i) % 4,
            data[i],
        ),
    ensures
        words_written(s, start, data.take(i)).insert(
            word_address(start + i) as u32,
            MemoryRecord { shard: s.current_shard, timestamp: s.clk, value },
        ) == words_written(s, start, data.take(i + 1)),
{
    let w = word_address(start + i) as u32;
    let before = words_written(s, start, data.take(i));
    let after = words_written(s, start, data.take(i + 1));
    lemma_value_step(s, start, data, i, value);
    assert forall|v: u32| v != w implies #[trigger] after.get(v) == before.get(v) by {
        lemma_other_words_step(s, start, data, i, v);
    }
    lemma_insert(
        before,
        after,
        w,
        MemoryRecord { shard: s.current_shard, timestamp: s.clk, value },
    );
}

impl Executor {
    /// Reads the general purpose registers and the program counter. Registers
    /// that were never written read as zero.
    pub fn read_registers(&mut self, regs: &mut CoreRegs) -> (r: Result<(), &'static str>)
        ensures
            r is Ok,
            final(self)@ == old(self)@,
            final(regs).pc == old(self)@.state.pc,
            forall|i: int|
                0 <= i < 32 ==> #[trigger] final(regs).x[i] == value_or_zero(
                    old(self)@.state.registers[i],
                ),
            forall|i: int|
                0 <= i < 32 ==> match old(self)@.state.registers[i] {
                    Some(record) => #[trigger] final(regs).x[i] == record.value,
                    None => final(regs).x[i] == 0,
                },
    {
        let mut i: usize = 0;
        while i < 32
            invariant
                i <= 32,
                self@ == old(self)@,
                forall|j: int|
                    0 <= j < i ==> #[trigger] regs.x[j] == value_or_zero(
                        self@.state.registers[j],
                    ),
            decreases 32 - i,
        {
            regs.x[i] = match self.state.memory.registers.get(i as u32) {
                Some(record) => record.value,
                None => 0,
            };
            i += 1;
        }
        regs.pc = self.state.pc;
        Ok(())
    }

    /// Writes the general purpose registers and the program counter. The
    /// records of the registers carry the present shard and clock.
    pub fn write_registers(&mut self, regs: &CoreRegs) -> (r: Result<(), &'static str>)
        ensures
            r is Ok,
            final(self)@ == (ExecutorView {
                state: StateView {
                    registers: registers_written(old(self)@.state, regs.x@),
                    pc: regs.pc,
                    ..old(self)@.state
                },
                ..old(self)@
            }),
            final(self)@.state.pc == regs.pc,
            forall|i: int|
                0 <= i < 32 ==> #[trigger] final(self)@.state.registers[i] == Some(
                    MemoryRecord {
                        shard: old(self)@.state.current_shard,
                        timestamp: old(self)@.state.clk,
                        value: regs.x[i],
                    },
                ),
    {
        broadcast use crate::state::Registers::lemma_len;

        let mut i: usize = 0;
        while i < 32
            invariant
                i <= 32,
                self@.state.registers.len() == 32,
                self@ == (ExecutorView {
                    state: StateView { registers: self@.state.registers, ..old(self)@.state },
                    ..old(self)@
                }),
                forall|j: int|
                    0 <= j < i ==> self@.state.registers[j] == registers_written(
                        old(self)@.state,
                        regs.x@,
                    )[j],
            decreases 32 - i,
        {
            let record = MemoryRecord {
                value: regs.x[i],
                shard: self.state.current_shard,
                timestamp: self.state.clk,
            };
            self.state.memory.registers.insert(i as u32, record);
            i += 1;
        }
        self.state.pc = regs.pc;
        assert(self@.state.registers =~= registers_written(old(self)@.state, regs.x@));
        Ok(())
    }

    /// Reads `data.len()` bytes of memory from `start_addr` on.
    pub fn read_addrs(&mut self, start_addr: u32, data: &mut [u8]) -> (r: Result<
        usize,
        &'static str,
    >)
        requires
            start_addr + old(data)@.len() <= 0x1_0000_0000,
        ensures
            r == Ok::<usize, &'static str>(old(data)@.len() as usize),
            final(self)@ == old(self)@,
            final(data)@ == Seq::new(
                old(data)@.len(),
                |i: int| byte_at(old(self)@.state.words, start_addr + i),
            ),
    {
        let mut i: usize = 0;
        while i < data.len()
            invariant
                i <= data@.len(),
                data@.len() == old(data)@.len(),
                start_addr + data@.len() <= 0x1_0000_0000,
                self@ == old(self)@,
                forall|j: int|
                    0 <= j < i ==> #[trigger] data@[j] == byte_at(
                        self@.state.words,
                        start_addr + j,
                    ),
            decreases data@.len() - i,
        {
            let addr: u32 = start_addr + i as u32;
            let word_addr: u32 = addr & !3;
            assert(word_addr == word_address(addr as int)) by {
                assert(addr & !3 == addr - addr % 4) by (bit_vector);
            }
            let word: u32 = match self.state.memory.get(word_addr) {
                Some(record) => record.value,
                None => 0,
            };
            let byte_offset: u32 = (addr % 4) * 8;
            proof {
                lemma_extract(word, addr % 4);
            }
            data[i] = ((word >> byte_offset) & 0xff) as u8;
            i += 1;
        }
        assert(data@ =~= Seq::new(
            old(data)@.len(),
            |i: int| byte_at(old(self)@.state.words, start_addr + i),
        ));
        Ok(data.len())
    }

    /// Writes `data` to memory from `start_addr` on.
    pub fn write_addrs(&mut self, start_addr: u32, data: &[u8]) -> (r: Result<(), &'static str>)
        requires
            start_addr + data@.len() <= 0x1_0000_0000,
        ensures
            r is Ok,
            final(self)@ == (ExecutorView {
                state: StateView {
                    words: words_written(old(self)@.state, start_addr as int, data@),
                    ..old(self)@.state
                },
                ..old(self)@
            }),
    {
        let ghost before = self@.state;
        assert(words_written(before, start_addr as int, data@.take(0)) =~= before.words);
        let mut i: usize = 0;
        while i < data.len()
            invariant
                i <= data@.len(),
                start_addr + data@.len() <= 0x1_0000_0000,
                before == old(self)@.state,
                self@ == (ExecutorView {
                    state: StateView {
                        words: words_written(before, start_addr as int, data@.take(i as int)),
                        ..before
                    },
                    ..old(self)@
                }),
            decreases data@.len() - i,
        {
            let byte = data[i];
            let addr: u32 = start_addr + i as u32;
            let word_addr: u32 = addr & !3;
            assert(word_addr == word_address(addr as int)) by {
                assert(addr & !3 == addr - addr % 4) by (bit_vector);
            }
            let mut word: u32 = match self.state.memory.get(word_addr) {
                Some(record) => record.value,
                None => 0,
            };
            let byte_offset: u32 = (addr % 4) * 8;
            proof {
                lemma_replace(word, addr % 4, byte);
            }
            word = word & !(0xffu32 << byte_offset);
            word = word | (byte as u32) << byte_offset;
            let record = MemoryRecord {
                value: word,
                shard: self.state.current_shard,
                timestamp: self.state.clk,
            };
            self.state.memory.insert(word_addr, record);
            proof {
                lemma_write_step(before, start_addr as int, data@, i as int, word);
            }
            i += 1;
        }
        assert(data@.take(i as int) =~= data@);
        Ok(())
    }
}

} // verus!
