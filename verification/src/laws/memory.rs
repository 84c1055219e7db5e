//! Laws on the registers and on the memory.

use vstd::prelude::*;

use crate::access::{
    byte_at, byte_written, lemma_byte_at_written, registers_written, touches, words_written,
};
use crate::state::{value_or_zero, MemoryRecord, StateView};

verus! {

/// Reading the registers gives back what was last written to them.
pub proof fn law_registers_round_trip(s: StateView, values: Seq<u32>, i: int)
    requires
        0 <= i < 32,
    ensures
        value_or_zero(registers_written(s, values)[i]) == values[i],
{
}

/// Reading memory gives back what was last written to it.
pub proof fn law_memory_round_trip(s: StateView, start: int, data: Seq<u8>)
    requires
        0 <= start,
        start + data.len() <= 0x1_0000_0000,
    ensures
        Seq::new(data.len(), |i: int| byte_at(words_written(s, start, data), start + i)) == data,
{
    assert forall|i: int| 0 <= i < data.len() implies byte_at(
        words_written(s, start, data),
        start + i,
    ) == data[i] by {
        lemma_byte_at_written(s, start, data, start + i);
    }
    assert(Seq::new(data.len(), |i: int| byte_at(words_written(s, start, data), start + i))
        =~= data);
}

/// Writing memory changes no byte outside the written range.
pub proof fn law_memory_write_frame(s: StateView, start: int, data: Seq<u8>, addr: int)
    requires
        0 <= addr <= u32::MAX,
        !(start <= addr < start + data.len()),
    ensures
        byte_at(words_written(s, start, data), addr) == byte_at(s.words, addr),
{
    lemma_byte_at_written(s, start, data, addr);
}

/// The state after `data` was written at `start`.
pub open spec fn written(s: StateView, start: int, data: Seq<u8>) -> StateView {
    StateView { words: words_written(s, start, data), ..s }
}

/// The bytes of two adjacent writes are those of one write.
proof fn lemma_bytes_in_pieces(s: StateView, start: int, a: Seq<u8>, b: Seq<u8>, addr: int)
    requires
        0 <= addr <= u32::MAX,
    ensures
        byte_written(words_written(s, start, a), start + a.len(), b, addr) == byte_written(
            s.words,
            start,
            a + b,
            addr,
        ),
{
    lemma_byte_at_written(s, start, a, addr);
}

/// One word after two adjacent writes is that after one write.
proof fn lemma_word_in_pieces(s: StateView, start: int, a: Seq<u8>, b: Seq<u8>, w: u32)
    requires
        0 <= start,
        start + a.len() + b.len() <= 0x1_0000_0000,
    ensures
        words_written(written(s, start, a), start + a.len(), b).get(w) == words_written(
            s,
            start,
            a + b,
        ).get(w),
{
    let first = words_written(s, start, a);
    let middle = start + a.len();
    if w % 4 == 0 {
        lemma_bytes_in_pieces(s, start, a, b, w as int);
        lemma_bytes_in_pieces(s, start, a, b, w + 1);
        lemma_bytes_in_pieces(s, start, a, b, w + 2);
        lemma_bytes_in_pieces(s, start, a, b, w + 3);
        if touches(start, (a + b).len() as int, w) && !touches(middle, b.len() as int, w) {
            assert(touches(start, a.len() as int, w));
            assert forall|k: int| 0 <= k < 4 implies #[trigger] byte_written(
                s.words,
                start,
                a + b,
                w + k,
            ) == byte_written(s.words, start, a, w + k) by {}
            assert(byte_written(s.words, start, a + b, w + 0) == byte_written(
                s.words,
                start,
                a,
                w + 0,
            ));
        }
    }
}

/// Writing two adjacent pieces is writing them at once.
pub proof fn law_memory_write_in_pieces(s: StateView, start: int, a: Seq<u8>, b: Seq<u8>)
    requires
        0 <= start,
        start + a.len() + b.len() <= 0x1_0000_0000,
    ensures
        written(written(s, start, a), start + a.len(), b) == written(s, start, a + b),
{
    let pieces = words_written(written(s, start, a), start + a.len(), b);
    let whole = words_written(s, start, a + b);
    assert forall|w: u32| #[trigger] pieces.dom().contains(w) == whole.dom().contains(w) by {
        lemma_word_in_pieces(s, start, a, b, w);
        assert(pieces.get(w) == whole.get(w));
    }
    assert forall|w: u32| #[trigger] pieces.dom().contains(w) implies pieces[w] == whole[w] by {
        lemma_word_in_pieces(s, start, a, b, w);
        assert(pieces.get(w) == whole.get(w));
    }
    assert(pieces =~= whole);
}

/// After a write to the registers all 32 of them are recorded, each with its
/// own value and with the present shard and clock.
pub proof fn law_register_records(s: StateView, values: Seq<u32>, i: int)
    requires
        0 <= i < 32,
    ensures
        registers_written(s, values).len() == 32,
        registers_written(s, values)[i] matches Some(record) && record.value == values[i]
            && record.shard == s.current_shard && record.timestamp == s.clk,
{
}

/// Memory is little-endian: a word is made of the bytes at its address and at
/// the three addresses behind it, the lowest byte first; a word that was never
/// written has four zero bytes.
pub proof fn law_little_endian(words: Map<u32, MemoryRecord>, w: u32)
    requires
        w % 4 == 0,
    ensures
        words.contains_key(w) ==> words[w].value == byte_at(words, w as int) + 256 * byte_at(
            words,
            w + 1,
        ) + 65536 * byte_at(words, w + 2) + 16777216 * byte_at(words, w + 3),
        !words.contains_key(w) ==> byte_at(words, w as int) == 0 && byte_at(words, w + 1) == 0
            && byte_at(words, w + 2) == 0 && byte_at(words, w + 3) == 0,
{
}

/// A write records the words that have a byte of the written range, with the
/// present shard and clock, and leaves the records of all other words alone.
/// Only words at multiples of four are recorded.
pub proof fn law_write_records(s: StateView, start: int, data: Seq<u8>, w: u32)
    requires
        0 <= start,
        start + data.len() <= 0x1_0000_0000,
    ensures
        ({
            let after = words_written(s, start, data);
            let holds_written_byte = w % 4 == 0 && exists|i: int|
                0 <= i < data.len() && #[trigger] (start + i) / 4 == w as int / 4;
            &&& holds_written_byte ==> after.contains_key(w) && after[w].shard == s.current_shard
                && after[w].timestamp == s.clk
            &&& !holds_written_byte ==> after.get(w) == s.words.get(w)
        }),
{
    if touches(start, data.len() as int, w) {
        let i = if start <= w {
            w - start
        } else {
            0
        };
        assert(0 <= i < data.len() && (start + i) / 4 == w as int / 4);
    }
}

} // verus!
