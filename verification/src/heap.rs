//! The heap allocator of the programs that run in the machine.
//!
//! Memory comes from one system call, which hands out a block of a given size
//! and alignment. The allocator turns each request of the program into a call
//! and never gives memory back.

use vstd::prelude::*;

verus! {

/// The size and the alignment of a block of memory.
#[derive(Debug, Clone, Copy, PartialEq, Eq, Structural)]
pub struct Layout {
    /// The size in bytes.
    pub size: usize,
    /// The alignment in bytes.
    pub align: usize,
}

/// The arguments of one call to the system for an aligned block.
#[derive(Debug, Clone, Copy, PartialEq, Eq, Structural)]
pub struct AllocCall {
    /// The number of bytes asked for.
    pub bytes: usize,
    /// The alignment asked for.
    pub align: usize,
}

/// What a program asks of the allocator.
pub enum HeapOp {
    /// A block of memory.
    Alloc(Layout),
    /// To take a block back.
    Dealloc {
        /// The address of the block.
        addr: usize,
        /// The layout that the block was asked for with.
        layout: Layout,
    },
}

/// The call to the system that an operation makes, if it makes one.
pub open spec fn call_of(op: HeapOp) -> Option<AllocCall> {
    match op {
        HeapOp::Alloc(layout) => Some(AllocCall { bytes: layout.size, align: layout.align }),
        HeapOp::Dealloc { .. } => None,
    }
}

/// The calls to the system that a sequence of operations makes, in order.
pub open spec fn calls_of(ops: Seq<HeapOp>) -> Seq<AllocCall>
    decreases ops.len(),
{
    if ops.len() == 0 {
        Seq::empty()
    } else {
        match call_of(ops.last()) {
            Some(call) => calls_of(ops.drop_last()).push(call),
            None => calls_of(ops.drop_last()),
        }
    }
}

/// Whether the system placed each block at or behind the end of the one
/// before.
pub open spec fn placed_left_to_right(calls: Seq<AllocCall>, addrs: Seq<int>) -> bool {
    &&& addrs.len() == calls.len()
    &&& forall|i: int|
        0 < i < calls.len() ==> addrs[i - 1] + calls[i - 1].bytes <= #[trigger] addrs[i]
}

/// A simple heap allocator.
///
/// Allocates memory from left to right, without any deallocation.
#[derive(Debug, Clone, Copy)]
pub struct SimpleAlloc;

impl SimpleAlloc {
    /// The call to the system that provides a block of the given layout; the
    /// address that the system returns is the address of the block.
    pub fn allocate(&self, layout: Layout) -> (call: AllocCall)
        ensures
            call_of(HeapOp::Alloc(layout)) == Some(call),
            call.bytes == layout.size,
            call.align == layout.align,
    {
        AllocCall { bytes: layout.size, align: layout.align }
    }

    /// The call to the system that gives a block back: there is none.
    pub fn dealloc(&self, _addr: usize, _layout: Layout) -> (call: Option<AllocCall>)
        ensures
            call == call_of(HeapOp::Dealloc { addr: _addr, layout: _layout }),
            call is None,
    {
        None
    }
}

/// Calls of two sequences of operations, one after the other.
proof fn lemma_calls_of_concat(first: Seq<HeapOp>, second: Seq<HeapOp>)
    ensures
        calls_of(first + second) == calls_of(first) + calls_of(second),
    decreases second.len(),
{
    if second.len() == 0 {
        assert(first + second =~= first);
        assert(calls_of(first) + calls_of(second) =~= calls_of(first));
    } else {
        lemma_calls_of_concat(first, second.drop_last());
        assert((first + second).drop_last() =~= first + second.drop_last());
        assert(calls_of(first + second) =~= calls_of(first) + calls_of(second));
    }
}

/// Without any deallocation: taking a block back, at any time, changes
/// nothing about the calls that the system sees.
pub proof fn law_dealloc_is_invisible(
    before: Seq<HeapOp>,
    addr: usize,
    layout: Layout,
    after: Seq<HeapOp>,
)
    ensures
        calls_of(before.push(HeapOp::Dealloc { addr, layout }) + after) == calls_of(before + after),
{
    let with = before.push(HeapOp::Dealloc { addr, layout });
    lemma_calls_of_concat(with, after);
    lemma_calls_of_concat(before, after);
    assert(with.drop_last() =~= before);
}

/// From left to right: where the system places each block behind the one
/// before, every block lies behind all the earlier ones, whatever was taken
/// back in between.
pub proof fn law_left_to_right(ops: Seq<HeapOp>, addrs: Seq<int>, i: int, j: int)
    requires
        placed_left_to_right(calls_of(ops), addrs),
        0 <= i < j < addrs.len(),
    ensures
        addrs[i] + calls_of(ops)[i].bytes <= addrs[j],
    decreases j,
{
    if i < j - 1 {
        law_left_to_right(ops, addrs, i, j - 1);
        assert(addrs[j - 1] + calls_of(ops)[j - 1].bytes <= addrs[j]);
    }
}

/// What a program asks for is what the system is asked for: the call for a
/// block has the size and the alignment of its layout, and comes after the
/// calls for all earlier blocks; taking a block back makes no call.
pub proof fn law_calls_match_layouts(ops: Seq<HeapOp>, layout: Layout, addr: usize)
    ensures
        calls_of(Seq::empty()).len() == 0,
        calls_of(ops.push(HeapOp::Alloc(layout))) == calls_of(ops).push(
            AllocCall { bytes: layout.size, align: layout.align },
        ),
        calls_of(ops.push(HeapOp::Dealloc { addr, layout })) == calls_of(ops),
{
    assert(ops.push(HeapOp::Alloc(layout)).drop_last() =~= ops);
    assert(ops.push(HeapOp::Dealloc { addr, layout }).drop_last() =~= ops);
}

/// The call that the allocation at position `i` makes stands where the calls
/// of the operations before it end.
proof fn lemma_call_at(ops: Seq<HeapOp>, i: int, layout: Layout)
    requires
        0 <= i < ops.len(),
        ops[i] == HeapOp::Alloc(layout),
    ensures
        calls_of(ops.take(i)).len() < calls_of(ops).len(),
        calls_of(ops)[calls_of(ops.take(i)).len() as int] == (AllocCall {
            bytes: layout.size,
            align: layout.align,
        }),
        forall|j: int|
            i < j <= ops.len() ==> calls_of(ops.take(i)).len() < #[trigger] calls_of(
                ops.take(j),
            ).len(),
{
    assert(ops.take(i + 1) =~= ops.take(i).push(ops[i]));
    assert(ops =~= ops.take(i + 1) + ops.skip(i + 1));
    law_calls_match_layouts(ops.take(i), layout, 0);
    lemma_calls_of_concat(ops.take(i + 1), ops.skip(i + 1));
    assert forall|j: int| i < j <= ops.len() implies calls_of(ops.take(i)).len()
        < #[trigger] calls_of(ops.take(j)).len() by {
        assert(ops.take(j) =~= ops.take(i + 1) + ops.subrange(i + 1, j));
        lemma_calls_of_concat(ops.take(i + 1), ops.subrange(i + 1, j));
    }
}

/// Blocks do not overlap: where the system places what it is asked for from
/// left to right, and aligned as it is asked to, the block of every allocation
/// has all the bytes that the program asked for before the block of any later
/// allocation begins, and has the alignment that the program asked for;
/// whatever was taken back in between.
pub proof fn law_blocks_are_disjoint(
    ops: Seq<HeapOp>,
    addrs: Seq<int>,
    i: int,
    j: int,
    first: Layout,
    second: Layout,
)
    requires
        addrs.len() == calls_of(ops).len(),
        forall|k: int|
            0 < k < addrs.len() ==> addrs[k - 1] + calls_of(ops)[k - 1].bytes
                <= #[trigger] addrs[k],
        forall|k: int|
            0 <= k < addrs.len() && calls_of(ops)[k].align > 0 ==> #[trigger] addrs[k]
                % (calls_of(ops)[k].align as int) == 0,
        0 <= i < j < ops.len(),
        ops[i] == HeapOp::Alloc(first),
        ops[j] == HeapOp::Alloc(second),
    ensures
        addrs[calls_of(ops.take(i)).len() as int] + first.size <= addrs[calls_of(
            ops.take(j),
        ).len() as int],
        first.align > 0 ==> addrs[calls_of(ops.take(i)).len() as int] % (first.align as int) == 0,
{
    lemma_call_at(ops, i, first);
    lemma_call_at(ops, j, second);
    law_left_to_right(
        ops,
        addrs,
        calls_of(ops.take(i)).len() as int,
        calls_of(ops.take(j)).len() as int,
    );
}

} // verus!
