//! The heap allocator.

use sp1_debugger::heap::{AllocCall, Layout, SimpleAlloc};

#[test]
fn allocating_asks_the_system_for_the_layout() {
    let layout = Layout { size: 24, align: 8 };
    assert_eq!(SimpleAlloc.allocate(layout), AllocCall { bytes: 24, align: 8 });
}

#[test]
fn taking_a_block_back_asks_for_nothing() {
    assert_eq!(SimpleAlloc.dealloc(0x1000, Layout { size: 24, align: 8 }), None);
}

#[test]
fn blocks_lie_one_behind_the_other() {
    let mut heap_pos: usize = 0x1003;
    let mut blocks: Vec<(usize, usize)> = Vec::new();
    for (size, align) in [(3, 1), (8, 8), (1, 4), (16, 16)] {
        let layout = Layout { size, align };
        let call = SimpleAlloc.allocate(layout);
        let addr = (heap_pos + call.align - 1) / call.align * call.align;
        heap_pos = addr + call.bytes;
        for (earlier, len) in &blocks {
            assert!(earlier + len <= addr);
        }
        blocks.push((addr, size));
        assert_eq!(SimpleAlloc.dealloc(addr, layout), None);
    }
    assert_eq!(blocks, [(0x1003, 3), (0x1008, 8), (0x1010, 1), (0x1020, 16)]);
}
