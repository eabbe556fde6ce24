use os_core::config::MAX_UNWIND_STEPS;
use os_core::unwind::{walk, StackFrame, StackMemory};

/// Lays out frames at 0x1000 + 0x20 * i, frame i saving frame i + 1 and the
/// last one saving null.
fn chain_memory(n: usize) -> (StackMemory, usize) {
    let base = 0x1000;
    let mut words = vec![0usize; 4 * (n + 1)];
    for i in 0..n {
        let fp = base + 0x20 * (i + 1);
        let next = if i + 1 < n { base + 0x20 * (i + 2) } else { 0 };
        words[(fp - 8 - base) / 8] = 0x8000 + i;
        words[(fp - 16 - base) / 8] = next;
    }
    (StackMemory { base, words }, base + 0x20)
}

#[test]
fn walk_null_terminated_chain() {
    let (mem, fp) = chain_memory(3);
    let frames = walk(&mem, fp);
    assert_eq!(frames.len(), 3);
    assert_eq!(frames[0], StackFrame { return_address: 0x8000, saved_frame_pointer: 0x1040 });
    assert_eq!(frames[1].return_address, 0x8001);
    assert_eq!(frames[2], StackFrame { return_address: 0x8002, saved_frame_pointer: 0 });
}

#[test]
fn walk_null_start_is_empty() {
    let (mem, _) = chain_memory(2);
    assert!(walk(&mem, 0).is_empty());
}

#[test]
fn walk_cycle_stops_at_bound() {
    let base = 0x1000;
    let mut words = vec![0usize; 8];
    words[(0x1020 - 16 - base) / 8] = 0x1040;
    words[(0x1020 - 8 - base) / 8] = 0xaaaa;
    words[(0x1040 - 16 - base) / 8] = 0x1020;
    words[(0x1040 - 8 - base) / 8] = 0xbbbb;
    let frames = walk(&StackMemory { base, words }, 0x1020);
    assert_eq!(frames.len(), MAX_UNWIND_STEPS);
    assert_eq!(frames[0].return_address, 0xaaaa);
    assert_eq!(frames[1].return_address, 0xbbbb);
    assert_eq!(frames[2].return_address, 0xaaaa);
}

#[test]
fn walk_unreadable_frame_ends_chain() {
    let (mem, fp) = chain_memory(2);
    let frames = walk(&mem, fp + 0x1000);
    assert!(frames.is_empty());
    let frames = walk(&mem, 3);
    assert!(frames.is_empty());
}

#[test]
fn long_chain_truncated_at_bound() {
    let (mem, fp) = chain_memory(MAX_UNWIND_STEPS + 5);
    assert_eq!(walk(&mem, fp).len(), MAX_UNWIND_STEPS);
}
