use mayoos::memory::allocator::block::{
    block_size, list_index, AllocStep, DeallocStep, FixedBlockAllocator, BLOCK_CLASS_COUNT,
};
use mayoos::memory::allocator::{align_down, align_up, heap_page_range, HEAP_SIZE, HEAP_START};
use mayoos::memory::{PageWalk, TableEntry, WalkStep};

#[test]
fn align_down_rounds_to_multiple() {
    assert_eq!(align_down(0x1234, 0x100), 0x1200);
    assert_eq!(align_down(0x1200, 0x100), 0x1200);
    assert_eq!(align_down(7, 1), 7);
    assert_eq!(align_down(0xfff, 0x1000), 0);
}

#[test]
fn align_down_zero_alignment_keeps_address() {
    assert_eq!(align_down(0x1234, 0), 0x1234);
}

#[test]
fn align_up_rounds_to_multiple() {
    assert_eq!(align_up(0x1201, 0x100), 0x1300);
    assert_eq!(align_up(0x1200, 0x100), 0x1200);
    assert_eq!(align_up(1, 8), 8);
    assert_eq!(align_up(0, 8), 0);
}

#[test]
fn align_up_zero_alignment() {
    assert_eq!(align_up(5, 0), 4);
}

#[test]
fn heap_pages_cover_the_heap() {
    let (first, last) = heap_page_range();
    assert_eq!(first, 0x6000_0000_0000);
    assert_eq!(first, HEAP_START);
    assert_eq!(last, 0x6000_000F_9000);
    assert!(last + 4096 >= HEAP_START + HEAP_SIZE as u64);
}

#[test]
fn block_sizes_double() {
    assert_eq!(BLOCK_CLASS_COUNT, 9);
    assert_eq!(block_size(0), 8);
    assert_eq!(block_size(3), 64);
    assert_eq!(block_size(8), 2048);
}

#[test]
fn list_index_picks_first_fitting_class() {
    assert_eq!(list_index(8, 8), Some(0));
    assert_eq!(list_index(0, 0), Some(0));
    assert_eq!(list_index(9, 1), Some(1));
    assert_eq!(list_index(1, 16), Some(1));
    assert_eq!(list_index(100, 4), Some(4));
    assert_eq!(list_index(2048, 8), Some(8));
    assert_eq!(list_index(2049, 1), None);
    assert_eq!(list_index(8, 4096), None);
}

#[test]
fn block_allocator_reuses_freed_blocks() {
    let mut a = FixedBlockAllocator::new();
    assert_eq!(a.allocate(16, 8), AllocStep::Fallback { size: 16, align: 16 });
    let b1 = HEAP_START as usize + 0x1000;
    let b2 = HEAP_START as usize + 0x2000;
    assert_eq!(a.deallocate(b1, 16, 8), DeallocStep::Link { index: 1, next: None });
    assert_eq!(a.deallocate(b2, 12, 4), DeallocStep::Link { index: 1, next: Some(b1) });
    assert_eq!(a.allocate(16, 8), AllocStep::Reuse { index: 1, block: b2 });
    a.pop_head(1, Some(b1));
    assert_eq!(a.allocate(10, 2), AllocStep::Reuse { index: 1, block: b1 });
    a.pop_head(1, None);
    assert_eq!(a.allocate(16, 8), AllocStep::Fallback { size: 16, align: 16 });
    assert_eq!(a.allocate(8, 8), AllocStep::Fallback { size: 8, align: 8 });
}

#[test]
fn block_allocator_large_requests_use_fallback() {
    let mut a = FixedBlockAllocator::new();
    assert_eq!(a.allocate(4096, 8), AllocStep::Fallback { size: 4096, align: 8 });
    assert_eq!(a.deallocate(HEAP_START as usize + 0x8000, 4096, 8), DeallocStep::Fallback);
    assert_eq!(a.allocate(4096, 8), AllocStep::Fallback { size: 4096, align: 8 });
}

fn walk(addr: u64, entries: &[TableEntry]) -> (Vec<(u64, u16)>, Option<u64>) {
    let mut w = PageWalk::new(addr, 0x1000);
    let mut reads = Vec::new();
    let mut it = entries.iter();
    loop {
        match w.step() {
            WalkStep::Read { table, index } => {
                reads.push((table, index));
                w.feed(*it.next().unwrap());
            }
            WalkStep::Finished(r) => return (reads, r),
        }
    }
}

#[test]
fn page_walk_follows_the_indexes() {
    let addr: u64 = (3 << 39) | (5 << 30) | (7 << 21) | (9 << 12) | 0xabc;
    let (reads, r) = walk(
        addr,
        &[TableEntry::Frame(0x2000), TableEntry::Frame(0x3000), TableEntry::Frame(0x4000), TableEntry::Frame(0x9000)],
    );
    assert_eq!(reads, vec![(0x1000, 3), (0x2000, 5), (0x3000, 7), (0x4000, 9)]);
    assert_eq!(r, Some(0x9abc));
}

#[test]
fn page_walk_stops_at_missing_entry() {
    let addr: u64 = 0xffff_8000_0000_1234;
    let (reads, r) = walk(addr, &[TableEntry::Frame(0x2000), TableEntry::NotPresent]);
    assert_eq!(reads, vec![(0x1000, 256), (0x2000, 0)]);
    assert_eq!(r, None);
}

#[test]
fn class_block_fits_request() {
    let a = FixedBlockAllocator::new();
    for (size, align) in [(10usize, 16usize), (1, 1), (100, 64), (2000, 1024), (3, 2048)] {
        match a.allocate(size, align) {
            AllocStep::Fallback { size: s, align: al } => {
                assert!(s >= size);
                assert_eq!(s % align, 0);
                assert_eq!(s, al);
            }
            other => panic!("unexpected {:?}", other),
        }
    }
}
