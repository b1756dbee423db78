use boykernel::allocator::{alloc_step, dealloc_step, BumpAllocator, HEAP_SIZE};

#[test]
fn allocations_within_capacity_are_aligned_and_disjoint() {
    let base: usize = 0x10_0000;
    let mut heap = BumpAllocator::new(base, HEAP_SIZE);
    let requests: [(usize, usize); 4] = [(16, 8), (10, 4), (8, 16), (1, 1)];
    let mut blocks: Vec<(usize, usize)> = Vec::new();
    for &(size, align) in requests.iter() {
        let start = heap.allocate(size, align).expect("request fits");
        assert_eq!((base + start) % align, 0);
        assert!(start + size <= HEAP_SIZE);
        blocks.push((start, size));
    }
    assert_eq!(blocks, vec![(0, 16), (16, 10), (32, 8), (40, 1)]);
    for i in 0..blocks.len() {
        for j in (i + 1)..blocks.len() {
            assert!(blocks[i].0 + blocks[i].1 <= blocks[j].0);
        }
    }
    assert_eq!(heap.cursor(), 41);
}

#[test]
fn alignment_follows_the_base_address() {
    let mut heap = BumpAllocator::new(3, 64);
    assert_eq!(heap.allocate(4, 8), Some(5));
    assert_eq!(heap.cursor(), 9);
}

#[test]
fn alloc_then_dealloc_restores_cursor() {
    let mut heap = BumpAllocator::new(0x2000, 256);
    heap.allocate(24, 8).unwrap();
    let before = heap.cursor();
    let start = heap.allocate(40, 8).unwrap();
    assert_eq!(start, before);
    heap.deallocate(start, 40);
    assert_eq!(heap.cursor(), before);
}

#[test]
fn dealloc_of_older_block_is_leaked() {
    let mut heap = BumpAllocator::new(0x2000, 256);
    let first = heap.allocate(16, 8).unwrap();
    heap.allocate(16, 8).unwrap();
    heap.deallocate(first, 16);
    assert_eq!(heap.cursor(), 32);
}

#[test]
fn oversized_request_returns_none_and_keeps_cursor() {
    let mut heap = BumpAllocator::new(0x2000, 128);
    heap.allocate(100, 1).unwrap();
    assert_eq!(heap.allocate(29, 1), None);
    assert_eq!(heap.cursor(), 100);
    assert_eq!(heap.allocate(28, 1), Some(100));
    assert_eq!(heap.cursor(), 128);
}

#[test]
fn padding_that_overflows_capacity_returns_none() {
    let mut heap = BumpAllocator::new(0x2001, 8);
    assert_eq!(heap.allocate(1, 16), None);
    assert_eq!(heap.cursor(), 0);
}

#[test]
fn zero_alignment_is_refused() {
    assert_eq!(alloc_step(0, 64, 0, 8, 0), None);
}

#[test]
fn alloc_step_gives_start_and_new_cursor() {
    assert_eq!(alloc_step(0x1000, 4096, 5, 10, 4), Some((8, 18)));
    assert_eq!(alloc_step(0x1000, 16, 5, 10, 4), None);
}

#[test]
fn dealloc_step_reclaims_only_topmost() {
    assert_eq!(dealloc_step(48, 32, 16), 32);
    assert_eq!(dealloc_step(48, 16, 16), 48);
    assert_eq!(dealloc_step(48, 64, 16), 48);
}
