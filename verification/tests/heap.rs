use kernel_core::memory::heap_allocator::{BumpAllocator, HeapAllocator, NodePointer, NODE_SIZE_ALIGNED};
use kernel_core::util::align_up;

#[test]
fn align_up_rounds_to_the_next_multiple() {
    assert_eq!(align_up(0, 16), 0);
    assert_eq!(align_up(1, 16), 16);
    assert_eq!(align_up(16, 16), 16);
    assert_eq!(align_up(17, 16), 32);
    assert_eq!(align_up(0x10_2345, 4096), 0x10_3000);
    assert_eq!(align_up(5, 1), 5);
}

#[test]
fn heap_without_region_has_no_room() {
    let mut heap = HeapAllocator::new();
    assert_eq!(heap.allocate(1), None);
    assert!(!heap.is_allocated(0x1000));
}

#[test]
fn allocation_is_cut_from_the_end_of_the_free_block() {
    let mut heap = HeapAllocator::new();
    heap.init(0x1000, 0x1000);
    // 100 bytes take 112 bytes of payload behind a header of 32 bytes.
    assert_eq!(heap.allocate(100), Some(0x2000 - 112));
    assert!(heap.is_allocated(0x2000 - 112));
    assert_eq!(heap.allocate(16), Some(0x2000 - 112 - 32 - 16));
    assert!(!heap.is_allocated(0x1000 + NODE_SIZE_ALIGNED));
}

#[test]
fn freed_block_is_used_again_for_the_same_size() {
    let size = 0x1000;
    let mut heap = HeapAllocator::new();
    heap.init(0x10000, size);
    let first = heap.allocate(size / 2).unwrap();
    assert!(first >= 0x10000 + NODE_SIZE_ALIGNED && first + size / 2 <= 0x10000 + size);
    heap.deallocate(first);
    assert!(!heap.is_allocated(first));
    let second = heap.allocate(size / 2).unwrap();
    assert_eq!(second, first);
    assert!(heap.is_allocated(second));
}

#[test]
fn exhausted_heap_refuses_and_keeps_its_blocks() {
    let mut heap = HeapAllocator::new();
    heap.init(0x4000, 256);
    // 256 bytes: a header of 32 and 224 bytes of payload. Blocks of 16 bytes
    // take 48 bytes each with their header.
    let mut blocks = Vec::new();
    while let Some(ptr) = heap.allocate(16) {
        assert!(ptr >= 0x4000 + 32 && ptr + 16 <= 0x4000 + 256);
        blocks.push(ptr);
    }
    assert_eq!(blocks, vec![0x40f0, 0x40c0, 0x4090, 0x4060, 0x4020]);
    assert_eq!(heap.allocate(16), None);
    assert_eq!(heap.allocate(1), None);
    for ptr in &blocks {
        assert!(heap.is_allocated(*ptr));
    }
    heap.deallocate(blocks[2]);
    assert_eq!(heap.allocate(17), None);
    assert_eq!(heap.allocate(16), Some(blocks[2]));
}

#[test]
fn freed_blocks_are_not_merged() {
    let mut heap = HeapAllocator::new();
    heap.init(0x4000, 256);
    let a = heap.allocate(96).unwrap();
    let b = heap.allocate(64).unwrap();
    assert_eq!((a, b), (0x40a0, 0x4040));
    heap.deallocate(a);
    heap.deallocate(b);
    // 0x4040..0x4100 is free in two blocks: 160 bytes do not fit.
    assert_eq!(heap.allocate(160), None);
    // The head of the list is the block freed last.
    assert_eq!(heap.allocate(64), Some(b));
    assert_eq!(heap.allocate(96), Some(a));
}

#[test]
fn too_large_requests_fail() {
    let mut heap = HeapAllocator::new();
    heap.init(0x4000, 256);
    assert_eq!(heap.allocate(u64::MAX), None);
    assert_eq!(heap.allocate(225), None);
    assert_eq!(heap.allocate(224), Some(0x4020));
}

#[test]
fn node_pointer_gives_its_address() {
    assert_eq!(NodePointer(0x1234).addr(), 0x1234);
}

#[test]
fn bump_allocator_hands_out_rising_addresses() {
    let mut heap = BumpAllocator::new(0x1001, 0x1100);
    assert_eq!(heap.allocate(8, 16), Some(0x1010));
    assert_eq!(heap.allocate(1, 1), Some(0x1018));
    assert_eq!(heap.allocate(0xe7, 1), Some(0x1019));
    assert_eq!(heap.allocate(1, 1), None);
    heap.deallocate(0x1010);
    assert_eq!(heap.allocate(1, 1), None);
    let mut heap = BumpAllocator::new(0x1000, 0x1100);
    assert_eq!(heap.allocate(0x101, 1), None);
    assert_eq!(heap.allocate(u64::MAX, 1), None);
    assert_eq!(heap.allocate(0x100, 4096), Some(0x1000));
}

#[test]
fn payloads_start_at_multiples_of_sixteen() {
    let mut heap = HeapAllocator::new();
    heap.init(0x8000, 0x400);
    for size in [1, 15, 16, 17, 40, 100] {
        let ptr = heap.allocate(size).unwrap();
        assert_eq!(ptr % 16, 0);
    }
    let ptr = heap.allocate(3).unwrap();
    heap.deallocate(ptr);
    assert_eq!(heap.allocate(16), Some(ptr));
}
