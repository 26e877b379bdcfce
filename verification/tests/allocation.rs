use minivisor::memory::{
    allocate_dma_pages, allocate_pages, free_pages, setup_memory, try_allocate_pages, SetupError,
};
use minivisor::memory_allocator::{MemoryAllocator, MemoryEntry, MemoryError};

fn with_ram(start: usize, size: usize) -> MemoryAllocator {
    let mut allocator = MemoryAllocator::new();
    allocator.free(start, size).unwrap();
    allocator
}

#[test]
fn blocks_do_not_overlap_and_are_aligned() {
    let mut allocator = with_ram(0x1100, 0x1_0000);
    let first = allocator.allocate(0x300, 12).unwrap();
    let second = allocator.allocate(0x300, 8).unwrap();
    assert_eq!(first % 0x1000, 0);
    assert_eq!(second % 0x100, 0);
    assert!(first + 0x300 <= second || second + 0x300 <= first);
    assert_eq!(allocator.free_size, 0x1_0000 - 0x600);
}

#[test]
fn freeing_restores_the_free_ranges() {
    let mut allocator = with_ram(0x1000, 0x8000);
    let before = allocator.free_ranges();
    let block = allocator.allocate(0x1000, 12).unwrap();
    assert_ne!(allocator.free_ranges(), before);
    allocator.free(block, 0x1000).unwrap();
    assert_eq!(allocator.free_ranges(), before);
    assert_eq!(before, vec![(0x1000, 0x8FFF)]);
}

#[test]
fn free_memory_cannot_be_freed_again() {
    let mut allocator = with_ram(0x1000, 0x8000);
    assert!(matches!(
        allocator.free(0x2000, 0x1000),
        Err(MemoryError::InvalidRequest)
    ));
    assert_eq!(allocator.free_size, 0x8000);
}

#[test]
fn allocation_errors() {
    let mut allocator = with_ram(0x1000, 0x1000);
    assert!(matches!(allocator.allocate(0, 0), Err(MemoryError::InvalidRequest)));
    assert!(matches!(allocator.allocate(0x2000, 0), Err(MemoryError::NoMemory)));
    let mut empty = MemoryAllocator::new();
    assert!(empty.allocate(1, 0).is_err());
}

#[test]
fn allocation_below_a_limit() {
    let mut allocator = with_ram(0x1000, 0x8000);
    let block = allocator.allocate_below(0x1000, 12, 0x4000).unwrap();
    assert!(block + 0x1000 <= 0x4000);
    assert!(allocator.allocate_below(0x4000, 12, 0x3000).is_err());
}

#[test]
fn reservation_takes_its_range() {
    let mut allocator = with_ram(0x1000, 0x8000);
    allocator.reserve_memory(0x3000, 0x1000, 0).unwrap();
    assert_eq!(allocator.free_ranges(), vec![(0x1000, 0x2FFF), (0x4000, 0x8FFF)]);
    assert!(allocator.reserve_memory(0x3000, 0x1000, 0).is_err());
}

#[test]
fn memory_is_set_up_from_the_banks() {
    let mut allocator = MemoryAllocator::new();
    let banks = [
        (0x0, 0x100_0000),
        (0x4000_0000, 0),
        (0xFFF0_0000, 0x20_0000),
        (0x1_0000_0000, 0x100_0000),
    ];
    let segments = [(0x20_0000, 0x1_0000)];
    setup_memory(&mut allocator, &banks, 0x10_0000, 0x1000, &segments, 0x30_0000).unwrap();
    assert_eq!(
        allocator.free_ranges(),
        vec![
            (0x0, 0xF_FFFF),
            (0x10_1000, 0x1F_FFFF),
            (0x21_0000, 0x2E_FFFF),
            (0x30_0000, 0xFF_FFFF),
            (0xFFF0_0000, 0xFFFF_FFFF),
        ]
    );
}

#[test]
fn memory_setup_errors() {
    let ram = [(0x0u64, 0x100_0000u64)];
    let mut allocator = MemoryAllocator::new();
    assert_eq!(
        setup_memory(&mut allocator, &ram, 0x200_0000, 0x1000, &[], 0x30_0000),
        Err(SetupError::Dtb)
    );
    let mut allocator = MemoryAllocator::new();
    assert_eq!(
        setup_memory(&mut allocator, &ram, 0x1000, 0x1000, &[(0x200_0000, 1)], 0x30_0000),
        Err(SetupError::Segment)
    );
    let mut allocator = MemoryAllocator::new();
    assert_eq!(
        setup_memory(&mut allocator, &ram, 0x1000, 0x1000, &[], 0x300_0000),
        Err(SetupError::Stack)
    );
    let mut allocator = MemoryAllocator::new();
    let twice = [(0x0u64, 0x1000u64), (0x0u64, 0x1000u64)];
    assert_eq!(
        setup_memory(&mut allocator, &twice, 0x0, 0x10, &[], 0x1000),
        Err(SetupError::Ram)
    );
}

#[test]
fn pages_come_and_go() {
    let mut allocator = with_ram(0x1000, 0x10_0000);
    let pages = allocate_pages(&mut allocator, 4, 12).unwrap();
    assert_eq!(pages % 0x1000, 0);
    assert_eq!(allocator.free_size, 0x10_0000 - 0x4000);
    free_pages(&mut allocator, pages, 4);
    assert_eq!(allocator.free_size, 0x10_0000);
    assert_eq!(try_allocate_pages(&mut allocator, 0x1000, 12), None);
    assert!(try_allocate_pages(&mut allocator, 1, 12).is_some());
    let dma = allocate_dma_pages(&mut allocator, 1, 12).unwrap();
    assert!(dma < 0x1_0000_0000);
}

#[test]
fn nothing_is_below_the_first_address() {
    let mut allocator = with_ram(0, 0x1000);
    assert!(matches!(allocator.allocate_below(1, 0, 0), Err(MemoryError::NoMemory)));
    assert_eq!(allocator.free_size, 0x1000);
    assert_eq!(allocator.allocate_below(1, 0, 1).ok(), Some(0));
    assert!(matches!(allocator.allocate_below(1, 0, 1), Err(MemoryError::NoMemory)));
    assert_eq!(allocator.free_size, 0xFFF);
}

#[test]
fn freeing_beyond_a_free_range_adds_the_rest() {
    let mut allocator = with_ram(0x1000, 0x1000);
    allocator.free(0x4000, 0x1000).unwrap();
    allocator.free(0x4FFF, 0x801).unwrap();
    assert_eq!(allocator.free_ranges(), vec![(0x1000, 0x1FFF), (0x4000, 0x57FF)]);
    allocator.free(0x8000, 0x1000).unwrap();
    allocator.free(0x5000, 0x1000).unwrap();
    assert_eq!(
        allocator.free_ranges(),
        vec![(0x1000, 0x1FFF), (0x4000, 0x5FFF), (0x8000, 0x8FFF)]
    );
    assert_eq!(allocator.free_size, 0x4000);
}

#[test]
fn entry_can_reach_the_last_address() {
    let mut entry = MemoryEntry::new();
    entry.set_range(1, usize::MAX);
    assert_eq!(entry.get_size(), usize::MAX);
    entry.set_range(usize::MAX, usize::MAX);
    assert_eq!(entry.get_size(), 1);
}
