//! Sharing of device buffers.
use uzu_engine::backends::common::allocator::{
    AllocationLimits, AllocationStep, AllocationType, Allocator, BufferState, RangeAllocationType,
    allocation_alignment, range_type,
};

const LIMITS: AllocationLimits =
    AllocationLimits { min_alignment: 16, max_alignment: 256, granularity: 1024 };

#[test]
fn alignment_is_the_next_power_of_two_within_limits() {
    assert_eq!(allocation_alignment(1, &LIMITS), 16);
    assert_eq!(allocation_alignment(17, &LIMITS), 32);
    assert_eq!(allocation_alignment(64, &LIMITS), 64);
    assert_eq!(allocation_alignment(4000, &LIMITS), 256);
}

#[test]
fn memory_of_the_host_is_not_reused_at_will() {
    let mut allocator = Allocator::new(1, LIMITS);
    let once = allocator.create_pool(false);
    let again = allocator.create_pool(true);
    assert_eq!((once.pool_number, again.pool_number), (0, 1));
    let kind = |pool, cpu_available| range_type(AllocationType::Pooled { pool, cpu_available });
    assert_eq!(
        kind(once, false),
        RangeAllocationType::Pooled { pool: 0, can_alias_before: true, can_alias_after: true }
    );
    assert_eq!(
        kind(once, true),
        RangeAllocationType::Pooled { pool: 0, can_alias_before: false, can_alias_after: true }
    );
    assert_eq!(
        kind(again, true),
        RangeAllocationType::Pooled { pool: 1, can_alias_before: false, can_alias_after: false }
    );
    assert_eq!(range_type(AllocationType::Global), RangeAllocationType::Global);
}

#[test]
fn buffers_are_asked_from_the_fullest_on() {
    let mut allocator = Allocator::new(1, LIMITS);
    let first = allocator.request(100, AllocationType::Global);
    assert_eq!(allocator.step(&first, 0), AllocationStep::Create { size: 1024 });
    let mut one = allocator.allocate_new(&first, 10, 1024, 0, 924);
    assert_eq!(one.size(), 100);
    let second = allocator.request(2000, AllocationType::Global);
    assert_eq!(second.generation, 1);
    assert_eq!(allocator.step(&second, 0), AllocationStep::Ask { buffer: 10 });
    assert_eq!(allocator.step(&second, 1), AllocationStep::Create { size: 2000 });
    let two = allocator.allocate_new(&second, 11, 2000, 0, 0);
    assert_eq!(allocator.peak_memory_usage(), 3024);
    // The full buffer now stands first.
    let third = allocator.request(50, AllocationType::Global);
    assert_eq!(allocator.step(&third, 0), AllocationStep::Ask { buffer: 11 });
    assert_eq!(allocator.step(&third, 1), AllocationStep::Ask { buffer: 10 });
    let three = allocator.allocate_existing(&third, 1, 128, 874);
    assert_eq!((three.buffer, three.start, three.end), (10, 128, 178));

    let before = one.identity();
    assert_ne!(before, two.identity());
    one.mark_written();
    assert_ne!(before, one.identity());

    // A buffer that gains room moves behind, and an empty one is given up.
    allocator.free(11, BufferState { available: 1900, is_empty: false });
    assert_eq!(allocator.step(&third, 0), AllocationStep::Ask { buffer: 10 });
    allocator.free(10, BufferState { available: 1024, is_empty: true });
    assert_eq!(allocator.step(&third, 0), AllocationStep::Ask { buffer: 11 });
    assert_eq!(allocator.peak_memory_usage(), 3024);
}

#[test]
fn a_pool_is_freed_in_all_buffers() {
    let mut allocator = Allocator::new(1, LIMITS);
    for (id, available) in [(1, 10), (2, 20), (3, 30)] {
        let request = allocator.request(1, AllocationType::Global);
        allocator.allocate_new(&request, id, 1024, 0, available);
    }
    allocator.free_pool(&[
        BufferState { available: 50, is_empty: false },
        BufferState { available: 1024, is_empty: true },
        BufferState { available: 30, is_empty: false },
    ]);
    let request = allocator.request(1, AllocationType::Global);
    assert_eq!(allocator.step(&request, 0), AllocationStep::Ask { buffer: 3 });
    assert_eq!(allocator.step(&request, 1), AllocationStep::Ask { buffer: 1 });
    assert_eq!(allocator.step(&request, 2), AllocationStep::Create { size: 1024 });
}
