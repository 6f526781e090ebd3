use slotgate::ports::port_range_allocator::PortRangeAllocator;

#[test]
fn consecutive_slot_ranges_never_overlap() {
    let allocator = PortRangeAllocator::new(30000, 100);
    let slot_zero = allocator.range_for_slot(0);
    let slot_one = allocator.range_for_slot(1);
    assert!(slot_zero.end() < slot_one.base);
}

#[test]
fn many_slots_across_a_full_max_parallel_span_are_pairwise_disjoint() {
    let allocator = PortRangeAllocator::new(30000, 50);
    let max_parallel = 10;
    let ranges: Vec<_> = (0..max_parallel)
        .map(|slot| allocator.range_for_slot(slot))
        .collect();
    for i in 0..ranges.len() {
        for j in (i + 1)..ranges.len() {
            let a = &ranges[i];
            let b = &ranges[j];
            let disjoint = a.end() < b.base || b.end() < a.base;
            assert!(disjoint, "ranges for slot {i} and slot {j} overlap");
        }
    }
}

#[test]
fn range_end_is_base_plus_count_minus_one() {
    let allocator = PortRangeAllocator::new(30000, 100);
    let range = allocator.range_for_slot(0);
    assert_eq!(range.end(), 30099);
}

#[test]
fn range_for_slot_advances_by_range_size_per_slot() {
    let allocator = PortRangeAllocator::new(30000, 100);
    let slot_zero = allocator.range_for_slot(0);
    let slot_one = allocator.range_for_slot(1);
    let slot_two = allocator.range_for_slot(2);
    assert_eq!(slot_zero.base, 30000);
    assert_eq!(slot_one.base, 30100);
    assert_eq!(slot_two.base, 30200);
}

#[test]
fn range_for_slot_count_matches_configured_range_size() {
    let allocator = PortRangeAllocator::new(30000, 100);
    let range = allocator.range_for_slot(0);
    assert_eq!(range.count, 100);
}

#[test]
fn range_for_slot_does_not_overflow_on_large_slot_index() {
    let allocator = PortRangeAllocator::new(60000, 100);
    let range = allocator.range_for_slot(1000);
    assert_eq!(range.base, u16::MAX);
}

#[test]
fn range_for_slot_zero_starts_at_base_port() {
    let allocator = PortRangeAllocator::new(30000, 100);
    let range = allocator.range_for_slot(0);
    assert_eq!(range.base, 30000);
}

#[test]
fn range_for_slot_of_a_huge_index_stays_at_the_top_port() {
    let allocator = PortRangeAllocator::new(1, 2);
    let range = allocator.range_for_slot(usize::MAX / 4);
    assert_eq!(range.base, u16::MAX);
    assert_eq!(range.count, 2);
}

#[test]
fn the_last_slot_that_fits_ends_on_the_top_port() {
    let allocator = PortRangeAllocator::new(65_335, 100);
    let first = allocator.range_for_slot(0);
    let second = allocator.range_for_slot(1);
    assert_eq!(first.end(), 65_434);
    assert_eq!(second.base, 65_435);
    assert_eq!(second.end(), 65_534);
}
