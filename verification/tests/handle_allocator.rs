use dwg::handle_allocator::HandleAllocator;

#[test]
fn fresh_allocator_returns_monotonic_handles_starting_at_1() {
    let mut ha = HandleAllocator::new();
    assert_eq!(ha.allocate(), 1);
    assert_eq!(ha.allocate(), 2);
    assert_eq!(ha.allocate(), 3);
    assert_eq!(ha.allocated_count(), 3);
}

#[test]
fn reserve_then_allocate_skips_reserved_values() {
    let mut ha = HandleAllocator::new();
    ha.reserve(1);
    ha.reserve(2);
    assert_eq!(ha.allocate(), 3);
    assert_eq!(ha.allocate(), 4);
}

#[test]
fn reserve_range_in_the_middle_does_not_confuse_allocator() {
    let mut ha = HandleAllocator::new();
    ha.reserve(5);
    ha.reserve(6);
    ha.reserve(7);
    let seen: Vec<u64> = (0..8).map(|_| ha.allocate()).collect();
    assert_eq!(seen, vec![1, 2, 3, 4, 8, 9, 10, 11]);
    assert!(ha.contains(5));
    assert!(ha.contains(6));
    assert!(ha.contains(7));
}

#[test]
fn starting_at_lets_caller_seed_the_counter() {
    let mut ha = HandleAllocator::starting_at(0x100);
    assert_eq!(ha.allocate(), 0x100);
    assert_eq!(ha.allocate(), 0x101);
}

#[test]
fn starting_at_zero_is_clamped_to_one() {
    let mut ha = HandleAllocator::starting_at(0);
    assert_eq!(ha.allocate(), 1, "handle 0 is not legal in DWG");
}

#[test]
fn reserve_is_idempotent() {
    let mut ha = HandleAllocator::new();
    ha.reserve(42);
    ha.reserve(42);
    ha.reserve(42);
    assert_eq!(ha.allocated_count(), 1);
    assert!(ha.contains(42));
}

#[test]
fn allocated_count_matches_actual_unique_handles() {
    let mut ha = HandleAllocator::new();
    ha.reserve(10);
    ha.reserve(20);
    let a = ha.allocate();
    let b = ha.allocate();
    assert!(a != b);
    assert_eq!(ha.allocated_count(), 4);
}

#[test]
fn next_candidate_follows_allocation_and_default_starts_at_zero() {
    let mut ha = HandleAllocator::new();
    assert_eq!(ha.next_candidate(), 1);
    ha.allocate();
    assert_eq!(ha.next_candidate(), 2);
    let d = HandleAllocator::default();
    assert_eq!(d.allocated_count(), 0);
}

#[test]
fn taken_count_grows_by_one_per_new_handle() {
    let mut a = HandleAllocator::new();
    a.reserve(5);
    assert_eq!(a.allocated_count(), 1);
    a.reserve(5);
    assert_eq!(a.allocated_count(), 1);
    let h = a.allocate();
    assert_eq!(h, 1);
    assert_eq!(a.allocated_count(), 2);
}
