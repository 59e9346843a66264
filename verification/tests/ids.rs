use drawdb::ids::{next_after, next_id, next_ids, IdAllocator};

#[test]
fn next_after_keeps_a_proposal_above_the_mark() {
    assert_eq!(next_after(10, 25), 25);
}

#[test]
fn next_after_steps_past_the_mark_when_the_proposal_is_not_above_it() {
    assert_eq!(next_after(10, 10), 11);
    assert_eq!(next_after(10, 3), 11);
    assert_eq!(next_after(10, -7), 11);
}

#[test]
fn ids_of_one_batch_are_pairwise_distinct() {
    let mut allocator = IdAllocator::new(1, 1);
    let ids = next_ids(&mut allocator, 5000);
    assert_eq!(ids.len(), 5000);
    let mut sorted = ids.clone();
    sorted.sort();
    sorted.dedup();
    assert_eq!(sorted.len(), 5000);
}

#[test]
fn ids_grow_in_generation_order() {
    let mut allocator = IdAllocator::new(1, 1);
    let first = next_id(&mut allocator);
    let batch = next_ids(&mut allocator, 3);
    let last = next_id(&mut allocator);
    let mut numbers: Vec<u64> = vec![first.parse().unwrap()];
    for id in &batch {
        numbers.push(id.parse().unwrap());
    }
    numbers.push(last.parse().unwrap());
    for pair in numbers.windows(2) {
        assert!(pair[0] < pair[1]);
    }
}

#[test]
fn an_empty_batch_is_empty() {
    let mut allocator = IdAllocator::new(1, 1);
    assert!(next_ids(&mut allocator, 0).is_empty());
}

#[test]
fn a_new_allocator_has_room() {
    let allocator = IdAllocator::new(1, 1);
    assert_eq!(allocator.remaining(), 1u64 << 63);
}

#[test]
fn an_allocator_keeps_its_machine_and_node() {
    let mut allocator = IdAllocator::new(7, 3);
    assert_eq!(allocator.machine_id(), 7);
    assert_eq!(allocator.node_id(), 3);
    next_id(&mut allocator);
    next_ids(&mut allocator, 2);
    assert_eq!(allocator.machine_id(), 7);
    assert_eq!(allocator.node_id(), 3);
    let other = IdAllocator::new(1, 1);
    assert_eq!(other.machine_id(), 1);
    assert_eq!(other.node_id(), 1);
}
