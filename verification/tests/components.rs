use fast_counter::ConcurrentCounter;
use fast_counter::assigner::{ThreadIdentity, ThreadShardAssigner};
use fast_counter::safe_getters::SafeGetters;
use fast_counter::utils::{make_new_padded_counter, CachePadded};

#[test]
fn new_rounds_up_to_power_of_two() {
    assert_eq!(ConcurrentCounter::new(0).shard_count(), 1);
    assert_eq!(ConcurrentCounter::new(1).shard_count(), 1);
    assert_eq!(ConcurrentCounter::new(2).shard_count(), 2);
    assert_eq!(ConcurrentCounter::new(3).shard_count(), 4);
    assert_eq!(ConcurrentCounter::new(10).shard_count(), 16);
    assert_eq!(ConcurrentCounter::new(16).shard_count(), 16);
    assert_eq!(ConcurrentCounter::new(17).shard_count(), 32);
    assert_eq!(ConcurrentCounter::new(1 << 20).shard_count(), 1 << 20);
}

#[test]
fn identities_are_unique_and_increasing() {
    let mut service = ThreadShardAssigner::new();
    let a = ThreadIdentity::obtain(&mut service);
    let b = ThreadIdentity::obtain(&mut service);
    let c = ThreadIdentity::obtain(&mut service);
    assert_eq!(a.id(), 1);
    assert_eq!(b.id(), 2);
    assert_eq!(c.id(), 3);
}

#[test]
fn padded_slot_starts_at_zero() {
    let slot = make_new_padded_counter();
    assert_eq!(slot.value, 0);
    let wrapped: CachePadded<isize> = CachePadded::new(-7);
    assert_eq!(wrapped.value, -7);
}

#[test]
fn safely_get_reads_the_element() {
    let values: Vec<isize> = vec![3, 1, 4, 1, 5];
    assert_eq!(*values.safely_get(0), 3);
    assert_eq!(*values.safely_get(4), 5);
}
