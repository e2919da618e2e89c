use fast_counter::assigner::ThreadShardAssigner;
use fast_counter::default::ConcurrentCounter;

#[test]
fn default_basic_test() {
    let mut service = ThreadShardAssigner::new();
    let mut cached: usize = 0;
    let mut counter = ConcurrentCounter::new(1);
    counter.add(1, &mut cached, &mut service);
    assert_eq!(counter.sum(), 1);
}

#[test]
fn default_increment_multiple_times() {
    let mut service = ThreadShardAssigner::new();
    let mut cached: usize = 0;
    let mut counter = ConcurrentCounter::new(1);
    counter.add(1, &mut cached, &mut service);
    counter.add(1, &mut cached, &mut service);
    counter.add(1, &mut cached, &mut service);
    assert_eq!(counter.sum(), 3);
}

#[test]
fn lazy_identity_is_cached() {
    let mut service = ThreadShardAssigner::new();
    let counter = ConcurrentCounter::new(4);

    let mut cached: usize = 0;
    let first_call = counter.thread_id(&mut cached, &mut service);
    let second_call = counter.thread_id(&mut cached, &mut service);
    assert_eq!(first_call, 1);
    assert_eq!(second_call, 1);
    assert_eq!(cached, 1);

    let mut other: usize = 0;
    let other_call = counter.thread_id(&mut other, &mut service);
    assert_eq!(other_call, 2);
}

#[test]
fn reset_counter_rewinds_identities() {
    let mut service = ThreadShardAssigner::new();
    let counter = ConcurrentCounter::new(1);

    let mut early: usize = 0;
    counter.thread_id(&mut early, &mut service);
    let mut later: usize = 0;
    counter.thread_id(&mut later, &mut service);
    assert_eq!(later, 2);

    counter.reset_counter(&mut service);
    let mut fresh: usize = 0;
    let id = counter.thread_id(&mut fresh, &mut service);
    assert_eq!(id, 1);
}

#[test]
fn checking_good_distribution() {
    const WRITE_COUNT: isize = 1_000_000;
    const THREAD_COUNT: usize = 16;
    let mut service = ThreadShardAssigner::new();
    let mut counter = ConcurrentCounter::new(THREAD_COUNT);
    counter.reset_counter(&mut service);

    let mut slots: Vec<usize> = vec![0; THREAD_COUNT];
    for slot in slots.iter_mut() {
        for _ in 0..WRITE_COUNT {
            counter.add(1, slot, &mut service);
        }
    }

    assert_eq!(counter.sum(), THREAD_COUNT as isize * WRITE_COUNT);

    for idx in 0..counter.shard_count() {
        assert_eq!(counter.shard_value(idx), WRITE_COUNT);
    }
}

#[test]
fn default_counter_rounds_up_too() {
    assert_eq!(ConcurrentCounter::new(0).shard_count(), 1);
    assert_eq!(ConcurrentCounter::new(5).shard_count(), 8);
    assert_eq!(ConcurrentCounter::new(8).shard_count(), 8);
}
