use fast_counter::ConcurrentCounter;
use fast_counter::assigner::{ThreadIdentity, ThreadShardAssigner};

#[test]
fn counter_basic_test() {
    let mut service = ThreadShardAssigner::new();
    let who = ThreadIdentity::obtain(&mut service);
    let mut counter = ConcurrentCounter::new(1);
    counter.add(1, &who);
    assert_eq!(counter.sum(), 1);
}

#[test]
fn counter_increment_multiple_times() {
    let mut service = ThreadShardAssigner::new();
    let who = ThreadIdentity::obtain(&mut service);
    let mut counter = ConcurrentCounter::new(1);
    counter.add(1, &who);
    counter.add(1, &who);
    counter.add(1, &who);
    assert_eq!(counter.sum(), 3);
}

#[test]
fn debug_works_as_expected() {
    const WRITE_COUNT: isize = 1_000_000;
    const THREAD_COUNT: isize = 8;
    let mut service = ThreadShardAssigner::new();
    let who = ThreadIdentity::obtain(&mut service);
    let mut counter = ConcurrentCounter::new(THREAD_COUNT as usize);

    for _ in 0..WRITE_COUNT {
        counter.add(1, &who);
    }

    assert_eq!(counter.sum(), WRITE_COUNT);

    assert_eq!(
        format!("Counter is: {}", counter.describe()),
        "Counter is: ConcurrentCounter { sum: 1000000, cells: 8 }"
    )
}

#[test]
fn describe_fresh_counter() {
    let counter = ConcurrentCounter::new(1);
    assert_eq!(counter.describe(), "ConcurrentCounter { sum: 0, cells: 1 }");
}

#[test]
fn describe_negative_total() {
    let mut service = ThreadShardAssigner::new();
    let who = ThreadIdentity::obtain(&mut service);
    let mut counter = ConcurrentCounter::new(2);
    counter.add(-5, &who);
    assert_eq!(counter.describe(), "ConcurrentCounter { sum: -5, cells: 2 }");
}

#[test]
fn add_then_subtract_cancels() {
    let mut service = ThreadShardAssigner::new();
    let who = ThreadIdentity::obtain(&mut service);
    let mut counter = ConcurrentCounter::new(1);
    counter.add(1, &who);
    counter.add(-1, &who);
    assert_eq!(counter.sum(), 0);
}

#[test]
fn interleaved_writers_lose_no_update() {
    const WRITE_COUNT: isize = 100_000;
    let mut service = ThreadShardAssigner::new();
    let first = ThreadIdentity::obtain(&mut service);
    let second = ThreadIdentity::obtain(&mut service);
    let mut counter = ConcurrentCounter::new(2);

    for _ in 0..WRITE_COUNT {
        counter.add(1, &first);
        counter.add(1, &second);
    }

    assert_eq!(counter.sum(), 2 * WRITE_COUNT);
}

#[test]
fn sixteen_writers_one_shard_each() {
    const WRITE_COUNT: isize = 1_000_000;
    const THREAD_COUNT: usize = 16;
    let mut service = ThreadShardAssigner::new();
    let mut identities = Vec::new();
    for _ in 0..THREAD_COUNT {
        identities.push(ThreadIdentity::obtain(&mut service));
    }
    let mut counter = ConcurrentCounter::new(THREAD_COUNT);
    assert_eq!(counter.shard_count(), THREAD_COUNT);

    for who in identities.iter() {
        for _ in 0..WRITE_COUNT {
            counter.add(1, who);
        }
    }

    assert_eq!(counter.sum(), THREAD_COUNT as isize * WRITE_COUNT);
    for idx in 0..THREAD_COUNT {
        assert_eq!(counter.shard_value(idx), WRITE_COUNT);
    }
}

#[test]
fn order_of_adds_does_not_matter() {
    let deltas: [isize; 7] = [5, -3, 11, 7, -20, 1, 4];
    let mut service = ThreadShardAssigner::new();
    let first = ThreadIdentity::obtain(&mut service);
    let second = ThreadIdentity::obtain(&mut service);

    let mut forward = ConcurrentCounter::new(4);
    for (k, d) in deltas.iter().enumerate() {
        if k % 2 == 0 {
            forward.add(*d, &first);
        } else {
            forward.add(*d, &second);
        }
    }

    let mut backward = ConcurrentCounter::new(4);
    for (k, d) in deltas.iter().enumerate().rev() {
        if k % 2 == 0 {
            backward.add(*d, &first);
        } else {
            backward.add(*d, &second);
        }
    }

    assert_eq!(forward.sum(), backward.sum());
    assert_eq!(forward.sum(), 5);
}

#[test]
fn unrolled_sum_matches_naive_for_ragged_counts() {
    for shards in 1..=20usize {
        let mut service = ThreadShardAssigner::new();
        let mut counter = ConcurrentCounter::new(shards);
        let n = counter.shard_count();
        for k in 0..3 * n {
            let who = ThreadIdentity::obtain(&mut service);
            counter.add((k as isize % 13) - 6, &who);
        }
        let mut naive: isize = 0;
        for idx in 0..n {
            naive = naive.wrapping_add(counter.shard_value(idx));
        }
        assert_eq!(counter.sum(), naive);
    }
}

#[test]
fn sum_wraps_like_the_cells() {
    let mut service = ThreadShardAssigner::new();
    let who = ThreadIdentity::obtain(&mut service);
    let mut counter = ConcurrentCounter::new(1);
    counter.add(isize::MAX, &who);
    counter.add(1, &who);
    assert_eq!(counter.sum(), isize::MIN);
    counter.add(-1, &who);
    assert_eq!(counter.sum(), isize::MAX);
}
