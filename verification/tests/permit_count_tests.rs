use concurrency_project::semaphore::permits::PermitCount;

#[test]
fn permit_count_starts_with_what_it_was_given() {
    assert_eq!(PermitCount::new(0).available(), 0);
    assert_eq!(PermitCount::new(3).available(), 3);
    assert_eq!(PermitCount::new(usize::MAX).available(), usize::MAX);
}

#[test]
fn permit_count_acquire_takes_one() {
    let mut count = PermitCount::new(3);
    assert!(!count.is_exhausted());
    assert!(count.try_acquire());
    assert_eq!(count.available(), 2);
}

#[test]
fn permit_count_lets_in_as_many_as_it_has() {
    let mut count = PermitCount::new(3);
    assert!(count.try_acquire());
    assert!(count.try_acquire());
    assert!(count.try_acquire());
    assert!(count.is_exhausted());
    assert!(!count.try_acquire());
    assert_eq!(count.available(), 0);
}

#[test]
fn permit_count_zero_blocks_until_a_release() {
    let mut count = PermitCount::new(0);
    assert!(count.is_exhausted());
    assert!(!count.try_acquire());
    assert!(!count.try_acquire());
    assert_eq!(count.available(), 0);
    count.release();
    assert!(!count.is_exhausted());
    assert!(count.try_acquire());
    assert!(!count.try_acquire());
}

#[test]
fn permit_count_release_adds_one() {
    let mut count = PermitCount::new(1);
    count.release();
    assert_eq!(count.available(), 2);
}

#[test]
fn permit_count_release_goes_beyond_the_start() {
    let mut count = PermitCount::new(1);
    count.release();
    count.release();
    assert_eq!(count.available(), 3);
    assert!(count.try_acquire());
    assert!(count.try_acquire());
    assert!(count.try_acquire());
    assert!(!count.try_acquire());
}

#[test]
fn permit_count_releases_accumulate() {
    for releases in 0..6usize {
        let mut count = PermitCount::new(0);
        for _ in 0..releases {
            count.release();
        }
        assert_eq!(count.available(), releases);
        for _ in 0..releases {
            assert!(count.try_acquire());
        }
        assert!(!count.try_acquire());
    }
}

#[test]
fn permit_count_release_stops_at_the_largest_value() {
    let mut count = PermitCount::new(usize::MAX - 1);
    count.release();
    assert_eq!(count.available(), usize::MAX);
    count.release();
    assert_eq!(count.available(), usize::MAX);
    assert!(count.try_acquire());
    assert_eq!(count.available(), usize::MAX - 1);
}

#[test]
fn permit_count_bounds_the_callers_inside() {
    // Five callers take turns around three permits; each one that is inside leaves on its next turn.
    let capacity = 3;
    let mut count = PermitCount::new(capacity);
    let mut inside = vec![false; 5];
    let mut most = 0;
    let mut seed: u32 = 12345;
    for _ in 0..200usize {
        seed = seed.wrapping_mul(1103515245).wrapping_add(12345);
        let who = (seed >> 16) as usize % 5;
        if inside[who] {
            inside[who] = false;
            count.release();
        } else if count.try_acquire() {
            inside[who] = true;
        }
        let holders = inside.iter().filter(|held| **held).count();
        assert!(holders <= capacity);
        assert_eq!(holders + count.available(), capacity);
        most = most.max(holders);
    }
    assert_eq!(most, capacity);
    for who in 0..5 {
        if inside[who] {
            inside[who] = false;
            count.release();
        }
    }
    assert_eq!(count.available(), capacity);
}

#[test]
fn permit_count_zero_admits_nobody_without_a_release() {
    let mut count = PermitCount::new(0);
    let mut inside = vec![false; 4];
    for turn in 0..40usize {
        let who = turn % 4;
        if inside[who] {
            inside[who] = false;
            count.release();
        } else if count.try_acquire() {
            inside[who] = true;
        }
        assert!(inside.iter().all(|held| !*held));
    }
    assert_eq!(count.available(), 0);
}
