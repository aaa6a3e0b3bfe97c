use concurrency_project::semaphore::binary_semaphore::{BinaryFlag, BinarySemaphore};

#[test]
fn binary_flag_starts_available() {
    let flag = BinaryFlag::new();
    assert!(flag.is_available());
    assert!(!flag.is_locked());
}

#[test]
fn binary_flag_locked_starts_unavailable() {
    let mut flag = BinaryFlag::locked();
    assert!(!flag.is_available());
    assert!(flag.is_locked());
    assert!(!flag.try_acquire());
}

#[test]
fn binary_flag_acquire_takes_the_permit() {
    let mut flag = BinaryFlag::new();
    assert!(flag.try_acquire());
    assert!(!flag.is_available());
    assert!(flag.is_locked());
}

#[test]
fn binary_flag_second_acquire_has_to_wait() {
    let mut flag = BinaryFlag::new();
    assert!(flag.try_acquire());
    assert!(!flag.try_acquire());
    assert!(!flag.try_acquire());
    assert!(!flag.is_available());
}

#[test]
fn binary_flag_release_unlocks() {
    let mut flag = BinaryFlag::new();
    assert!(flag.try_acquire());
    flag.release();
    assert!(flag.is_available());
    assert!(flag.try_acquire());
}

#[test]
fn binary_flag_release_without_acquire_is_allowed() {
    let mut flag = BinaryFlag::new();
    flag.release();
    assert!(flag.is_available());
}

#[test]
fn binary_flag_double_release_leaves_one_permit() {
    let mut once = BinaryFlag::locked();
    once.release();
    let mut twice = BinaryFlag::locked();
    twice.release();
    twice.release();
    assert_eq!(once.is_available(), twice.is_available());
    assert!(twice.try_acquire());
    assert!(!twice.try_acquire());
}

#[test]
fn binary_flag_keeps_callers_apart() {
    // Three callers take turns asking; each one that is inside leaves on its next turn.
    let mut flag = BinaryFlag::new();
    let mut inside = vec![false, false, false];
    let mut entries = 0;
    for turn in 0..30 {
        let who = (turn * 7 + turn / 3) % 3;
        if inside[who] {
            inside[who] = false;
            flag.release();
        } else if flag.try_acquire() {
            inside[who] = true;
            entries += 1;
        }
        let holders = inside.iter().filter(|held| **held).count();
        assert!(holders <= 1);
        assert_eq!(flag.is_available(), holders == 0);
    }
    assert!(entries > 1);
    for who in 0..3 {
        if inside[who] {
            inside[who] = false;
            flag.release();
        }
    }
    assert!(flag.is_available());
}

#[test]
fn binary_semaphore_starts_unlocked() {
    let semaphore = BinarySemaphore::new();
    semaphore.acquire();
}

#[test]
fn binary_semaphore_release_lets_the_next_acquire_through() {
    let semaphore = BinarySemaphore::new();
    semaphore.acquire();
    semaphore.release();
    semaphore.acquire();
    semaphore.release();
    semaphore.acquire();
}

#[test]
fn binary_semaphore_release_before_acquire() {
    let semaphore = BinarySemaphore::new();
    semaphore.release();
    semaphore.release();
    semaphore.acquire();
    semaphore.release();
}

#[test]
fn binary_semaphore_is_shared_between_threads() {
    fn shared<T: Send + Sync>(_: &T) {}
    shared(&BinarySemaphore::new());
}
