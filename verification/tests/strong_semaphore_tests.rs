use concurrency_project::semaphore::strong_semaphore::StrongSemaphore;

#[test]
fn strong_semaphore_grants_its_permits() {
    let semaphore = StrongSemaphore::new(3);
    semaphore.acquire();
    semaphore.acquire();
    semaphore.acquire();
}

#[test]
fn strong_semaphore_acquire_takes_a_permit_that_release_returns() {
    let semaphore = StrongSemaphore::new(1);
    for _ in 0..10 {
        semaphore.acquire();
        semaphore.release();
    }
    semaphore.acquire();
}

#[test]
fn strong_semaphore_zero_init_after_release() {
    let semaphore = StrongSemaphore::new(0);
    semaphore.release();
    semaphore.acquire();
    semaphore.release();
}

#[test]
fn strong_semaphore_releases_accumulate() {
    let semaphore = StrongSemaphore::new(1);
    semaphore.release();
    semaphore.release();
    semaphore.acquire();
    semaphore.acquire();
    semaphore.acquire();
}

#[test]
fn strong_semaphore_is_shared_between_threads() {
    fn shared<T: Send + Sync>(_: &T) {}
    shared(&StrongSemaphore::new(1));
}
