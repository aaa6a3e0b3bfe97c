use concurrency_project::semaphore::weak_semaphore::WeakSemaphore;

#[test]
fn weak_semaphore_grants_its_permits() {
    let semaphore = WeakSemaphore::new(3);
    semaphore.acquire();
    semaphore.acquire();
    semaphore.acquire();
}

#[test]
fn weak_semaphore_release_returns_a_permit() {
    let semaphore = WeakSemaphore::new(1);
    for _ in 0..10 {
        semaphore.acquire();
        semaphore.release();
    }
    semaphore.acquire();
}

#[test]
fn weak_semaphore_zero_init_after_release() {
    let semaphore = WeakSemaphore::new(0);
    semaphore.release();
    semaphore.acquire();
    semaphore.release();
}

#[test]
fn weak_semaphore_releases_accumulate() {
    let semaphore = WeakSemaphore::new(0);
    for _ in 0..4 {
        semaphore.release();
    }
    for _ in 0..4 {
        semaphore.acquire();
    }
}

#[test]
fn weak_semaphore_is_shared_between_threads() {
    fn shared<T: Send + Sync>(_: &T) {}
    shared(&WeakSemaphore::new(1));
}
