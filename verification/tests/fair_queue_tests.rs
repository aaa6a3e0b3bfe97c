use concurrency_project::semaphore::fair_queue::FairQueue;

#[test]
fn fair_queue_starts_with_its_permits_and_nobody_waiting() {
    let queue: FairQueue<u32> = FairQueue::new(2);
    assert_eq!(queue.available(), 2);
    assert_eq!(queue.woken(), 0);
    assert_eq!(queue.waiting(), 0);
}

#[test]
fn fair_queue_fast_path_takes_a_permit() {
    let mut queue: FairQueue<u32> = FairQueue::new(2);
    assert!(queue.try_acquire());
    assert_eq!(queue.available(), 1);
    assert!(queue.try_acquire());
    assert_eq!(queue.available(), 0);
    assert!(!queue.try_acquire());
    assert_eq!(queue.available(), 0);
    assert_eq!(queue.waiting(), 0);
}

#[test]
fn fair_queue_release_without_waiters_adds_a_permit() {
    let mut queue: FairQueue<u32> = FairQueue::new(1);
    assert_eq!(queue.release(), None);
    assert_eq!(queue.available(), 2);
    assert_eq!(queue.release(), None);
    assert_eq!(queue.available(), 3);
    assert_eq!(queue.woken(), 0);
}

#[test]
fn fair_queue_release_stops_at_the_largest_value() {
    let mut queue: FairQueue<u32> = FairQueue::new(usize::MAX);
    assert_eq!(queue.release(), None);
    assert_eq!(queue.available(), usize::MAX);
    assert_eq!(queue.woken(), 0);
}

#[test]
fn fair_queue_release_adds_a_permit_and_wakes_the_first_waiter() {
    let mut queue: FairQueue<u32> = FairQueue::new(0);
    assert!(!queue.try_acquire());
    queue.enqueue(7);
    assert!(!queue.try_acquire());
    queue.enqueue(8);
    assert_eq!(queue.release(), Some(7));
    assert_eq!(queue.available(), 1);
    assert_eq!(queue.woken(), 1);
    assert_eq!(queue.waiting(), 1);
    assert_eq!(queue.release(), Some(8));
    assert_eq!(queue.available(), 2);
    assert_eq!(queue.woken(), 2);
    assert_eq!(queue.waiting(), 0);
}

#[test]
fn fair_queue_woken_caller_takes_its_permit() {
    let mut queue: FairQueue<u32> = FairQueue::new(0);
    assert!(!queue.try_acquire());
    queue.enqueue(1);
    assert_eq!(queue.release(), Some(1));
    assert_eq!(queue.available(), 1);
    assert!(queue.resume());
    assert_eq!(queue.available(), 0);
    assert_eq!(queue.woken(), 0);
}

#[test]
fn fair_queue_caller_that_was_not_woken_keeps_waiting() {
    let mut queue: FairQueue<u32> = FairQueue::new(0);
    assert!(!queue.resume());
    assert_eq!(queue.available(), 0);
    assert!(!queue.try_acquire());
    queue.enqueue(1);
    assert!(!queue.resume());
    assert_eq!(queue.available(), 0);
    assert_eq!(queue.waiting(), 1);

    // A permit that nobody was woken for is not taken by a resume either.
    let mut spare: FairQueue<u32> = FairQueue::new(2);
    assert!(!spare.resume());
    assert_eq!(spare.available(), 2);
}

#[test]
fn fair_queue_wakes_in_arrival_order() {
    // One permit; caller 0 gets it, callers 1 to 4 arrive while it is held.
    let mut queue: FairQueue<u32> = FairQueue::new(1);
    let mut admitted = Vec::new();
    for caller in 0..5u32 {
        if queue.try_acquire() {
            admitted.push(caller);
        } else {
            queue.enqueue(caller);
        }
    }
    assert_eq!(admitted, vec![0]);
    assert_eq!(queue.waiting(), 4);
    // Each holder releases, and the caller that it wakes takes the permit.
    while let Some(woken) = queue.release() {
        assert!(queue.resume());
        admitted.push(woken);
    }
    assert_eq!(admitted, vec![0, 1, 2, 3, 4]);
    assert_eq!(queue.waiting(), 0);
    assert_eq!(queue.woken(), 0);
    assert_eq!(queue.available(), 1);
}

#[test]
fn fair_queue_newcomer_cannot_take_a_permit_kept_for_a_woken_caller() {
    let mut queue: FairQueue<u32> = FairQueue::new(1);
    assert!(queue.try_acquire());
    assert!(!queue.try_acquire());
    queue.enqueue(1);
    // The holder releases: the count is 1 again, and caller 1 has not run yet.
    assert_eq!(queue.release(), Some(1));
    assert_eq!(queue.available(), 1);
    assert!(!queue.try_acquire());
    assert_eq!(queue.available(), 1);
    queue.enqueue(2);
    // Caller 1 resumes and finds its permit.
    assert!(queue.resume());
    assert_eq!(queue.available(), 0);
    assert_eq!(queue.release(), Some(2));
    assert!(queue.resume());
    assert_eq!(queue.release(), None);
    assert!(queue.try_acquire());
}

#[test]
fn fair_queue_newcomer_takes_a_permit_beyond_those_kept() {
    let mut queue: FairQueue<u32> = FairQueue::new(0);
    assert!(!queue.try_acquire());
    queue.enqueue(1);
    assert_eq!(queue.release(), Some(1));
    assert_eq!(queue.release(), None);
    // Two permits, one of them kept for caller 1.
    assert_eq!(queue.available(), 2);
    assert_eq!(queue.woken(), 1);
    assert!(queue.try_acquire());
    assert!(!queue.try_acquire());
    assert_eq!(queue.available(), 1);
    assert!(queue.resume());
    assert_eq!(queue.available(), 0);
}

#[test]
fn fair_queue_newcomer_waits_behind_those_that_wait() {
    let mut queue: FairQueue<u32> = FairQueue::new(0);
    assert!(!queue.try_acquire());
    queue.enqueue(1);
    assert!(!queue.try_acquire());
    queue.enqueue(2);
    assert_eq!(queue.release(), Some(1));
    assert!(!queue.try_acquire());
    queue.enqueue(3);
    assert_eq!(queue.release(), Some(2));
    assert_eq!(queue.release(), Some(3));
    assert_eq!(queue.release(), None);
    assert_eq!(queue.available(), 4);
    assert_eq!(queue.woken(), 3);
}

#[test]
fn fair_queue_zero_init_blocks_until_a_release() {
    let mut queue: FairQueue<u32> = FairQueue::new(0);
    assert!(!queue.try_acquire());
    assert!(!queue.try_acquire());
    assert_eq!(queue.release(), None);
    assert!(queue.try_acquire());
    assert!(!queue.try_acquire());
}

#[test]
fn fair_queue_bounds_the_callers_inside() {
    // Six callers around three permits.  A caller that is inside leaves on its next turn
    // and wakes whoever the queue names; a woken caller takes its permit on its next
    // turn; a caller that waits does nothing.
    let capacity = 3;
    let mut queue: FairQueue<usize> = FairQueue::new(capacity);
    let mut inside = vec![false; 6];
    let mut woken = vec![false; 6];
    let mut waits = vec![false; 6];
    let mut asked = Vec::new();
    let mut granted = Vec::new();
    let mut seed: u32 = 2024;
    for _ in 0..400usize {
        seed = seed.wrapping_mul(1103515245).wrapping_add(12345);
        let who = (seed >> 16) as usize % 6;
        if inside[who] {
            inside[who] = false;
            if let Some(first) = queue.release() {
                assert!(waits[first]);
                waits[first] = false;
                woken[first] = true;
                granted.push(first);
            }
        } else if woken[who] {
            assert!(queue.resume());
            woken[who] = false;
            inside[who] = true;
        } else if !waits[who] {
            asked.push(who);
            if queue.try_acquire() {
                inside[who] = true;
                granted.push(who);
            } else {
                queue.enqueue(who);
                waits[who] = true;
            }
        }
        let holders = inside.iter().filter(|held| **held).count();
        assert!(holders <= capacity);
        assert_eq!(holders + queue.available(), capacity);
        assert_eq!(queue.woken(), woken.iter().filter(|w| **w).count());
        assert_eq!(queue.waiting(), waits.iter().filter(|w| **w).count());
        assert_eq!(granted[..], asked[..granted.len()]);
        assert_eq!(granted.len() + queue.waiting(), asked.len());
    }
    assert!(granted.len() > capacity);
    assert!(asked.len() > granted.len() || queue.waiting() == 0);
}
