//! The semaphores, the states they guard, and the layer over `std::sync`.

pub mod binary_semaphore;
pub mod callers;
pub mod counting_semaphore;
pub mod fair_queue;
pub mod permits;
pub mod strong_semaphore;
pub mod sync;
pub mod weak_semaphore;
