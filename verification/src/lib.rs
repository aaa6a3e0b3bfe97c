//! Semaphores built on a lock and a condition variable.
//!
//! Each semaphore keeps its permits in a small state type whose transitions
//! are verified, and shares that state between threads through
//! `std::sync::Mutex` and `std::sync::Condvar`.

pub mod semaphore;
