//! A memory-bounded, priority-ordered message queue.
//!
//! Messages are admitted through a validating admission controller,
//! held in a byte-accounted priority queue, and drained by delivery
//! workers that retry failed deliveries indefinitely.

pub mod admission;
pub mod checksum;
pub mod clock;
pub mod message;
pub mod pq;
pub mod queue;
pub mod worker;
