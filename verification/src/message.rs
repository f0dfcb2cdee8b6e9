//! The message record: the unit held in the queue.

use vstd::prelude::*;

verus! {

/// The mathematical model of a message record.
pub struct MessageModel {
    pub size_in_bytes: usize,
    pub contents: Seq<char>,
    pub sha256: Seq<char>,
    pub priority: u8,
    pub arrived: u128,
    pub id: u128,
    pub delivery_attempts: usize,
    pub original_priority: u8,
}

/// A message record.
///
/// Created by the admission controller once a message passes
/// validation; mutated only when a failed delivery returns it to the
/// queue, which increments `delivery_attempts`; destroyed on a
/// successful delivery.
#[derive(Clone, Debug)]
pub struct Message {
    /// The memory charged against the byte budget: a fixed record
    /// overhead plus the byte lengths of `contents` and `sha256`.
    pub size_in_bytes: usize,
    /// The opaque payload.
    pub contents: String,
    /// Lowercase hex SHA-256 of the payload (salted with the shared
    /// secret when one is configured), computed at admission.
    pub sha256: String,
    /// Urgency, `0..=255`; higher pops first.
    pub priority: u8,
    /// Milliseconds since the epoch when the message was admitted.
    pub arrived: u128,
    /// Process-unique 128-bit identifier, assigned once at admission.
    pub id: u128,
    /// How many delivery attempts have failed so far.
    pub delivery_attempts: usize,
    /// The priority at first admission, preserved across retries.
    pub original_priority: u8,
}

impl View for Message {
    type V = MessageModel;

    open spec fn view(&self) -> MessageModel {
        MessageModel {
            size_in_bytes: self.size_in_bytes,
            contents: self.contents@,
            sha256: self.sha256@,
            priority: self.priority,
            arrived: self.arrived,
            id: self.id,
            delivery_attempts: self.delivery_attempts,
            original_priority: self.original_priority,
        }
    }
}

/// `m` after one more failed delivery attempt: the attempt counter
/// grows by one and every other field is preserved.
pub open spec fn retried(m: MessageModel) -> MessageModel
    recommends
        m.delivery_attempts < usize::MAX,
{
    MessageModel { delivery_attempts: (m.delivery_attempts + 1) as usize, ..m }
}

} // verus!
