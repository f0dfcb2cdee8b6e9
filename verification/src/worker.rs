//! The delivery-worker engine: the decisions a worker loop makes.
//!
//! A worker loop sleeps for its current backoff, pops the
//! highest-priority message, attempts delivery to its sink, and hands
//! the outcome back here. The sink call itself is I/O and lives with
//! the caller; every decision about queue state and backoff is made —
//! and verified — in this module.

use crate::message::Message;
use crate::message::MessageModel;
use crate::message::retried;
use crate::queue::ByteQueue;
use crate::queue::Counters;
use crate::queue::spec_sat_inc;
use vstd::prelude::*;

verus! {

/// The seconds a worker waits after an empty poll or a failure.
pub const DEFAULT_DELAY: u64 = 5;

/// How a delivery attempt failed, as classified by the sink adapter.
/// Every failure leads to the same recovery — requeue and wait — and
/// differs only in what is worth logging.
#[derive(Clone, Copy, Debug, PartialEq, Eq, Structural)]
pub enum DeliveryError {
    /// The remote side reported a server error.
    RemoteServer,
    /// The request was refused as a client or configuration error.
    RemoteClient,
    /// The transport could not carry the request at all.
    Transport,
    /// Anything else.
    Unclassified,
}

/// The backoff a worker sleeps before its next poll: zero after a
/// successful delivery, so a draining worker keeps momentum, and the
/// configured delay after an empty poll (`None`) or a failure.
pub open spec fn spec_next_backoff(
    outcome: Option<Result<(), DeliveryError>>,
    default_delay: u64,
) -> u64 {
    match outcome {
        Some(Ok(_)) => 0,
        Some(Err(_)) => default_delay,
        None => default_delay,
    }
}

/// The backoff that follows one turn of a worker loop; `None` means
/// the poll found the queue empty.
pub fn next_backoff(outcome: Option<Result<(), DeliveryError>>, default_delay: u64) -> (b: u64)
    ensures
        b == spec_next_backoff(outcome, default_delay),
{
    match outcome {
        Some(Ok(_)) => 0,
        Some(Err(_)) => default_delay,
        None => default_delay,
    }
}

/// Settle one delivery attempt and choose the next backoff.
///
/// On success the message leaves the system and the counters release
/// it; on failure it returns to the queue with its attempt counter
/// grown by one and its priority unchanged, so no error path ever
/// drops a message.
pub fn finish_attempt(
    queue: &mut ByteQueue,
    m: Message,
    outcome: Result<(), DeliveryError>,
    default_delay: u64,
) -> (backoff: u64)
    requires
        old(queue).wf(),
        old(queue).inflight().contains(m@),
        outcome is Err ==> m.delivery_attempts < usize::MAX,
        outcome is Err ==> old(queue).can_assign_seq(),
    ensures
        final(queue).wf(),
        backoff == spec_next_backoff(Some(outcome), default_delay),
        exists|i: int|
            {
                &&& 0 <= i < old(queue).inflight().len()
                &&& old(queue).inflight()[i] == m@
                &&& final(queue).inflight() == old(queue).inflight().remove(i)
            },
        match outcome {
            Ok(_) => {
                &&& final(queue)@ == old(queue)@
                &&& final(queue).seqs_used() == old(queue).seqs_used()
                &&& final(queue).counters() == (Counters {
                    proxied: spec_sat_inc(old(queue).counters().proxied),
                    in_queue: (old(queue).counters().in_queue - 1) as usize,
                    bytes: (old(queue).counters().bytes - m@.size_in_bytes) as usize,
                    ..old(queue).counters()
                })
            },
            Err(_) => {
                &&& final(queue)@ == old(queue)@.push(retried(m@))
                &&& final(queue).seqs_used() == old(queue).seqs_used() + 1
                &&& final(queue).counters() == old(queue).counters()
            },
        },
{
    match outcome {
        Ok(_) => {
            queue.record_delivered(&m);
            0
        },
        Err(_) => {
            queue.requeue_failed(m);
            default_delay
        },
    }
}

/// Retry semantics: one failed delivery grows the attempt counter by
/// exactly one and leaves every other field — the priority and the
/// original priority among them — unchanged.
pub proof fn lemma_retry_preserves_message(m: MessageModel)
    requires
        m.delivery_attempts < usize::MAX,
    ensures
        retried(m).delivery_attempts == m.delivery_attempts + 1,
        retried(m).priority == m.priority,
        retried(m).original_priority == m.original_priority,
        retried(m).contents == m.contents,
        retried(m).sha256 == m.sha256,
        retried(m).size_in_bytes == m.size_in_bytes,
        retried(m).arrived == m.arrived,
        retried(m).id == m.id,
{
}

} // verus!
