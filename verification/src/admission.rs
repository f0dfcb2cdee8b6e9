//! The admission controller: validate, fingerprint and size an
//! inbound message, then commit it to the queue or reject it with a
//! typed error — never partially mutating queue state on rejection.

use crate::checksum::checksum_accepts;
use crate::checksum::checksum_matches;
use crate::checksum::compute_checksum;
use crate::checksum::lemma_hex_chars_ascii;
use crate::checksum::spec_checksum;
use crate::clock::time_since_epoch;
use crate::message::Message;
use crate::message::MessageModel;
use crate::queue::ByteQueue;
use crate::queue::Counters;
use crate::queue::spec_sat_inc;
use vstd::prelude::*;
use vstd::utf8::encode_utf8;

verus! {

/// The default byte budget: about 64 MiB.
pub const DEFAULT_MEMORY_LIMIT: usize = 1024 * 1024 * 64;

/// The priority a message is given when it requests none.
pub const DEFAULT_PRIORITY: u8 = 10;

/// The lowest priority a caller may request.
pub const MINIMUM_PRIORITY: u8 = 0;

/// The highest priority a caller may request.
pub const MAXIMUM_PRIORITY: u8 = 255;

/// The fixed record overhead charged for a message beyond the byte
/// lengths of its payload and checksum.
pub const MESSAGE_OVERHEAD: usize = 112;

/// The length of a hex-encoded SHA-256 checksum.
pub const CHECKSUM_LENGTH: usize = 64;

/// Admission configuration, read-only after startup.
pub struct QueueConfig {
    /// The byte budget the queue must stay under.
    pub memory_limit: usize,
    /// Whether a message that carries no checksum is rejected.
    pub require_sha256: bool,
    /// A secret appended to the payload before hashing; empty when
    /// unused.
    pub shared_secret: String,
}

/// An inbound admission request, as the transport hands it over.
#[derive(Clone, Debug)]
pub struct IncomingMessage {
    /// The opaque payload.
    pub contents: String,
    /// The checksum the caller claims for the payload, if any.
    pub sha256: Option<String>,
    /// The priority the caller asks for, if any.
    pub priority: Option<i32>,
}

/// Why a message was refused, with the diagnostics the caller is
/// owed.
#[derive(Clone, Debug, PartialEq, Eq, Structural)]
pub enum AdmissionError {
    /// A checksum is required, and none was supplied.
    MissingChecksum,
    /// The supplied checksum does not match the computed one.
    ChecksumMismatch,
    /// The requested priority lies outside the declared range.
    InvalidPriority { received: i32, lowest: u8, highest: u8 },
    /// Admitting the message would overrun the byte budget.
    InsufficientMemory { bytes_held: usize, size_requested: usize, memory_limit: usize },
}

/// Proof of admission handed back to the caller.
#[derive(Clone, Debug)]
pub struct AdmissionReceipt {
    /// The identifier assigned to the message.
    pub id: u128,
    /// When the message was admitted, in milliseconds since the
    /// epoch.
    pub arrived: u128,
    /// The checksum the controller computed.
    pub sha256: String,
    /// The priority the message competes at.
    pub priority: u8,
    /// The bytes charged against the budget.
    pub size_in_bytes: usize,
}

/// Relies on `uuid::Uuid::new_v4`: a freshly drawn random 128-bit
/// identifier; nothing is promised of its value.
#[verifier::external_body]
fn fresh_id() -> u128 {
    uuid::Uuid::new_v4().as_u128()
}

/// The priority an incoming request resolves to: the default when
/// none was asked for.
pub open spec fn resolved_priority(requested: Option<i32>) -> u8 {
    match requested {
        None => DEFAULT_PRIORITY,
        Some(p) => p as u8,
    }
}

/// The requested priority, if any, fits the declared range.
pub open spec fn priority_ok(requested: Option<i32>) -> bool {
    match requested {
        None => true,
        Some(p) => MINIMUM_PRIORITY <= p <= MAXIMUM_PRIORITY,
    }
}

/// The memory footprint charged for a message with this payload.
pub open spec fn spec_message_size(contents: Seq<char>) -> int {
    MESSAGE_OVERHEAD + encode_utf8(contents).len() + CHECKSUM_LENGTH
}

/// A checksum is required but the request carries none.
pub open spec fn checksum_missing(msg: IncomingMessage, config: QueueConfig) -> bool {
    msg.sha256 is None && config.require_sha256
}

/// The request carries a checksum that does not match the computed
/// one (ASCII-case-insensitively).
pub open spec fn checksum_mismatched(msg: IncomingMessage, config: QueueConfig) -> bool {
    match msg.sha256 {
        None => false,
        Some(s) => !checksum_accepts(
            encode_utf8(s@),
            spec_checksum(msg.contents@, config.shared_secret@),
        ),
    }
}

/// The error an admission request is refused with, if any: the
/// checks run in order — checksum presence, checksum match, priority
/// range, byte budget — and the first to fail decides.
pub open spec fn spec_admission_error(
    msg: IncomingMessage,
    config: QueueConfig,
    bytes_held: usize,
) -> Option<AdmissionError> {
    if checksum_missing(msg, config) {
        Some(AdmissionError::MissingChecksum)
    } else if checksum_mismatched(msg, config) {
        Some(AdmissionError::ChecksumMismatch)
    } else if !priority_ok(msg.priority) {
        match msg.priority {
            Some(p) => Some(
                AdmissionError::InvalidPriority {
                    received: p,
                    lowest: MINIMUM_PRIORITY,
                    highest: MAXIMUM_PRIORITY,
                },
            ),
            None => None,
        }
    } else if bytes_held + spec_message_size(msg.contents@) > config.memory_limit {
        Some(
            AdmissionError::InsufficientMemory {
                bytes_held,
                size_requested: spec_message_size(msg.contents@) as usize,
                memory_limit: config.memory_limit,
            },
        )
    } else {
        None
    }
}

/// The record an accepted request is committed as.
pub open spec fn admitted_message(
    msg: IncomingMessage,
    config: QueueConfig,
    arrived: u128,
    id: u128,
) -> MessageModel {
    MessageModel {
        size_in_bytes: spec_message_size(msg.contents@) as usize,
        contents: msg.contents@,
        sha256: spec_checksum(msg.contents@, config.shared_secret@),
        priority: resolved_priority(msg.priority),
        arrived,
        id,
        delivery_attempts: 0,
        original_priority: resolved_priority(msg.priority),
    }
}

/// What `admit_with` promises: exactly one of a committed push with
/// a faithful receipt, or the first failing check's error with the
/// queue untouched. The admission request is tallied either way.
pub open spec fn admit_ensures(
    pre: ByteQueue,
    post: ByteQueue,
    config: QueueConfig,
    msg: IncomingMessage,
    arrived: u128,
    id: u128,
    r: Result<AdmissionReceipt, AdmissionError>,
) -> bool {
    &&& post.wf()
    &&& post.inflight() == pre.inflight()
    &&& match r {
        Ok(receipt) => {
            &&& spec_admission_error(msg, config, pre.counters().bytes) is None
            &&& receipt.id == id
            &&& receipt.arrived == arrived
            &&& receipt.sha256@ == spec_checksum(msg.contents@, config.shared_secret@)
            &&& receipt.priority == resolved_priority(msg.priority)
            &&& receipt.size_in_bytes == spec_message_size(msg.contents@)
            &&& post@ == pre@.push(admitted_message(msg, config, arrived, id))
            &&& post.seqs_used() == pre.seqs_used() + 1
            &&& post.counters() == (Counters {
                queue_requests: spec_sat_inc(pre.counters().queue_requests),
                queued: spec_sat_inc(pre.counters().queued),
                in_queue: (pre.counters().in_queue + 1) as usize,
                bytes: (pre.counters().bytes + spec_message_size(msg.contents@)) as usize,
                ..pre.counters()
            })
        },
        Err(e) => {
            &&& Some(e) == spec_admission_error(msg, config, pre.counters().bytes)
            &&& post@ == pre@
            &&& post.seqs_used() == pre.seqs_used()
            &&& post.counters() == (Counters {
                queue_requests: spec_sat_inc(pre.counters().queue_requests),
                ..pre.counters()
            })
        },
    }
}

/// Validate an inbound message against `config` and either commit it
/// to `queue` — stamped with the given arrival time and identifier —
/// or reject it with the first failing check's error, leaving the
/// queue untouched.
pub fn admit_with(
    queue: &mut ByteQueue,
    config: &QueueConfig,
    msg: IncomingMessage,
    arrived: u128,
    id: u128,
) -> (r: Result<AdmissionReceipt, AdmissionError>)
    requires
        old(queue).wf(),
        old(queue).can_assign_seq(),
        encode_utf8(msg.contents@).len() + MESSAGE_OVERHEAD + CHECKSUM_LENGTH <= usize::MAX,
    ensures
        admit_ensures(*old(queue), *final(queue), *config, msg, arrived, id, r),
{
    queue.tally_queue_request();

    // Always compute the message's own checksum; the record carries
    // it even when the caller supplied one.
    let computed = compute_checksum(msg.contents.as_str(), config.shared_secret.as_str());

    match &msg.sha256 {
        None => {
            if config.require_sha256 {
                return Err(AdmissionError::MissingChecksum);
            }
        },
        Some(supplied) => {
            proof {
                lemma_hex_chars_ascii(
                    crate::checksum::sha256_of(
                        encode_utf8(msg.contents@) + encode_utf8(config.shared_secret@),
                    ),
                );
            }
            if !checksum_matches(supplied.as_str(), computed.as_str()) {
                return Err(AdmissionError::ChecksumMismatch);
            }
        },
    }

    let priority: u8 = match msg.priority {
        None => DEFAULT_PRIORITY,
        Some(requested) => {
            if requested < MINIMUM_PRIORITY as i32 || requested > MAXIMUM_PRIORITY as i32 {
                return Err(
                    AdmissionError::InvalidPriority {
                        received: requested,
                        lowest: MINIMUM_PRIORITY,
                        highest: MAXIMUM_PRIORITY,
                    },
                );
            }
            requested as u8
        },
    };

    let size_in_bytes = MESSAGE_OVERHEAD + msg.contents.as_str().len() + CHECKSUM_LENGTH;
    let bytes_held = queue.stats().bytes;
    let available = if config.memory_limit >= bytes_held {
        config.memory_limit - bytes_held
    } else {
        0
    };
    if size_in_bytes > available {
        return Err(
            AdmissionError::InsufficientMemory {
                bytes_held,
                size_requested: size_in_bytes,
                memory_limit: config.memory_limit,
            },
        );
    }

    let receipt = AdmissionReceipt {
        id,
        arrived,
        sha256: computed.clone(),
        priority,
        size_in_bytes,
    };
    let record = Message {
        size_in_bytes,
        contents: msg.contents,
        sha256: computed,
        priority,
        arrived,
        id,
        delivery_attempts: 0,
        original_priority: priority,
    };
    queue.push_admitted(record);
    Ok(receipt)
}

/// Admit an inbound message: stamp it with the wall clock and a
/// fresh random identifier, then validate and commit it as
/// `admit_with` does. The receipt reports the stamps it was given.
pub fn admit_message(queue: &mut ByteQueue, config: &QueueConfig, msg: IncomingMessage) -> (r: Result<
    AdmissionReceipt,
    AdmissionError,
>)
    requires
        old(queue).wf(),
        old(queue).can_assign_seq(),
        encode_utf8(msg.contents@).len() + MESSAGE_OVERHEAD + CHECKSUM_LENGTH <= usize::MAX,
    ensures
        match r {
            Ok(receipt) => admit_ensures(
                *old(queue),
                *final(queue),
                *config,
                msg,
                receipt.arrived,
                receipt.id,
                r,
            ),
            Err(e) => admit_ensures(*old(queue), *final(queue), *config, msg, 0, 0, r),
        },
{
    let arrived = time_since_epoch();
    let id = fresh_id();
    admit_with(queue, config, msg, arrived, id)
}

} // verus!
