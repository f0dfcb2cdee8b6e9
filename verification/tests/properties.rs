//! Behavioural properties of the queue, the admission controller and
//! the delivery-worker engine, checked on concrete values.

use rqueue::admission::AdmissionError;
use rqueue::admission::IncomingMessage;
use rqueue::admission::QueueConfig;
use rqueue::admission::admit_message;
use rqueue::admission::admit_with;
use rqueue::clock::elapsed_millis;
use rqueue::clock::time_since_epoch;
use rqueue::queue::ByteQueue;
use rqueue::worker::DeliveryError;
use rqueue::worker::finish_attempt;
use rqueue::worker::next_backoff;

fn open_config(memory_limit: usize) -> QueueConfig {
    QueueConfig { memory_limit, require_sha256: false, shared_secret: String::new() }
}

fn message(contents: &str) -> IncomingMessage {
    IncomingMessage { contents: contents.to_string(), sha256: None, priority: None }
}

#[test]
fn priority_ordering() {
    let mut queue = ByteQueue::new();
    let config = open_config(rqueue::admission::DEFAULT_MEMORY_LIMIT);
    for (contents, priority) in [("a", 10), ("b", 5), ("c", 20)] {
        let msg = IncomingMessage {
            contents: contents.to_string(),
            sha256: None,
            priority: Some(priority),
        };
        assert!(admit_message(&mut queue, &config, msg).is_ok());
    }
    assert_eq!(queue.fetch().unwrap().priority, 20);
    assert_eq!(queue.fetch().unwrap().priority, 10);
    assert_eq!(queue.fetch().unwrap().priority, 5);
    assert!(queue.fetch().is_none());
}

#[test]
fn default_priority() {
    let mut queue = ByteQueue::new();
    let config = open_config(rqueue::admission::DEFAULT_MEMORY_LIMIT);
    let receipt = admit_message(&mut queue, &config, message("no priority given")).unwrap();
    assert_eq!(receipt.priority, 10);
    let delivered = queue.fetch().unwrap();
    assert_eq!(delivered.priority, 10);
    assert_eq!(delivered.original_priority, 10);
}

#[test]
fn memory_admission_control() {
    let mut queue = ByteQueue::new();
    let config = open_config(100);
    // The smallest possible record already outweighs a 100-byte
    // budget: overhead (112) plus checksum (64) plus payload (1).
    let outcome = admit_with(&mut queue, &config, message("x"), 1, 1);
    assert_eq!(
        outcome.unwrap_err(),
        AdmissionError::InsufficientMemory {
            bytes_held: 0,
            size_requested: 177,
            memory_limit: 100,
        }
    );
    // The rejection left no trace: no item, no bytes.
    assert_eq!(queue.queue_len(), 0);
    let stats = queue.stats();
    assert_eq!(stats.in_queue, 0);
    assert_eq!(stats.bytes, 0);
    assert_eq!(stats.queued, 0);
    assert_eq!(stats.queue_requests, 1);
}

#[test]
fn checksum_validation() {
    let mut queue = ByteQueue::new();
    let config = open_config(rqueue::admission::DEFAULT_MEMORY_LIMIT);

    // A wrong checksum is rejected and leaves the queue untouched.
    let wrong = IncomingMessage {
        contents: "x".to_string(),
        sha256: Some("deadbeef".to_string()),
        priority: None,
    };
    assert_eq!(
        admit_message(&mut queue, &config, wrong).unwrap_err(),
        AdmissionError::ChecksumMismatch
    );
    assert_eq!(queue.queue_len(), 0);
    assert_eq!(queue.stats().in_queue, 0);

    // The same payload with the correct checksum succeeds; so does
    // an uppercase spelling of it, since comparison ignores case.
    let receipt = admit_message(&mut queue, &config, message("x")).unwrap();
    let correct = IncomingMessage {
        contents: "x".to_string(),
        sha256: Some(receipt.sha256.clone()),
        priority: None,
    };
    assert!(admit_message(&mut queue, &config, correct).is_ok());
    let shouted = IncomingMessage {
        contents: "x".to_string(),
        sha256: Some(receipt.sha256.to_uppercase()),
        priority: None,
    };
    assert!(admit_message(&mut queue, &config, shouted).is_ok());
}

#[test]
fn checksum_known_digest() {
    let mut queue = ByteQueue::new();
    let config = open_config(rqueue::admission::DEFAULT_MEMORY_LIMIT);
    let receipt = admit_message(&mut queue, &config, message("x")).unwrap();
    assert_eq!(
        receipt.sha256,
        "2d711642b726b04401627ca9fbac32f5c8530fb1903cc4db02258717921a4881"
    );
    assert_eq!(receipt.sha256.len(), 64);
    // The record is charged its exact footprint: overhead (112),
    // one payload byte, and the 64 checksum characters.
    assert_eq!(receipt.size_in_bytes, 177);
}

#[test]
fn checksum_salting() {
    // Hashing `contents` with a secret appended equals hashing their
    // concatenation with no secret at all.
    let mut queue = ByteQueue::new();
    let open = open_config(rqueue::admission::DEFAULT_MEMORY_LIMIT);
    let salted = QueueConfig {
        memory_limit: rqueue::admission::DEFAULT_MEMORY_LIMIT,
        require_sha256: false,
        shared_secret: "pepper".to_string(),
    };
    let concatenated = admit_message(&mut queue, &open, message("xpepper")).unwrap();
    let with_secret = admit_message(&mut queue, &salted, message("x")).unwrap();
    let without_secret = admit_message(&mut queue, &open, message("x")).unwrap();
    assert_eq!(concatenated.sha256, with_secret.sha256);
    assert_ne!(with_secret.sha256, without_secret.sha256);
}

#[test]
fn checksum_required() {
    let mut queue = ByteQueue::new();
    let config = QueueConfig {
        memory_limit: rqueue::admission::DEFAULT_MEMORY_LIMIT,
        require_sha256: true,
        shared_secret: String::new(),
    };
    assert_eq!(
        admit_message(&mut queue, &config, message("x")).unwrap_err(),
        AdmissionError::MissingChecksum
    );
    assert_eq!(queue.queue_len(), 0);
}

#[test]
fn priority_out_of_range() {
    let mut queue = ByteQueue::new();
    let config = open_config(rqueue::admission::DEFAULT_MEMORY_LIMIT);
    let low = IncomingMessage { contents: "x".to_string(), sha256: None, priority: Some(-1) };
    assert_eq!(
        admit_message(&mut queue, &config, low).unwrap_err(),
        AdmissionError::InvalidPriority { received: -1, lowest: 0, highest: 255 }
    );
    let high = IncomingMessage { contents: "x".to_string(), sha256: None, priority: Some(256) };
    assert_eq!(
        admit_message(&mut queue, &config, high).unwrap_err(),
        AdmissionError::InvalidPriority { received: 256, lowest: 0, highest: 255 }
    );
    // The bounds themselves are accepted.
    let lowest = IncomingMessage { contents: "x".to_string(), sha256: None, priority: Some(0) };
    assert_eq!(admit_message(&mut queue, &config, lowest).unwrap().priority, 0);
    let highest = IncomingMessage { contents: "x".to_string(), sha256: None, priority: Some(255) };
    assert_eq!(admit_message(&mut queue, &config, highest).unwrap().priority, 255);
}

#[test]
fn accounting_consistency() {
    let mut queue = ByteQueue::new();
    let config = open_config(rqueue::admission::DEFAULT_MEMORY_LIMIT);
    let mut sizes = Vec::new();
    for contents in ["one", "two longer", "three"] {
        let receipt = admit_message(&mut queue, &config, message(contents)).unwrap();
        sizes.push(receipt.size_in_bytes);
    }
    let total: usize = sizes.iter().sum();
    let stats = queue.stats();
    assert_eq!(stats.queued, 3);
    assert_eq!(stats.in_queue, 3);
    assert_eq!(stats.bytes, total);

    // One successful delivery releases exactly that message.
    let delivered = queue.fetch().unwrap();
    let stats = queue.stats();
    assert_eq!(stats.in_queue, 2);
    assert_eq!(stats.proxied, 1);
    assert_eq!(stats.bytes, total - delivered.size_in_bytes);

    // Draining the rest leaves every live tally at zero.
    queue.fetch().unwrap();
    queue.fetch().unwrap();
    let stats = queue.stats();
    assert_eq!(stats.in_queue, 0);
    assert_eq!(stats.bytes, 0);
    assert_eq!(stats.queued, 3);
    assert_eq!(stats.proxied, 3);
}

#[test]
fn retry_semantics() {
    let mut queue = ByteQueue::new();
    let config = open_config(rqueue::admission::DEFAULT_MEMORY_LIMIT);
    let receipt = admit_message(&mut queue, &config, message("fragile")).unwrap();
    let before = queue.stats();

    let popped = queue.pop_for_delivery().unwrap();
    assert_eq!(popped.delivery_attempts, 0);
    let backoff = finish_attempt(&mut queue, popped, Err(DeliveryError::Transport), 5);
    assert_eq!(backoff, 5);

    // The message reappeared with one more attempt recorded and its
    // priority untouched; the counters never released it.
    let after = queue.stats();
    assert_eq!(after, before);
    let retried = queue.fetch().unwrap();
    assert_eq!(retried.delivery_attempts, 1);
    assert_eq!(retried.priority, retried.original_priority);
    assert_eq!(retried.contents, "fragile");
    assert_eq!(retried.id, receipt.id);
    assert_eq!(retried.size_in_bytes, receipt.size_in_bytes);
}

#[test]
fn delivery_success_releases_message() {
    let mut queue = ByteQueue::new();
    let config = open_config(rqueue::admission::DEFAULT_MEMORY_LIMIT);
    admit_message(&mut queue, &config, message("cargo")).unwrap();
    let popped = queue.pop_for_delivery().unwrap();
    let backoff = finish_attempt(&mut queue, popped, Ok(()), 5);
    assert_eq!(backoff, 0);
    let stats = queue.stats();
    assert_eq!(stats.in_queue, 0);
    assert_eq!(stats.bytes, 0);
    assert_eq!(stats.proxied, 1);
    assert!(queue.fetch().is_none());
}

#[test]
fn empty_queue_idempotence() {
    let mut queue = ByteQueue::new();
    for attempt in 1..=3usize {
        assert!(queue.fetch().is_none());
        let stats = queue.stats();
        // Only the fetch-request tally moves.
        assert_eq!(stats.proxy_requests, attempt);
        assert_eq!(stats.queue_requests, 0);
        assert_eq!(stats.queued, 0);
        assert_eq!(stats.proxied, 0);
        assert_eq!(stats.in_queue, 0);
        assert_eq!(stats.bytes, 0);
    }
    // A worker poll on an empty queue moves no counter at all.
    let before = queue.stats();
    assert!(queue.pop_for_delivery().is_none());
    assert_eq!(queue.stats(), before);
}

#[test]
fn worker_backoff() {
    assert_eq!(next_backoff(None, 5), 5);
    assert_eq!(next_backoff(Some(Ok(())), 5), 0);
    assert_eq!(next_backoff(Some(Err(DeliveryError::RemoteServer)), 5), 5);
    assert_eq!(next_backoff(Some(Err(DeliveryError::Unclassified)), 7), 7);
}

#[test]
fn fifo_among_equal_priorities() {
    let mut queue = ByteQueue::new();
    let config = open_config(rqueue::admission::DEFAULT_MEMORY_LIMIT);
    for contents in ["first", "second", "third"] {
        let msg = IncomingMessage {
            contents: contents.to_string(),
            sha256: None,
            priority: Some(42),
        };
        admit_message(&mut queue, &config, msg).unwrap();
    }
    assert_eq!(queue.fetch().unwrap().contents, "first");
    assert_eq!(queue.fetch().unwrap().contents, "second");
    assert_eq!(queue.fetch().unwrap().contents, "third");
}

#[test]
fn fresh_identifiers() {
    let mut queue = ByteQueue::new();
    let config = open_config(rqueue::admission::DEFAULT_MEMORY_LIMIT);
    let a = admit_message(&mut queue, &config, message("a")).unwrap();
    let b = admit_message(&mut queue, &config, message("b")).unwrap();
    assert_ne!(a.id, b.id);
}

#[test]
fn clock_helpers() {
    assert_eq!(elapsed_millis(100, 30), 70);
    assert_eq!(elapsed_millis(30, 100), 0);
    assert_eq!(elapsed_millis(5, 5), 0);
    // The wall clock reads after the turn of the millennium.
    assert!(time_since_epoch() > 1_000_000_000_000);
}

#[test]
fn request_timer() {
    let timer = rqueue::clock::RequestTimer::start();
    // A fresh timer reads as a small elapsed time, not as a raw
    // timestamp.
    assert!(timer.elapsed() < 60_000);
    // Measured against the epoch, the elapsed time is the clock
    // itself.
    assert!(rqueue::clock::milliseconds_since_timestamp(0) > 1_000_000_000_000);
}
