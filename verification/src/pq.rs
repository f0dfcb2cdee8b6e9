//! Trusted interface to the ordered container that backs the queue.
//!
//! The queue proper is `priority_queue::PriorityQueue`, keyed here by a
//! process-local sequence number (`u64`) and prioritised by a pair
//! `(priority, u64::MAX - sequence)`, so that distinct entries always
//! carry distinct priority keys and ties on `priority` are broken
//! first-in-first-out.

use vstd::prelude::*;

verus! {

/// The priority key: the message priority, then a recency rank
/// (`u64::MAX - sequence`) so that among equal priorities the oldest
/// entry owns the greatest key.
pub type PrioKey = (u8, u64);

/// The backing container: sequence numbers prioritised by `PrioKey`.
pub type Pq = priority_queue::PriorityQueue<u64, PrioKey>;

#[verifier::external_type_specification]
#[verifier::external_body]
#[verifier::reject_recursive_types(I)]
#[verifier::reject_recursive_types(P)]
#[verifier::reject_recursive_types(H)]
pub struct ExPriorityQueue<I, P, H>(priority_queue::PriorityQueue<I, P, H>);

/// The entries a queue holds, as a map from sequence number to priority key.
pub uninterp spec fn pq_entries(q: Pq) -> Map<
    u64,
    PrioKey,
>;

/// The empty entry map.
pub open spec fn pq_no_entries() -> Map<u64, PrioKey> {
    Map::empty()
}

/// `a` is at most `b` in the lexicographic order `std` defines on pairs.
pub open spec fn key_le(a: PrioKey, b: PrioKey) -> bool {
    a.0 < b.0 || (a.0 == b.0 && a.1 <= b.1)
}

/// Relies on `priority_queue::PriorityQueue::new`: creates an empty queue.
#[verifier::external_body]
pub(crate) fn pq_new() -> (q: Pq)
    ensures
        pq_entries(q) == pq_no_entries(),
{
    priority_queue::PriorityQueue::new()
}

/// Relies on `priority_queue::PriorityQueue::push`: inserts an item with the
/// given priority; an item that is not yet present is simply added.
#[verifier::external_body]
pub(crate) fn pq_push(q: &mut Pq, item: u64, key: PrioKey)
    requires
        !pq_entries(*old(q)).dom().contains(item),
    ensures
        pq_entries(*final(q)) == pq_entries(*old(q)).insert(item, key),
{
    q.push(item, key);
}

/// Relies on `priority_queue::PriorityQueue::pop`: removes and returns an
/// entry with the greatest priority key, or `None` when the queue is empty.
#[verifier::external_body]
pub(crate) fn pq_pop(q: &mut Pq) -> (r: Option<(u64, PrioKey)>)
    ensures
        match r {
            None => {
                &&& pq_entries(*old(q)) == pq_no_entries()
                &&& pq_entries(*final(q)) == pq_entries(*old(q))
            },
            Some((item, key)) => {
                &&& pq_entries(*old(q)).contains_pair(item, key)
                &&& pq_entries(*final(q)) == pq_entries(*old(q)).remove(item)
                &&& forall|other: u64|
                    pq_entries(*old(q)).dom().contains(other) ==> key_le(
                        pq_entries(*old(q))[other],
                        key,
                    )
            },
        },
{
    q.pop()
}

} // verus!
