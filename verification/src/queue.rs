//! The byte-accounted priority queue, its counters, and the ghost
//! record of messages that are in flight with a delivery worker.
//!
//! Every mutation goes through one `&mut self` method, so the counter
//! invariants hold at every point where no admission or delivery
//! operation is in flight. Ties between equal priorities pop
//! first-in-first-out, by a monotonic sequence number used as a
//! secondary sort key.

use crate::message::Message;
use crate::message::MessageModel;
use crate::message::retried;
use crate::pq::PrioKey;
use crate::pq::Pq;
use crate::pq::key_le;
use crate::pq::pq_entries;
use crate::pq::pq_new;
use crate::pq::pq_pop;
use crate::pq::pq_push;
use vstd::prelude::*;

verus! {

/// Process-wide tallies, updated together with the queue they
/// describe.
#[derive(Clone, Copy, Debug, PartialEq, Eq, Structural)]
pub struct Counters {
    /// Admission requests received, accepted or not.
    pub queue_requests: usize,
    /// Fetch requests received, fruitful or not.
    pub proxy_requests: usize,
    /// Messages ever admitted.
    pub queued: usize,
    /// Messages ever delivered.
    pub proxied: usize,
    /// Messages currently held: queued or in flight with a worker.
    pub in_queue: usize,
    /// Bytes currently charged against the memory budget.
    pub bytes: usize,
}

/// `x + 1`, stopping at the top of `usize`; the cumulative tallies
/// are diagnostics and must never halt the queue.
pub open spec fn spec_sat_inc(x: usize) -> usize {
    if x < usize::MAX {
        (x + 1) as usize
    } else {
        x
    }
}

fn sat_inc(x: usize) -> (r: usize)
    ensures
        r == spec_sat_inc(x),
{
    if x < usize::MAX {
        x + 1
    } else {
        x
    }
}

/// The models of the messages a store holds, in arrival order.
pub open spec fn store_view(s: Seq<(u64, Message)>) -> Seq<MessageModel> {
    s.map_values(|e: (u64, Message)| e.1@)
}

/// The total of the sizes charged for a sequence of messages.
pub open spec fn sum_sizes(s: Seq<MessageModel>) -> int
    decreases s.len(),
{
    if s.len() == 0 {
        0
    } else {
        sum_sizes(s.drop_last()) + s.last().size_in_bytes
    }
}

/// The priority key a stored message carries in the backing
/// container: its priority, then the recency rank that breaks ties
/// first-in-first-out.
pub open spec fn entry_key(seq_no: u64, m: MessageModel) -> PrioKey {
    (m.priority, (u64::MAX - seq_no) as u64)
}

/// The backing container's entries for a store.
pub open spec fn store_map(s: Seq<(u64, Message)>) -> Map<u64, PrioKey>
    decreases s.len(),
{
    if s.len() == 0 {
        Map::empty()
    } else {
        store_map(s.drop_last()).insert(s.last().0, entry_key(s.last().0, s.last().1@))
    }
}

/// The entry at `i` pops before every other entry of `s`: nothing
/// outranks its priority, and nothing before it ties it.
pub open spec fn pops_first(s: Seq<MessageModel>, i: int) -> bool {
    &&& 0 <= i < s.len()
    &&& forall|j: int| 0 <= j < s.len() ==> (#[trigger] s[j]).priority <= s[i].priority
    &&& forall|j: int| 0 <= j < i ==> (#[trigger] s[j]).priority < s[i].priority
}

proof fn lemma_sum_push(s: Seq<MessageModel>, m: MessageModel)
    ensures
        sum_sizes(s.push(m)) == sum_sizes(s) + m.size_in_bytes,
{
    assert(s.push(m).drop_last() =~= s);
    assert(s.push(m).last() == m);
}

proof fn lemma_sum_remove(s: Seq<MessageModel>, i: int)
    requires
        0 <= i < s.len(),
    ensures
        sum_sizes(s) == sum_sizes(s.remove(i)) + s[i].size_in_bytes,
    decreases s.len(),
{
    if i == s.len() - 1 {
        assert(s.remove(i) =~= s.drop_last());
    } else {
        lemma_sum_remove(s.drop_last(), i);
        assert(s.remove(i).drop_last() =~= s.drop_last().remove(i));
        assert(s.remove(i).last() == s.last());
    }
}

proof fn lemma_sum_nonneg(s: Seq<MessageModel>)
    ensures
        sum_sizes(s) >= 0,
    decreases s.len(),
{
    if s.len() > 0 {
        lemma_sum_nonneg(s.drop_last());
    }
}

proof fn lemma_sum_ge_element(s: Seq<MessageModel>, i: int)
    requires
        0 <= i < s.len(),
    ensures
        sum_sizes(s) >= s[i].size_in_bytes,
{
    lemma_sum_remove(s, i);
    lemma_sum_nonneg(s.remove(i));
}

proof fn lemma_count_le_sum(s: Seq<MessageModel>)
    requires
        forall|i: int| 0 <= i < s.len() ==> (#[trigger] s[i]).size_in_bytes >= 1,
    ensures
        sum_sizes(s) >= s.len(),
    decreases s.len(),
{
    if s.len() > 0 {
        lemma_count_le_sum(s.drop_last());
    }
}

proof fn lemma_store_map_contains_index(s: Seq<(u64, Message)>, i: int)
    requires
        0 <= i < s.len(),
    ensures
        store_map(s).dom().contains(s[i].0),
    decreases s.len(),
{
    if i < s.len() - 1 {
        lemma_store_map_contains_index(s.drop_last(), i);
    }
}

proof fn lemma_store_map_new_key(s: Seq<(u64, Message)>, k: u64)
    requires
        forall|i: int| 0 <= i < s.len() ==> (#[trigger] s[i]).0 != k,
    ensures
        !store_map(s).dom().contains(k),
    decreases s.len(),
{
    if s.len() > 0 {
        lemma_store_map_new_key(s.drop_last(), k);
    }
}

proof fn lemma_store_map_member(s: Seq<(u64, Message)>, k: u64)
    requires
        store_map(s).dom().contains(k),
    ensures
        exists|i: int| 0 <= i < s.len() && (#[trigger] s[i]).0 == k,
    decreases s.len(),
{
    if s.len() > 0 {
        if s.last().0 == k {
            assert(s[s.len() - 1].0 == k);
        } else {
            lemma_store_map_member(s.drop_last(), k);
            let i = choose|i: int| 0 <= i < s.drop_last().len() && (#[trigger] s.drop_last()[i]).0 == k;
            assert(s[i].0 == k);
        }
    }
}

proof fn lemma_store_map_at(s: Seq<(u64, Message)>, i: int)
    requires
        0 <= i < s.len(),
        forall|p: int, q: int| 0 <= p < q < s.len() ==> (#[trigger] s[p]).0 < (#[trigger] s[q]).0,
    ensures
        store_map(s).dom().contains(s[i].0),
        store_map(s)[s[i].0] == entry_key(s[i].0, s[i].1@),
    decreases s.len(),
{
    if i < s.len() - 1 {
        lemma_store_map_at(s.drop_last(), i);
        assert(s[i].0 < s.last().0);
    }
}

proof fn lemma_store_map_remove(s: Seq<(u64, Message)>, i: int)
    requires
        0 <= i < s.len(),
        forall|p: int, q: int| 0 <= p < q < s.len() ==> (#[trigger] s[p]).0 < (#[trigger] s[q]).0,
    ensures
        store_map(s.remove(i)) == store_map(s).remove(s[i].0),
    decreases s.len(),
{
    if i == s.len() - 1 {
        assert(s.remove(i) =~= s.drop_last());
        assert forall|p: int| 0 <= p < s.drop_last().len() implies (#[trigger] s.drop_last()[p]).0
            != s[i].0 by {
            assert(s[p].0 < s[i].0);
        }
        lemma_store_map_new_key(s.drop_last(), s[i].0);
        assert(store_map(s.drop_last()) =~= store_map(s).remove(s[i].0));
    } else {
        lemma_store_map_remove(s.drop_last(), i);
        assert(s.remove(i).drop_last() =~= s.drop_last().remove(i));
        assert(s.remove(i).last() == s.last());
        assert(s[i].0 < s.last().0);
        assert(store_map(s.remove(i)) =~= store_map(s).remove(s[i].0));
    }
}

/// The byte-accounted priority queue: the single shared context that
/// owns the queued messages and the counters that describe them.
pub struct ByteQueue {
    pq: Pq,
    store: Vec<(u64, Message)>,
    next_seq: u64,
    counters: Counters,
    inflight: Ghost<Seq<MessageModel>>,
}

impl View for ByteQueue {
    type V = Seq<MessageModel>;

    closed spec fn view(&self) -> Seq<MessageModel> {
        store_view(self.store@)
    }
}

impl ByteQueue {
    /// The current counter values.
    pub closed spec fn counters(&self) -> Counters {
        self.counters
    }

    /// The messages popped for delivery and not yet delivered or
    /// requeued.
    pub closed spec fn inflight(&self) -> Seq<MessageModel> {
        self.inflight@
    }

    /// How many sequence numbers have been handed out.
    pub closed spec fn seqs_used(&self) -> u64 {
        self.next_seq
    }

    /// A fresh sequence number is still available.
    pub open spec fn can_assign_seq(&self) -> bool {
        self.seqs_used() < u64::MAX
    }

    spec fn wf_store(&self) -> bool {
        let s = self.store@;
        &&& forall|p: int, q: int| 0 <= p < q < s.len() ==> (#[trigger] s[p]).0 < (#[trigger] s[q]).0
        &&& forall|i: int| 0 <= i < s.len() ==> (#[trigger] s[i]).0 < self.next_seq
        &&& pq_entries(self.pq) == store_map(s)
        &&& forall|i: int| 0 <= i < s.len() ==> (#[trigger] s[i]).1@.size_in_bytes >= 1
    }

    spec fn wf_counts(&self) -> bool {
        &&& forall|i: int|
            0 <= i < self.inflight@.len() ==> (#[trigger] self.inflight@[i]).size_in_bytes >= 1
        &&& self.counters.in_queue == self.store@.len() + self.inflight@.len()
        &&& self.counters.bytes == sum_sizes(store_view(self.store@)) + sum_sizes(self.inflight@)
    }

    /// The queue's invariant: the backing container mirrors the
    /// store, and the counters account exactly for the queued and
    /// in-flight messages.
    pub closed spec fn wf(&self) -> bool {
        self.wf_store() && self.wf_counts()
    }

    /// An empty queue with zeroed counters.
    pub fn new() -> (q: ByteQueue)
        ensures
            q.wf(),
            q@ == Seq::<MessageModel>::empty(),
            q.inflight() == Seq::<MessageModel>::empty(),
            q.seqs_used() == 0,
            q.counters() == (Counters {
                queue_requests: 0,
                proxy_requests: 0,
                queued: 0,
                proxied: 0,
                in_queue: 0,
                bytes: 0,
            }),
    {
        let q = ByteQueue {
            pq: pq_new(),
            store: Vec::new(),
            next_seq: 0,
            counters: Counters {
                queue_requests: 0,
                proxy_requests: 0,
                queued: 0,
                proxied: 0,
                in_queue: 0,
                bytes: 0,
            },
            inflight: Ghost(Seq::empty()),
        };
        proof {
            assert(q@ =~= Seq::<MessageModel>::empty());
        }
        q
    }

    /// The current counter values.
    pub fn stats(&self) -> (c: Counters)
        ensures
            c == self.counters(),
    {
        self.counters
    }

    /// How many messages are queued right now.
    pub fn queue_len(&self) -> (n: usize)
        ensures
            n == self@.len(),
    {
        self.store.len()
    }

    /// Whether a fresh sequence number is still available.
    pub fn has_seq_capacity(&self) -> (b: bool)
        ensures
            b == self.can_assign_seq(),
    {
        self.next_seq < u64::MAX
    }

    /// Append a message to the store and mirror it in the backing
    /// container; counters are left to the caller.
    fn push_raw(&mut self, m: Message)
        requires
            old(self).wf_store(),
            old(self).can_assign_seq(),
            m@.size_in_bytes >= 1,
        ensures
            final(self).wf_store(),
            final(self)@ == old(self)@.push(m@),
            final(self).store@ == old(self).store@.push((old(self).next_seq, m)),
            final(self).counters == old(self).counters,
            final(self).inflight@ == old(self).inflight@,
            final(self).next_seq == old(self).next_seq + 1,
    {
        let seq_no = self.next_seq;
        proof {
            if exists|i: int|
                0 <= i < self.store@.len() && (#[trigger] self.store@[i]).0 == seq_no {
                let i = choose|i: int|
                    0 <= i < self.store@.len() && (#[trigger] self.store@[i]).0 == seq_no;
                assert(false);
            }
            lemma_store_map_new_key(self.store@, seq_no);
        }
        let key = (m.priority, u64::MAX - seq_no);
        proof {
            assert(key == entry_key(seq_no, m@));
        }
        pq_push(&mut self.pq, seq_no, key);
        self.store.push((seq_no, m));
        self.next_seq = seq_no + 1;
        proof {
            let s = self.store@;
            assert(s.drop_last() =~= old(self).store@);
            assert(s.last() == (seq_no, m));
            assert(pq_entries(self.pq) == store_map(s));
            assert(self@ =~= old(self)@.push(m@));
        }
    }

    /// Count one admission request, accepted or not.
    pub(crate) fn tally_queue_request(&mut self)
        requires
            old(self).wf(),
        ensures
            final(self).wf(),
            final(self)@ == old(self)@,
            final(self).inflight() == old(self).inflight(),
            final(self).seqs_used() == old(self).seqs_used(),
            final(self).counters() == (Counters {
                queue_requests: spec_sat_inc(old(self).counters().queue_requests),
                ..old(self).counters()
            }),
    {
        self.counters.queue_requests = sat_inc(self.counters.queue_requests);
    }

    /// Admit a validated message: push it and charge the counters.
    pub(crate) fn push_admitted(&mut self, m: Message)
        requires
            old(self).wf(),
            old(self).can_assign_seq(),
            m@.size_in_bytes >= 1,
            old(self).counters().bytes + m@.size_in_bytes <= usize::MAX,
        ensures
            final(self).wf(),
            final(self)@ == old(self)@.push(m@),
            final(self).inflight() == old(self).inflight(),
            final(self).seqs_used() == old(self).seqs_used() + 1,
            final(self).counters() == (Counters {
                queued: spec_sat_inc(old(self).counters().queued),
                in_queue: (old(self).counters().in_queue + 1) as usize,
                bytes: (old(self).counters().bytes + m@.size_in_bytes) as usize,
                ..old(self).counters()
            }),
    {
        proof {
            lemma_count_le_sum(store_view(self.store@));
            lemma_count_le_sum(self.inflight@);
            lemma_sum_nonneg(store_view(self.store@));
            lemma_sum_nonneg(self.inflight@);
        }
        let size = m.size_in_bytes;
        self.push_raw(m);
        self.counters.queued = sat_inc(self.counters.queued);
        self.counters.in_queue = self.counters.in_queue + 1;
        self.counters.bytes = self.counters.bytes + size;
        proof {
            lemma_sum_push(store_view(old(self).store@), m@);
            assert(store_view(self.store@) =~= store_view(old(self).store@).push(m@));
        }
    }

    /// Remove and return the message that pops first, fixing up the
    /// store alone; counters are left to the caller.
    fn take_highest(&mut self) -> (r: Option<Message>)
        requires
            old(self).wf_store(),
        ensures
            final(self).wf_store(),
            final(self).counters == old(self).counters,
            final(self).inflight@ == old(self).inflight@,
            final(self).next_seq == old(self).next_seq,
            match r {
                None => old(self)@.len() == 0 && final(self)@ == old(self)@ && final(self).store@
                    == old(self).store@,
                Some(m) => exists|i: int|
                    {
                        &&& #[trigger] pops_first(old(self)@, i)
                        &&& m@ == old(self)@[i]
                        &&& final(self)@ == old(self)@.remove(i)
                        &&& final(self).store@ == old(self).store@.remove(i)
                    },
            },
    {
        match pq_pop(&mut self.pq) {
            None => {
                proof {
                    if self.store@.len() > 0 {
                        lemma_store_map_contains_index(self.store@, 0);
                    }
                }
                None
            },
            Some((seq_no, key)) => {
                proof {
                    lemma_store_map_member(old(self).store@, seq_no);
                }
                let ghost s = old(self).store@;
                let mut i: usize = 0;
                while i < self.store.len() && self.store[i].0 != seq_no
                    invariant
                        self.store@ == s,
                        0 <= i <= s.len(),
                        forall|j: int| 0 <= j < i ==> (#[trigger] s[j]).0 != seq_no,
                        exists|j: int| 0 <= j < s.len() && (#[trigger] s[j]).0 == seq_no,
                    decreases s.len() - i,
                {
                    i += 1;
                }
                proof {
                    let j = choose|j: int| 0 <= j < s.len() && (#[trigger] s[j]).0 == seq_no;
                    assert(i < s.len());
                    assert(s[i as int].0 == seq_no);
                }
                let (_, m) = self.store.remove(i);
                proof {
                    let idx = i as int;
                    lemma_store_map_remove(s, idx);
                    lemma_store_map_at(s, idx);
                    assert(key == entry_key(seq_no, m@));
                    assert(self@ =~= old(self)@.remove(idx));
                    // the popped entry owns the greatest key, so nothing
                    // outranks it and nothing older ties it
                    assert forall|j: int| 0 <= j < s.len() implies (#[trigger] old(
                        self,
                    )@[j]).priority <= m@.priority by {
                        lemma_store_map_at(s, j);
                        assert(key_le(entry_key(s[j].0, s[j].1@), key));
                    }
                    assert forall|j: int| 0 <= j < idx implies (#[trigger] old(self)@[j]).priority
                        < m@.priority by {
                        lemma_store_map_at(s, j);
                        assert(key_le(entry_key(s[j].0, s[j].1@), key));
                        assert(s[j].0 < s[idx].0);
                    }
                    assert(pops_first(old(self)@, idx));
                }
                Some(m)
            },
        }
    }

    /// Remove and return the highest-priority message, accounting it
    /// as delivered at once; the queue's answer to a fetch request.
    ///
    /// On an empty queue only the fetch-request tally moves.
    pub fn fetch(&mut self) -> (r: Option<Message>)
        requires
            old(self).wf(),
        ensures
            final(self).wf(),
            final(self).inflight() == old(self).inflight(),
            final(self).seqs_used() == old(self).seqs_used(),
            match r {
                None => {
                    &&& old(self)@.len() == 0
                    &&& final(self)@ == old(self)@
                    &&& final(self).counters() == (Counters {
                        proxy_requests: spec_sat_inc(old(self).counters().proxy_requests),
                        ..old(self).counters()
                    })
                },
                Some(m) => exists|i: int|
                    {
                        &&& #[trigger] pops_first(old(self)@, i)
                        &&& m@ == old(self)@[i]
                        &&& final(self)@ == old(self)@.remove(i)
                        &&& final(self).counters() == (Counters {
                            proxy_requests: spec_sat_inc(old(self).counters().proxy_requests),
                            proxied: spec_sat_inc(old(self).counters().proxied),
                            in_queue: (old(self).counters().in_queue - 1) as usize,
                            bytes: (old(self).counters().bytes - m@.size_in_bytes) as usize,
                            ..old(self).counters()
                        })
                    },
            },
    {
        self.counters.proxy_requests = sat_inc(self.counters.proxy_requests);
        match self.take_highest() {
            None => None,
            Some(m) => {
                proof {
                    let i = choose|i: int|
                        {
                            &&& #[trigger] pops_first(old(self)@, i)
                            &&& m@ == old(self)@[i]
                            &&& self@ == old(self)@.remove(i)
                            &&& self.store@ == old(self).store@.remove(i)
                        };
                    assert(store_view(self.store@) =~= store_view(old(self).store@).remove(i));
                    lemma_sum_remove(store_view(old(self).store@), i);
                    lemma_sum_nonneg(store_view(self.store@));
                    lemma_sum_nonneg(self.inflight@);
                }
                self.counters.proxied = sat_inc(self.counters.proxied);
                self.counters.in_queue = self.counters.in_queue - 1;
                self.counters.bytes = self.counters.bytes - m.size_in_bytes;
                Some(m)
            },
        }
    }

    /// Remove and return the highest-priority message for a delivery
    /// attempt. The message is recorded as in flight and stays
    /// charged against the counters until `record_delivered` or
    /// `requeue_failed` settles it.
    pub fn pop_for_delivery(&mut self) -> (r: Option<Message>)
        requires
            old(self).wf(),
        ensures
            final(self).wf(),
            final(self).counters() == old(self).counters(),
            final(self).seqs_used() == old(self).seqs_used(),
            match r {
                None => {
                    &&& old(self)@.len() == 0
                    &&& final(self)@ == old(self)@
                    &&& final(self).inflight() == old(self).inflight()
                },
                Some(m) => exists|i: int|
                    {
                        &&& #[trigger] pops_first(old(self)@, i)
                        &&& m@ == old(self)@[i]
                        &&& final(self)@ == old(self)@.remove(i)
                        &&& final(self).inflight() == old(self).inflight().push(m@)
                    },
            },
    {
        match self.take_highest() {
            None => None,
            Some(m) => {
                proof {
                    let i = choose|i: int|
                        {
                            &&& #[trigger] pops_first(old(self)@, i)
                            &&& m@ == old(self)@[i]
                            &&& self@ == old(self)@.remove(i)
                            &&& self.store@ == old(self).store@.remove(i)
                        };
                    assert(store_view(self.store@) =~= store_view(old(self).store@).remove(i));
                    lemma_sum_remove(store_view(old(self).store@), i);
                    lemma_sum_push(old(self).inflight@, m@);
                }
                self.inflight = Ghost(self.inflight@.push(m@));
                Some(m)
            },
        }
    }

    /// Settle a successful delivery: the in-flight message leaves the
    /// system and the counters release it.
    pub fn record_delivered(&mut self, m: &Message)
        requires
            old(self).wf(),
            old(self).inflight().contains(m@),
        ensures
            final(self).wf(),
            final(self)@ == old(self)@,
            final(self).seqs_used() == old(self).seqs_used(),
            exists|i: int|
                {
                    &&& 0 <= i < old(self).inflight().len()
                    &&& old(self).inflight()[i] == m@
                    &&& final(self).inflight() == old(self).inflight().remove(i)
                },
            final(self).counters() == (Counters {
                proxied: spec_sat_inc(old(self).counters().proxied),
                in_queue: (old(self).counters().in_queue - 1) as usize,
                bytes: (old(self).counters().bytes - m@.size_in_bytes) as usize,
                ..old(self).counters()
            }),
    {
        proof {
            let i = choose|i: int|
                0 <= i < self.inflight@.len() && #[trigger] self.inflight@[i] == m@;
            lemma_sum_remove(self.inflight@, i);
            lemma_sum_nonneg(self.inflight@.remove(i));
            lemma_sum_nonneg(store_view(self.store@));
            self.inflight = Ghost(self.inflight@.remove(i));
        }
        self.counters.proxied = sat_inc(self.counters.proxied);
        self.counters.in_queue = self.counters.in_queue - 1;
        self.counters.bytes = self.counters.bytes - m.size_in_bytes;
    }

    /// Settle a failed delivery: the in-flight message returns to the
    /// queue with its attempt counter grown by one and its priority
    /// unchanged; the counters do not move, since the message never
    /// stopped being charged.
    pub fn requeue_failed(&mut self, m: Message)
        requires
            old(self).wf(),
            old(self).inflight().contains(m@),
            m.delivery_attempts < usize::MAX,
            old(self).can_assign_seq(),
        ensures
            final(self).wf(),
            final(self)@ == old(self)@.push(retried(m@)),
            final(self).seqs_used() == old(self).seqs_used() + 1,
            final(self).counters() == old(self).counters(),
            exists|i: int|
                {
                    &&& 0 <= i < old(self).inflight().len()
                    &&& old(self).inflight()[i] == m@
                    &&& final(self).inflight() == old(self).inflight().remove(i)
                },
    {
        proof {
            let i = choose|i: int|
                0 <= i < self.inflight@.len() && #[trigger] self.inflight@[i] == m@;
            lemma_sum_remove(self.inflight@, i);
            self.inflight = Ghost(self.inflight@.remove(i));
        }
        let mut msg = m;
        msg.delivery_attempts = msg.delivery_attempts + 1;
        proof {
            assert(msg@ == retried(m@));
        }
        self.push_raw(msg);
        proof {
            lemma_sum_push(store_view(old(self).store@), msg@);
            assert(store_view(self.store@) =~= store_view(old(self).store@).push(msg@));
        }
    }
}

/// Priority ordering is deterministic: only one entry can pop first,
/// so the entry `fetch` and `pop_for_delivery` promise to return is
/// pinned — the highest priority wins, and the oldest entry wins
/// among equals.
pub proof fn lemma_pops_first_unique(s: Seq<MessageModel>, i: int, j: int)
    requires
        pops_first(s, i),
        pops_first(s, j),
    ensures
        i == j,
{
    if i < j {
        assert(s[i].priority < s[j].priority);
    }
    if j < i {
        assert(s[j].priority < s[i].priority);
    }
}

/// Accounting consistency: at any point where no delivery is in
/// flight, the `in_queue` counter equals the number of queued
/// messages and the `bytes` counter equals the sum of their sizes —
/// so after any run of admissions and settled deliveries the tallies
/// describe exactly the messages that remain.
pub proof fn lemma_accounting(q: ByteQueue)
    requires
        q.wf(),
        q.inflight().len() == 0,
    ensures
        q.counters().in_queue == q@.len(),
        q.counters().bytes == sum_sizes(q@),
{
    assert(q.inflight() =~= Seq::<MessageModel>::empty());
}

} // verus!
