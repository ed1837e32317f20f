//! The priority wakeup queue that serializes response reads.
//!
//! Tickets are assigned under the owner's producer lock, but threads may
//! reach the wait-for-turn phase out of order: one of them can be
//! preempted between releasing the producer lock and taking the consumer
//! lock. A queue keyed on the ticket restores the service order regardless
//! of arrival order: the entry with the least ticket is always at the
//! front, and the thread whose ticket equals the next one to serve is the
//! one woken.
//!
//! A waiting thread is recorded as a plain 64-bit token. Turning a token
//! back into an OS thread handle to unpark, and the parking itself, happen
//! outside this queue.

use vstd::prelude::*;
use vstd::seq_lib::lemma_multiset_commutative;

verus! {

/// An entry per ticket, ascending by ticket from the front.
pub open spec fn sorted_by_ticket(s: Seq<(u32, u64)>) -> bool {
    forall|i: int, j: int| 0 <= i < j < s.len() ==> s[i].0 <= s[j].0
}

/// The thread to wake for `turn`: the front entry's thread when the front
/// entry holds that ticket, and nobody otherwise — its owner may simply
/// not have arrived at the queue yet.
pub open spec fn spec_unpark_front(s: Seq<(u32, u64)>, turn: u32) -> Option<u64> {
    if s.len() > 0 && s[0].0 == turn {
        Some(s[0].1)
    } else {
        None
    }
}

/// Waiting owner threads, each under the ticket it awaits.
pub struct UnparkInOrder {
    entries: Vec<(u32, u64)>,
}

impl View for UnparkInOrder {
    type V = Seq<(u32, u64)>;

    /// The waiting entries, front first.
    closed spec fn view(&self) -> Seq<(u32, u64)> {
        self.entries@
    }
}

/// Inserting an element anywhere in a sequence adds exactly it to the
/// sequence's multiset.
proof fn lemma_insert_to_multiset(s: Seq<(u32, u64)>, i: int, e: (u32, u64))
    requires
        0 <= i <= s.len(),
    ensures
        s.insert(i, e).to_multiset() == s.to_multiset().insert(e),
{
    let a = s.subrange(0, i);
    let b = s.subrange(i, s.len() as int);
    assert(s =~= a + b);
    lemma_multiset_commutative(a, b);
    lemma_multiset_commutative(a.push(e), b);
    a.to_multiset_ensures();
    assert(s.insert(i, e).to_multiset() =~= s.to_multiset().insert(e));
}

impl Default for UnparkInOrder {
    /// An empty queue.
    fn default() -> (q: UnparkInOrder)
        ensures
            q.wf(),
            q@ == Seq::<(u32, u64)>::empty(),
    {
        UnparkInOrder::new()
    }
}

impl UnparkInOrder {
    /// Entries are sorted ascending by ticket.
    pub open spec fn wf(self) -> bool {
        sorted_by_ticket(self@)
    }

    /// An empty queue.
    pub fn new() -> (q: UnparkInOrder)
        ensures
            q.wf(),
            q@ == Seq::<(u32, u64)>::empty(),
    {
        let q = UnparkInOrder { entries: Vec::new() };
        proof {
            assert(q@ =~= Seq::<(u32, u64)>::empty());
        }
        q
    }

    /// Record the calling thread as waiting for ticket `id`.
    pub fn store_current(&mut self, id: u32, thread: u64)
        requires
            old(self).wf(),
        ensures
            final(self).wf(),
            final(self)@.len() == old(self)@.len() + 1,
            final(self)@.to_multiset() == old(self)@.to_multiset().insert((id, thread)),
    {
        let ghost s = self@;
        let ghost e = (id, thread);
        let mut idx: usize = 0;
        while idx < self.entries.len() && self.entries[idx].0 <= id
            invariant
                self@ == s,
                0 <= idx <= s.len(),
                forall|k: int| 0 <= k < idx ==> s[k].0 <= id,
            decreases s.len() - idx,
        {
            idx = idx + 1;
        }
        let ghost pos = idx as int;
        self.entries.insert(idx, (id, thread));
        proof {
            assert(pos == s.len() || s[pos].0 > id);
            assert(self@ == s.insert(pos, e));
            s.insert_ensures(pos, e);
            lemma_insert_to_multiset(s, pos, e);
            let t = s.insert(pos, e);
            assert forall|i: int, j: int| 0 <= i < j < t.len() implies t[i].0 <= t[j].0 by {
                if j < pos {
                    assert(t[i] == s[i] && t[j] == s[j]);
                } else if i < pos && j == pos {
                    assert(t[i] == s[i] && t[j] == e);
                } else if i < pos {
                    assert(t[i] == s[i] && t[j] == s[j - 1]);
                    assert(pos <= j - 1 < s.len());
                    if pos < j - 1 {
                        assert(s[pos].0 <= s[j - 1].0);
                    }
                } else if i == pos {
                    assert(t[i] == e && t[j] == s[j - 1]);
                    assert(pos <= j - 1 < s.len());
                    if pos < s.len() {
                        assert(s[pos].0 <= s[j - 1].0);
                    }
                } else {
                    assert(t[i] == s[i - 1] && t[j] == s[j - 1]);
                }
            }
        }
    }

    /// Whether the front entry is exactly the given ticket held by the
    /// given thread.
    pub fn current_is_front(&self, expected_id: u32, thread: u64) -> (b: bool)
        ensures
            b == (self@.len() > 0 && self@[0] == (expected_id, thread)),
    {
        if self.entries.len() == 0 {
            false
        } else {
            let front = self.entries[0];
            front.0 == expected_id && front.1 == thread
        }
    }

    /// Remove the front entry, which must be the given ticket held by the
    /// given thread: a thread pops only itself, right after being served.
    pub fn pop_front(&mut self, expected_id: u32, thread: u64)
        requires
            old(self).wf(),
            old(self)@.len() > 0,
            old(self)@[0] == (expected_id, thread),
        ensures
            final(self).wf(),
            final(self)@ == old(self)@.subrange(1, old(self)@.len() as int),
    {
        self.entries.remove(0);
        proof {
            assert(final(self)@ =~= old(self)@.subrange(1, old(self)@.len() as int));
        }
    }

    /// The thread to wake once `turn` becomes the next ticket to serve:
    /// the front thread when its ticket is `turn`, nobody otherwise.
    pub fn unpark_front(&self, turn: u32) -> (r: Option<u64>)
        ensures
            r == spec_unpark_front(self@, turn),
    {
        if self.entries.len() == 0 {
            None
        } else {
            let front = self.entries[0];
            if front.0 == turn {
                Some(front.1)
            } else {
                None
            }
        }
    }
}

/// Fairness of the wakeup queue: however stores and wakes interleaved,
/// when some thread waits under the ticket now due — and no entry waits
/// under an already-served ticket, and no two entries share a ticket —
/// that thread, and no other, is the one `unpark_front` wakes.
pub proof fn lemma_unpark_fairness(q: UnparkInOrder, turn: u32, thread: u64)
    requires
        q.wf(),
        q@.contains((turn, thread)),
        forall|i: int| 0 <= i < q@.len() ==> (#[trigger] q@[i]).0 >= turn,
        forall|i: int, j: int| 0 <= i < j < q@.len() ==> q@[i].0 != q@[j].0,
    ensures
        spec_unpark_front(q@, turn) == Some(thread),
{
    let k = choose|k: int| 0 <= k < q@.len() && q@[k] == (turn, thread);
    if k > 0 {
        assert(q@[0].0 <= q@[k].0);
        assert(q@[0].0 >= turn);
        assert(q@[0].0 != q@[k].0);
        assert(false);
    }
}

} // verus!
