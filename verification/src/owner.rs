//! The owner side: framing and enqueueing requests from many threads, and
//! serializing response reads by issue order.
//!
//! Two concerns are guarded separately. The producer lock covers the
//! monotonic ticket counter together with exclusive use of the to-worker
//! ring's producer end, so the ticket order equals the order the requests
//! entered the ring. The consumer lock covers the next-ticket-to-serve
//! value and the wakeup queue; the from-worker ring's consumer end is
//! protected indirectly, by only the thread whose ticket is due reading
//! it. This model keeps the guarded state as plain fields, which is what
//! the locked code reads and writes.

use crate::frame::encode_header;
use crate::frame::spec_frame;
use crate::frame::FRAME_HEADER_LEN;
use crate::order::spec_unpark_front;
use crate::order::UnparkInOrder;
use crate::region::RawSharedMemPipe;
use crate::region::TO_WORKER_LEN;
use crate::region::USE_EVENTFD_ON_RESPONSE;
use vstd::prelude::*;

verus! {

/// The successor of a ticket: tickets are monotonic modulo `2^32`.
pub open spec fn wrapping_inc(x: u32) -> u32 {
    if x == u32::MAX {
        0
    } else {
        (x + 1) as u32
    }
}

/// `x` wrapped into `[0, 2^32)`, for `x` below `2^33`.
pub open spec fn wrap32(x: int) -> int {
    if x < 0x1_0000_0000 {
        x
    } else {
        x - 0x1_0000_0000
    }
}

/// The tickets that `k` successive requests draw from a counter that
/// starts at `c0`.
pub open spec fn spec_tickets(c0: u32, k: nat) -> Seq<u32> {
    Seq::new(k, |i: int| wrap32(c0 + i) as u32)
}

/// The owner-side handle: requests are framed and enqueued from many
/// threads; responses are read back strictly in ticket order.
pub struct OwnedRequester {
    /// The ticket counter: the next ticket to assign. Guarded by the
    /// producer lock.
    pub producer: u32,
    /// The next ticket to be served a response. Written only by the
    /// thread being served.
    pub next: u32,
    /// Threads parked until their ticket comes up. Guarded by the
    /// consumer lock.
    pub waiting: UnparkInOrder,
}

impl RawSharedMemPipe {
    /// Claim the owner role: compare-and-swap this process's id into
    /// participant slot 0. Fails, changing nothing, when the slot is
    /// already occupied.
    pub fn try_acquire_requester(&mut self, pid: u32) -> (r: Option<OwnedRequester>)
        requires
            pid != 0,
        ensures
            old(self).participants@[0] == 0 ==> (r matches Some(q) && q.producer == 0 && q.next
                == 0 && q.waiting@ == Seq::<(u32, u64)>::empty() && q.wf()),
            old(self).participants@[0] == 0 ==> final(self).participants@ == old(
                self,
            ).participants@.update(0, pid),
            old(self).participants@[0] != 0 ==> (r is None && final(self).participants@ == old(
                self,
            ).participants@),
            final(self).magic == old(self).magic,
            final(self).notify_worker == old(self).notify_worker,
            final(self).notify_owner == old(self).notify_owner,
            final(self).to_worker_waiters == old(self).to_worker_waiters,
            final(self).to_worker == old(self).to_worker,
            final(self).from_worker == old(self).from_worker,
    {
        if self.participants[0] == 0 {
            self.participants = [pid, self.participants[1]];
            proof {
                assert(final(self).participants@ =~= old(self).participants@.update(0, pid));
            }
            Some(OwnedRequester { producer: 0, next: 0, waiting: UnparkInOrder::new() })
        } else {
            None
        }
    }
}

impl OwnedRequester {
    /// The wakeup queue is well formed.
    pub open spec fn wf(self) -> bool {
        self.waiting.wf()
    }

    /// Send phase: under the producer lock, account the request as
    /// outstanding, draw a ticket, and stream the length header and the
    /// payload into the to-worker ring as two separate pushes — the
    /// worker relies on the header being complete before the payload, and
    /// a writer that batches the two across push completions has
    /// historically corrupted the header. After the lock would be
    /// released, post `notify_worker` once if the request found no other
    /// outstanding; a worker that was allowed to sleep is woken by it,
    /// and bursts wake at most once per request.
    pub fn send_request(&mut self, region: &mut RawSharedMemPipe, req: &[u8]) -> (id: u32)
        requires
            old(self).wf(),
            old(region).wf(),
            req@.len() <= u32::MAX,
            FRAME_HEADER_LEN + req@.len() <= TO_WORKER_LEN - old(region).to_worker@.len(),
            old(region).to_worker_waiters < u32::MAX,
            old(region).notify_worker.count() < u64::MAX,
            old(region).notify_worker.posts() < u64::MAX,
        ensures
            final(self).wf(),
            final(region).wf(),
            id == old(self).producer,
            final(self).producer == wrapping_inc(old(self).producer),
            final(self).next == old(self).next,
            final(self).waiting == old(self).waiting,
            final(region).to_worker@ == old(region).to_worker@ + spec_frame(req@),
            final(region).to_worker.cap_spec() == old(region).to_worker.cap_spec(),
            final(region).to_worker_waiters == old(region).to_worker_waiters + 1,
            final(region).notify_worker.posts() == old(region).notify_worker.posts() + (if old(
                region,
            ).to_worker_waiters == 0 {
                1int
            } else {
                0int
            }),
            final(region).notify_worker.count() == old(region).notify_worker.count() + (if old(
                region,
            ).to_worker_waiters == 0 {
                1int
            } else {
                0int
            }),
            final(region).from_worker == old(region).from_worker,
            final(region).notify_owner == old(region).notify_owner,
            final(region).magic == old(region).magic,
            final(region).participants == old(region).participants,
    {
        // the pre-increment value zero means the worker might be asleep
        let might_wait = region.to_worker_waiters == 0;
        region.to_worker_waiters = region.to_worker_waiters + 1;

        let id = self.producer;
        self.producer = self.producer.wrapping_add(1);
        proof {
            assert(self.producer == wrapping_inc(id));
        }

        let header = encode_header(req.len() as u32);
        region.to_worker.push_all(header.as_slice());
        region.to_worker.push_all(req);
        proof {
            assert(region.to_worker@ =~= old(region).to_worker@ + spec_frame(req@));
        }

        if might_wait {
            region.notify_worker.post();
        }
        id
    }

    /// Receive phase: the thread whose ticket is due sleeps once on
    /// `notify_owner` until the worker has posted a response, then drains
    /// exactly the expected number of bytes from the from-worker ring
    /// into the caller's buffer. Responses carry no length on the wire;
    /// the buffer's length is the out-of-band expected length.
    pub fn recv_response(&self, id: u32, region: &mut RawSharedMemPipe, resp: &mut Vec<u8>)
        requires
            self.next == id,
            old(region).wf(),
            old(resp)@.len() <= old(region).from_worker@.len(),
            USE_EVENTFD_ON_RESPONSE ==> old(region).notify_owner.count() > 0,
        ensures
            final(region).wf(),
            final(resp)@.len() == old(resp)@.len(),
            final(resp)@ == old(region).from_worker@.take(old(resp)@.len() as int),
            final(region).from_worker@ == old(region).from_worker@.skip(old(resp)@.len() as int),
            final(region).from_worker.cap_spec() == old(region).from_worker.cap_spec(),
            final(region).notify_owner.count() == old(region).notify_owner.count() - (
            if USE_EVENTFD_ON_RESPONSE {
                1int
            } else {
                0int
            }),
            final(region).notify_owner.posts() == old(region).notify_owner.posts(),
            final(region).notify_worker == old(region).notify_worker,
            final(region).to_worker == old(region).to_worker,
            final(region).to_worker_waiters == old(region).to_worker_waiters,
            final(region).magic == old(region).magic,
            final(region).participants == old(region).participants,
    {
        if USE_EVENTFD_ON_RESPONSE {
            region.notify_owner.wait();
        }
        let n = region.from_worker.pop_slice(resp);
        proof {
            assert(n == old(resp)@.len());
            assert(resp@ =~= old(region).from_worker@.take(old(resp)@.len() as int));
        }
    }

    /// Hand-off phase: the served thread advances the next ticket to
    /// serve and names the thread to wake, if the queue's front already
    /// waits under the new ticket. Nobody is named when that thread has
    /// not arrived at the queue yet; it will find `next` already equal to
    /// its ticket and not park.
    pub fn finish_turn(&mut self, id: u32) -> (wake: Option<u64>)
        requires
            old(self).wf(),
            old(self).next == id,
        ensures
            final(self).wf(),
            final(self).next == wrapping_inc(id),
            final(self).producer == old(self).producer,
            final(self).waiting == old(self).waiting,
            wake == spec_unpark_front(old(self).waiting@, wrapping_inc(id)),
    {
        let prev = self.next;
        self.next = self.next.wrapping_add(1);
        proof {
            assert(self.next == wrapping_inc(prev));
        }
        self.waiting.unpark_front(self.next)
    }

    /// A whole request/response exchange in the uncontended case: send
    /// the framed request, observe that the drawn ticket is already the
    /// next to serve — no other request is in flight — read the response,
    /// and advance the turn.
    ///
    /// Under contention the phases interleave with other threads: a
    /// thread whose ticket is not yet due parks itself on the wakeup
    /// queue between the send and receive phases, and the hand-off wakes
    /// the next ticket's thread.
    pub fn request_response(&mut self, region: &mut RawSharedMemPipe, req: &[u8], resp: &mut Vec<
        u8,
    >) -> (id: u32)
        requires
            old(self).wf(),
            old(self).next == old(self).producer,
            old(self).waiting@ == Seq::<(u32, u64)>::empty(),
            old(region).wf(),
            req@.len() <= u32::MAX,
            FRAME_HEADER_LEN + req@.len() <= TO_WORKER_LEN - old(region).to_worker@.len(),
            old(region).to_worker_waiters < u32::MAX,
            old(region).notify_worker.count() < u64::MAX,
            old(region).notify_worker.posts() < u64::MAX,
            old(resp)@.len() <= old(region).from_worker@.len(),
            USE_EVENTFD_ON_RESPONSE ==> old(region).notify_owner.count() > 0,
        ensures
            final(self).wf(),
            final(region).wf(),
            id == old(self).producer,
            final(self).producer == wrapping_inc(old(self).producer),
            final(self).next == wrapping_inc(old(self).next),
            final(self).waiting@ == old(self).waiting@,
            final(region).to_worker@ == old(region).to_worker@ + spec_frame(req@),
            final(region).to_worker_waiters == old(region).to_worker_waiters + 1,
            final(region).notify_worker.posts() == old(region).notify_worker.posts() + (if old(
                region,
            ).to_worker_waiters == 0 {
                1int
            } else {
                0int
            }),
            final(resp)@.len() == old(resp)@.len(),
            final(resp)@ == old(region).from_worker@.take(old(resp)@.len() as int),
            final(region).from_worker@ == old(region).from_worker@.skip(old(resp)@.len() as int),
            final(region).notify_owner.posts() == old(region).notify_owner.posts(),
            final(region).magic == old(region).magic,
            final(region).participants == old(region).participants,
    {
        let id = self.send_request(region, req);

        // wait-for-turn phase: with nothing else in flight, the ticket we
        // drew is already the one being served, so there is no parking
        let next = self.next;
        assert(next == id);

        self.recv_response(id, region, resp);

        let wake = self.finish_turn(id);
        proof {
            assert(wake is None);
        }
        id
    }
}

/// Order preservation: the tickets that `k` successive requests draw from
/// a counter starting at `c0` are consecutive modulo `2^32` — each the
/// successor of the one before — and, for up to `2^32` requests, pairwise
/// distinct.
pub proof fn lemma_ticket_sequence(c0: u32, k: nat)
    requires
        k <= 0x1_0000_0000,
    ensures
        spec_tickets(c0, k).len() == k,
        k > 0 ==> spec_tickets(c0, k)[0] == c0,
        forall|i: int|
            0 <= i < k - 1 ==> spec_tickets(c0, k)[i + 1] == wrapping_inc(
                #[trigger] spec_tickets(c0, k)[i],
            ),
        forall|i: int, j: int| 0 <= i < j < k ==> spec_tickets(c0, k)[i] != spec_tickets(c0, k)[j],
{
}

/// With the counter starting at zero — as a fresh owner handle does — the
/// first `k` requests draw exactly the tickets `0, 1, ..., k - 1`: every
/// ticket below `k` is drawn once and only once.
pub proof fn lemma_tickets_from_zero(k: nat)
    requires
        k <= 0x1_0000_0000,
    ensures
        forall|i: int| 0 <= i < k ==> #[trigger] spec_tickets(0, k)[i] == i,
{
}

} // verus!
