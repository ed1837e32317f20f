//! Whole exchanges over an idle pipe, both ends held in one process.
//!
//! These compositions drive one request through the owner's send phase,
//! the worker's framed read, the worker's response write, and the owner's
//! receive phase, and state end to end what the transport promises: the
//! worker observes exactly the request bytes, and the owner receives
//! exactly the reply bytes. What the worker computes from a request is
//! external business logic, so the reply is a parameter here; an echoing
//! worker is the classic instance.

use crate::frame::lemma_header_round_trip;
use crate::frame::spec_frame;
use crate::frame::spec_header;
use crate::frame::FRAME_HEADER_LEN;
use crate::owner::wrapping_inc;
use crate::owner::OwnedRequester;
use crate::region::RawSharedMemPipe;
use crate::region::FROM_WORKER_LEN;
use crate::region::TO_WORKER_LEN;
use crate::region::USE_EVENTFD_ON_RESPONSE;
use crate::worker::spec_header_value;
use crate::worker::OwnedResponder;
use vstd::prelude::*;

verus! {

/// An idle transport: no frame underway in either ring, no request
/// outstanding, no response wakeup pending, nobody waiting for a turn,
/// and the next ticket to serve is the next to be drawn.
pub open spec fn pipe_idle(
    requester: OwnedRequester,
    responder: OwnedResponder,
    region: RawSharedMemPipe,
) -> bool {
    &&& requester.wf()
    &&& requester.next == requester.producer
    &&& requester.waiting@ == Seq::<(u32, u64)>::empty()
    &&& responder.remaining is None
    &&& region.wf()
    &&& region.to_worker@.len() == 0
    &&& region.from_worker@.len() == 0
    &&& region.to_worker_waiters == 0
    &&& region.notify_owner.count() == 0
}

/// One request/response exchange: the owner sends `req`, the worker reads
/// the frame into `observed`, answers with `reply`, and the owner reads
/// the response into `resp`. Round-trip identity is the contract: the
/// worker observes `req` exactly, and the owner receives `reply` exactly,
/// under the ticket the request drew.
pub fn round_trip(
    requester: &mut OwnedRequester,
    responder: &mut OwnedResponder,
    region: &mut RawSharedMemPipe,
    req: &[u8],
    reply: &[u8],
    observed: &mut Vec<u8>,
    resp: &mut Vec<u8>,
) -> (id: u32)
    requires
        pipe_idle(*old(requester), *old(responder), *old(region)),
        1 <= req@.len(),
        FRAME_HEADER_LEN + req@.len() <= TO_WORKER_LEN,
        reply@.len() <= FROM_WORKER_LEN,
        old(observed)@.len() == req@.len(),
        old(resp)@.len() == reply@.len(),
        old(region).notify_worker.count() < u64::MAX,
        old(region).notify_worker.posts() < u64::MAX,
        old(region).notify_owner.posts() < u64::MAX,
    ensures
        pipe_idle(*final(requester), *final(responder), *final(region)),
        id == old(requester).producer,
        final(requester).producer == wrapping_inc(old(requester).producer),
        final(requester).next == wrapping_inc(old(requester).next),
        final(observed)@ == req@,
        final(resp)@ == reply@,
        final(region).notify_worker.posts() == old(region).notify_worker.posts() + 1,
        final(region).notify_owner.posts() == old(region).notify_owner.posts() + (
        if USE_EVENTFD_ON_RESPONSE {
            1int
        } else {
            0int
        }),
        final(region).notify_worker.count() == old(region).notify_worker.count() + 1,
        final(region).magic == old(region).magic,
        final(region).participants == old(region).participants,
{
    let ghost len32 = req@.len() as u32;
    proof {
        lemma_header_round_trip(len32);
    }

    // owner, send phase: frame and enqueue the request
    let id = requester.send_request(region, req);
    proof {
        assert(region.to_worker@ =~= spec_frame(req@));
        assert(region.to_worker@.take(FRAME_HEADER_LEN as int) =~= spec_header(len32));
        assert(spec_header_value(region.to_worker@) == len32 as u64);
    }

    // worker: read the frame length, then the whole payload
    let flen = match responder.read_next_frame_len(region) {
        Ok(l) => l,
        Err(_) => {
            proof {
                assert(false);
            }
            0
        },
    };
    proof {
        assert(flen as int == req@.len());
        assert(region.to_worker@ =~= req@);
    }
    let n = responder.read_exact(region, observed);
    proof {
        assert(n as int == req@.len());
        assert(observed@ =~= req@);
        assert(region.to_worker@ =~= Seq::<u8>::empty());
    }

    // worker: stream the reply back and release the request
    let m = responder.write_all(region, reply);
    proof {
        assert(m as int == reply@.len());
        assert(region.from_worker@ =~= reply@);
    }

    // owner, receive phase: our ticket is already the one being served
    requester.recv_response(id, region, resp);
    proof {
        assert(resp@ =~= reply@);
        assert(region.from_worker@ =~= Seq::<u8>::empty());
    }

    // owner, hand-off phase: nobody waits, so nobody is woken
    let wake = requester.finish_turn(id);
    proof {
        assert(wake is None);
    }
    id
}

/// A burst: one owner thread issues `rounds` back-to-back exchanges, each
/// completing before the next. The wakeup economy over the whole burst is
/// pinned down: `notify_worker` is posted exactly once per request — never
/// more — and `notify_owner` exactly once per response.
pub fn issue_back_to_back(
    requester: &mut OwnedRequester,
    responder: &mut OwnedResponder,
    region: &mut RawSharedMemPipe,
    req: &[u8],
    reply: &[u8],
    observed: &mut Vec<u8>,
    resp: &mut Vec<u8>,
    rounds: u32,
)
    requires
        pipe_idle(*old(requester), *old(responder), *old(region)),
        1 <= req@.len(),
        FRAME_HEADER_LEN + req@.len() <= TO_WORKER_LEN,
        reply@.len() <= FROM_WORKER_LEN,
        old(observed)@.len() == req@.len(),
        old(resp)@.len() == reply@.len(),
        old(region).notify_worker.count() + rounds < u64::MAX,
        old(region).notify_worker.posts() + rounds < u64::MAX,
        old(region).notify_owner.posts() + rounds < u64::MAX,
    ensures
        pipe_idle(*final(requester), *final(responder), *final(region)),
        final(region).notify_worker.posts() == old(region).notify_worker.posts() + rounds,
        final(region).notify_owner.posts() == old(region).notify_owner.posts() + (
        if USE_EVENTFD_ON_RESPONSE {
            rounds as int
        } else {
            0int
        }),
        rounds > 0 ==> final(observed)@ == req@,
        rounds > 0 ==> final(resp)@ == reply@,
{
    let mut i: u32 = 0;
    while i < rounds
        invariant
            pipe_idle(*requester, *responder, *region),
            1 <= req@.len(),
            FRAME_HEADER_LEN + req@.len() <= TO_WORKER_LEN,
            reply@.len() <= FROM_WORKER_LEN,
            observed@.len() == req@.len(),
            resp@.len() == reply@.len(),
            0 <= i <= rounds,
            region.notify_worker.count() == old(region).notify_worker.count() + i,
            region.notify_worker.posts() == old(region).notify_worker.posts() + i,
            region.notify_owner.posts() == old(region).notify_owner.posts() + (
            if USE_EVENTFD_ON_RESPONSE {
                i as int
            } else {
                0int
            }),
            old(region).notify_worker.count() + rounds < u64::MAX,
            old(region).notify_worker.posts() + rounds < u64::MAX,
            old(region).notify_owner.posts() + rounds < u64::MAX,
            i > 0 ==> observed@ == req@,
            i > 0 ==> resp@ == reply@,
        decreases rounds - i,
    {
        round_trip(requester, responder, region, req, reply, observed, resp);
        i = i + 1;
    }
}

} // verus!
