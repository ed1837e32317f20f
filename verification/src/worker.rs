//! The worker side: a single-threaded responder that drains framed
//! requests from the to-worker ring and streams response bytes back.
//!
//! The worker keeps one piece of state: the current frame, as the pair of
//! its full length and the bytes of it not yet drained, or nothing when
//! the next header is still to be read. The receive path may sleep only
//! while reading a header, and only when no request is outstanding; once
//! the owner has accounted a request in `to_worker_waiters`, the worker
//! must not block indefinitely.

use crate::frame::decode_header;
use crate::frame::ProtocolViolation;
use crate::frame::FRAME_HEADER_LEN;
use crate::region::RawSharedMemPipe;
use crate::region::FROM_WORKER_LEN;
use crate::region::USE_EVENTFD_ON_RESPONSE;
use vstd::bytes::spec_u64_from_le_bytes;
use vstd::math::min;
use vstd::prelude::*;

verus! {

/// The 64-bit value carried by the header at the front of the ring.
pub open spec fn spec_header_value(ring: Seq<u8>) -> u64 {
    spec_u64_from_le_bytes(ring.take(FRAME_HEADER_LEN as int))
}

/// The worker-side handle.
pub struct OwnedResponder {
    /// The current frame: its full length and how much of it remains to
    /// be drained; nothing while no frame is in progress.
    pub remaining: Option<(u32, u32)>,
}

impl RawSharedMemPipe {
    /// Claim the worker role: compare-and-swap this process's id into
    /// participant slot 1. Fails, changing nothing, when the slot is
    /// already occupied.
    pub fn try_acquire_responder(&mut self, pid: u32) -> (r: Option<OwnedResponder>)
        requires
            pid != 0,
        ensures
            old(self).participants@[1] == 0 ==> (r matches Some(w) && w.remaining is None),
            old(self).participants@[1] == 0 ==> final(self).participants@ == old(
                self,
            ).participants@.update(1, pid),
            old(self).participants@[1] != 0 ==> (r is None && final(self).participants@ == old(
                self,
            ).participants@),
            final(self).magic == old(self).magic,
            final(self).notify_worker == old(self).notify_worker,
            final(self).notify_owner == old(self).notify_owner,
            final(self).to_worker_waiters == old(self).to_worker_waiters,
            final(self).to_worker == old(self).to_worker,
            final(self).from_worker == old(self).from_worker,
    {
        if self.participants[1] == 0 {
            self.participants = [self.participants[0], pid];
            proof {
                assert(final(self).participants@ =~= old(self).participants@.update(1, pid));
            }
            Some(OwnedResponder { remaining: None })
        } else {
            None
        }
    }
}

/// The sleep gate: the worker may go to sleep awaiting a header only
/// while no request is outstanding. As soon as an owner thread has
/// accounted its request, this turns false and the worker must keep
/// polling.
pub fn may_sleep(region: &RawSharedMemPipe) -> (b: bool)
    ensures
        b == (region.to_worker_waiters == 0),
{
    region.to_worker_waiters == 0
}

/// One receive step against the to-worker ring: read at most `limit`
/// bytes into the front of `buf`, demanding more than `read_more_than` of
/// them.
///
/// Against a producer still streaming, this polls with adaptive backoff
/// until enough bytes have arrived, sleeping at most once — and only if
/// `can_wait` and [`may_sleep`] allow it. Here the demanded bytes must
/// already be in flight, which is also what lets a single pop finish the
/// call without ever reaching the sleep gate.
pub fn recv(
    region: &mut RawSharedMemPipe,
    buf: &mut Vec<u8>,
    limit: usize,
    read_more_than: usize,
    can_wait: bool,
) -> (n: usize)
    requires
        old(region).wf(),
        limit <= old(buf)@.len(),
        read_more_than < limit,
        old(region).to_worker@.len() > read_more_than,
    ensures
        final(region).wf(),
        n == min(limit as int, old(region).to_worker@.len() as int),
        n > read_more_than,
        final(buf)@.len() == old(buf)@.len(),
        final(buf)@ == old(region).to_worker@.take(n as int) + old(buf)@.skip(n as int),
        final(region).to_worker@ == old(region).to_worker@.skip(n as int),
        final(region).to_worker.cap_spec() == old(region).to_worker.cap_spec(),
        final(region).from_worker == old(region).from_worker,
        final(region).notify_worker == old(region).notify_worker,
        final(region).notify_owner == old(region).notify_owner,
        final(region).to_worker_waiters == old(region).to_worker_waiters,
        final(region).magic == old(region).magic,
        final(region).participants == old(region).participants,
{
    let ghost ring0 = region.to_worker@;
    let mut tmp: Vec<u8> = vec![0u8; limit];
    let n = region.to_worker.pop_slice(&mut tmp);

    let mut i: usize = 0;
    while i < n
        invariant
            n <= limit <= buf@.len(),
            n <= tmp@.len(),
            0 <= i <= n,
            buf@.len() == old(buf)@.len(),
            forall|j: int| 0 <= j < i ==> buf@[j] == tmp@[j],
            forall|j: int| i <= j < buf@.len() ==> buf@[j] == old(buf)@[j],
        decreases n - i,
    {
        buf[i] = tmp[i];
        i = i + 1;
    }
    proof {
        assert forall|j: int| 0 <= j < n implies tmp@[j] == ring0[j] by {
            assert(tmp@[j] == ring0.take(n as int)[j]);
        }
        assert(buf@ =~= ring0.take(n as int) + old(buf)@.skip(n as int));
    }
    n
}

impl OwnedResponder {
    /// Whether the header at the front of the ring would be refused: only
    /// meaningful while no frame is in progress.
    pub open spec fn header_corrupt(self, ring0: Seq<u8>) -> bool {
        self.remaining is None && spec_header_value(ring0) > u32::MAX
    }

    /// The frame in effect after the header step: the current one, or the
    /// one the front of the ring announces.
    pub open spec fn frame_after_header(self, ring0: Seq<u8>) -> (u32, u32) {
        match self.remaining {
            Some(p) => p,
            None => (spec_header_value(ring0) as u32, spec_header_value(ring0) as u32),
        }
    }

    /// The ring contents after the header step: unchanged when a frame is
    /// already in progress, eight bytes shorter otherwise.
    pub open spec fn ring_after_header(self, ring0: Seq<u8>) -> Seq<u8> {
        match self.remaining {
            Some(_) => ring0,
            None => ring0.skip(FRAME_HEADER_LEN as int),
        }
    }

    /// Read the next frame's length. While a frame is in progress this
    /// refuses with the undrained byte count and changes nothing.
    /// Otherwise it drains the eight header bytes — the one receive that
    /// is allowed to sleep — and refuses a header whose upper four bytes
    /// are nonzero: the canary for a corrupted writer.
    pub fn read_next_frame_len(&mut self, region: &mut RawSharedMemPipe) -> (r: Result<
        u32,
        ProtocolViolation,
    >)
        requires
            old(region).wf(),
            old(self).remaining is None ==> old(region).to_worker@.len() >= FRAME_HEADER_LEN,
        ensures
            final(region).wf(),
            old(self).remaining matches Some((len, rem)) ==> (r == Err::<u32, ProtocolViolation>(
                ProtocolViolation::FrameInProgress(rem),
            ) && *final(self) == *old(self) && final(region).to_worker@ == old(region).to_worker@),
            old(self).remaining is None ==> {
                let v = spec_header_value(old(region).to_worker@);
                &&& final(region).to_worker@ == old(region).to_worker@.skip(
                    FRAME_HEADER_LEN as int,
                )
                &&& (v <= u32::MAX) ==> (r == Ok::<u32, ProtocolViolation>(v as u32)
                    && final(self).remaining == Some((v as u32, v as u32)))
                &&& (v > u32::MAX) ==> (r == Err::<u32, ProtocolViolation>(
                    ProtocolViolation::CorruptFrameLength(v),
                ) && final(self).remaining is None)
            },
            final(region).to_worker.cap_spec() == old(region).to_worker.cap_spec(),
            final(region).from_worker == old(region).from_worker,
            final(region).notify_worker == old(region).notify_worker,
            final(region).notify_owner == old(region).notify_owner,
            final(region).to_worker_waiters == old(region).to_worker_waiters,
            final(region).magic == old(region).magic,
            final(region).participants == old(region).participants,
    {
        match self.remaining {
            Some((_len, rem)) => Err(ProtocolViolation::FrameInProgress(rem)),
            None => {
                let mut raw: Vec<u8> = vec![0u8; FRAME_HEADER_LEN];
                let n = recv(region, &mut raw, FRAME_HEADER_LEN, FRAME_HEADER_LEN - 1, true);
                proof {
                    assert(n == FRAME_HEADER_LEN);
                    assert(raw@ =~= old(region).to_worker@.take(FRAME_HEADER_LEN as int));
                }
                match decode_header(raw.as_slice()) {
                    Ok(len) => {
                        self.remaining = Some((len, len));
                        Ok(len)
                    },
                    Err(e) => Err(e),
                }
            },
        }
    }

    /// Read payload bytes. Without a frame in progress, first drain the
    /// next header as [`read_next_frame_len`] does. Then copy at most
    /// `buf`'s length and at most the frame's undrained count from the
    /// ring into the front of `buf`, account the drained bytes, and clear
    /// the frame once its last byte is out. An empty `buf` drains nothing
    /// beyond the header.
    pub fn read(&mut self, region: &mut RawSharedMemPipe, buf: &mut Vec<u8>) -> (r: Result<
        usize,
        ProtocolViolation,
    >)
        requires
            old(region).wf(),
            old(self).remaining is None ==> old(region).to_worker@.len() >= FRAME_HEADER_LEN,
            (!old(self).header_corrupt(old(region).to_worker@) && old(buf)@.len() > 0) ==> {
                let f = old(self).frame_after_header(old(region).to_worker@);
                f.1 > 0 && old(self).ring_after_header(old(region).to_worker@).len() > 0
            },
        ensures
            final(region).wf(),
            ({
                let ring0 = old(region).to_worker@;
                let f = old(self).frame_after_header(ring0);
                let ringa = old(self).ring_after_header(ring0);
                if old(self).header_corrupt(ring0) {
                    &&& r == Err::<usize, ProtocolViolation>(
                        ProtocolViolation::CorruptFrameLength(spec_header_value(ring0)),
                    )
                    &&& final(self).remaining is None
                    &&& final(region).to_worker@ == ring0.skip(FRAME_HEADER_LEN as int)
                    &&& final(buf)@ == old(buf)@
                } else if old(buf)@.len() == 0 {
                    &&& r == Ok::<usize, ProtocolViolation>(0)
                    &&& final(self).remaining == Some(f)
                    &&& final(region).to_worker@ == ringa
                    &&& final(buf)@ == old(buf)@
                } else {
                    let n = min(min(old(buf)@.len() as int, f.1 as int), ringa.len() as int);
                    &&& r == Ok::<usize, ProtocolViolation>(n as usize)
                    &&& n >= 1
                    &&& final(buf)@ == ringa.take(n) + old(buf)@.skip(n)
                    &&& final(region).to_worker@ == ringa.skip(n)
                    &&& final(self).remaining == (if n < f.1 {
                        Some((f.0, (f.1 - n) as u32))
                    } else {
                        None
                    })
                }
            }),
            final(buf)@.len() == old(buf)@.len(),
            final(region).to_worker.cap_spec() == old(region).to_worker.cap_spec(),
            final(region).from_worker == old(region).from_worker,
            final(region).notify_worker == old(region).notify_worker,
            final(region).notify_owner == old(region).notify_owner,
            final(region).to_worker_waiters == old(region).to_worker_waiters,
            final(region).magic == old(region).magic,
            final(region).participants == old(region).participants,
    {
        if self.remaining.is_none() {
            let mut raw: Vec<u8> = vec![0u8; FRAME_HEADER_LEN];
            let n = recv(region, &mut raw, FRAME_HEADER_LEN, FRAME_HEADER_LEN - 1, true);
            proof {
                assert(n == FRAME_HEADER_LEN);
                assert(raw@ =~= old(region).to_worker@.take(FRAME_HEADER_LEN as int));
            }
            match decode_header(raw.as_slice()) {
                Ok(len) => {
                    self.remaining = Some((len, len));
                },
                Err(e) => {
                    return Err(e);
                },
            }
        }
        if buf.len() == 0 {
            return Ok(0);
        }
        if let Some((len, rem)) = self.remaining {
            let allowed = buf.len();
            let want = if allowed <= rem as usize {
                allowed
            } else {
                rem as usize
            };
            let n = recv(region, buf, want, 0, false);
            let left = rem - n as u32;
            if left == 0 {
                self.remaining = None;
            } else {
                self.remaining = Some((len, left));
            }
            Ok(n)
        } else {
            proof {
                assert(false);
            }
            Ok(0)
        }
    }

    /// Read the current frame's undrained bytes, all of them, into the
    /// front of `buf`, and clear the frame. The caller knows a frame is
    /// in progress and brings a buffer at least that large.
    pub fn read_exact(&mut self, region: &mut RawSharedMemPipe, buf: &mut Vec<u8>) -> (n: usize)
        requires
            old(region).wf(),
            old(self).remaining matches Some((len, rem)) && 0 < rem && rem as int <= old(
                buf,
            )@.len() && rem as int <= old(region).to_worker@.len(),
        ensures
            final(region).wf(),
            ({
                let rem = old(self).remaining->Some_0.1 as int;
                &&& n == rem
                &&& final(buf)@ == old(region).to_worker@.take(rem) + old(buf)@.skip(rem)
                &&& final(region).to_worker@ == old(region).to_worker@.skip(rem)
                &&& final(self).remaining is None
            }),
            final(buf)@.len() == old(buf)@.len(),
            final(region).to_worker.cap_spec() == old(region).to_worker.cap_spec(),
            final(region).from_worker == old(region).from_worker,
            final(region).notify_worker == old(region).notify_worker,
            final(region).notify_owner == old(region).notify_owner,
            final(region).to_worker_waiters == old(region).to_worker_waiters,
            final(region).magic == old(region).magic,
            final(region).participants == old(region).participants,
    {
        if let Some((_len, rem)) = self.remaining {
            let n = recv(region, buf, rem as usize, rem as usize - 1, false);
            proof {
                assert(n == rem as int);
            }
            self.remaining = None;
            n
        } else {
            proof {
                assert(false);
            }
            0
        }
    }

    /// Write a whole response into the from-worker ring, then post
    /// `notify_owner` once and only then release the request from
    /// `to_worker_waiters`: a response reader asleep on `notify_owner`
    /// must be woken before the request stops being accounted as
    /// outstanding, or the sleep gate could let the worker doze off while
    /// the owner still waits.
    pub fn write_all(&self, region: &mut RawSharedMemPipe, buf: &[u8]) -> (n: usize)
        requires
            old(region).wf(),
            buf@.len() <= FROM_WORKER_LEN - old(region).from_worker@.len(),
            old(region).to_worker_waiters > 0,
            old(region).notify_owner.count() < u64::MAX,
            old(region).notify_owner.posts() < u64::MAX,
        ensures
            final(region).wf(),
            n == buf@.len(),
            final(region).from_worker@ == old(region).from_worker@ + buf@,
            final(region).from_worker.cap_spec() == old(region).from_worker.cap_spec(),
            final(region).notify_owner.posts() == old(region).notify_owner.posts() + (
            if USE_EVENTFD_ON_RESPONSE {
                1int
            } else {
                0int
            }),
            final(region).notify_owner.count() == old(region).notify_owner.count() + (
            if USE_EVENTFD_ON_RESPONSE {
                1int
            } else {
                0int
            }),
            final(region).to_worker_waiters == old(region).to_worker_waiters - 1,
            final(region).to_worker == old(region).to_worker,
            final(region).notify_worker == old(region).notify_worker,
            final(region).magic == old(region).magic,
            final(region).participants == old(region).participants,
    {
        let len = buf.len();
        region.from_worker.push_all(buf);
        if USE_EVENTFD_ON_RESPONSE {
            region.notify_owner.post();
        }
        // only after the post: allow the sleep gate to see no request
        region.to_worker_waiters = region.to_worker_waiters - 1;
        len
    }
}

} // verus!
