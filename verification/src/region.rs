//! The shared region and its lifecycle.
//!
//! The region is one fixed-layout record that both processes map: a magic
//! word for the readiness handshake, the two wakeup objects, the two
//! participant slots, the outstanding-request counter, and the two rings.
//! The owner creates the region and publishes `MAGIC_READY` last; a worker
//! attaches by polling the magic; on teardown the owner stores
//! `MAGIC_TOMBSTONE` so a late attacher cannot adopt a dying region.
//!
//! In a running system the record lives in a POSIX shared-memory object
//! and its scalar fields are atomics; this module models it as a plain
//! value, which is what the transport's logic reads and writes.

use crate::ring::is_power_of_two;
use crate::ring::Ring;
use crate::sem::Semaphore;
use vstd::prelude::*;

verus! {

/// Magic value while the creator is still initializing the record.
pub const MAGIC_INITIALIZING: u32 = 0x0000_0000;

/// Magic value once the record is ready for a worker to attach.
pub const MAGIC_READY: u32 = 0xcafe_babe;

/// Magic value stored on teardown.
pub const MAGIC_TOMBSTONE: u32 = 0xffff_ffff;

/// Capacity of the to-worker ring in bytes.
pub const TO_WORKER_LEN: usize = 32 * 4096;

/// Capacity of the from-worker ring in bytes.
pub const FROM_WORKER_LEN: usize = 4 * 4096;

/// Whether the owner sleeps on `notify_owner` once before spinning for the
/// response bytes. Busier waiting would be faster for a single thread, but
/// sleeping helps as soon as more than one owner thread competes.
pub const USE_EVENTFD_ON_RESPONSE: bool = true;

/// Stage marker for a region that is mapped but not yet initialized or
/// checked.
pub struct MMapped;

/// Stage marker for a region created and initialized by this process,
/// which therefore owns teardown.
pub struct Created;

/// Stage marker for a region attached to after another process created it.
pub struct Joined;

/// The shared record: everything the two processes exchange.
pub struct RawSharedMemPipe {
    /// Readiness handshake word; see the `MAGIC_*` values.
    pub magic: u32,
    /// Wakeup object the owner posts to rouse a worker sleeping for
    /// requests.
    pub notify_worker: Semaphore,
    /// Wakeup object the worker posts when a response is ready.
    pub notify_owner: Semaphore,
    /// Process ids of the participants: index 0 the owner, index 1 the
    /// worker. Zero means unoccupied.
    pub participants: [u32; 2],
    /// Number of requests queued to the worker and not yet fully
    /// responded to. While it is nonzero the worker must not sleep.
    pub to_worker_waiters: u32,
    /// Request ring, owner to worker.
    pub to_worker: Ring,
    /// Response ring, worker to owner.
    pub from_worker: Ring,
}

/// Why an attach failed.
#[derive(Debug, Clone, Copy, PartialEq, Eq, Structural)]
pub enum AttachError {
    /// The magic never left `MAGIC_INITIALIZING` within the poll budget.
    NotInitialized,
    /// The magic held this value, which is neither initializing nor
    /// ready; in particular the tombstone lands here.
    UnknownMagic(u32),
}

/// What one observation of the magic word tells an attaching worker.
#[derive(Debug, Clone, Copy, PartialEq, Eq, Structural)]
pub enum MagicCheck {
    /// The region is ready; attach succeeds now.
    Ready,
    /// The creator has not published yet; poll again shortly.
    Initializing,
    /// Any other value: the region is unusable, give up at once.
    Unknown,
}

impl RawSharedMemPipe {
    /// Both rings are well formed and have their fixed capacities.
    pub open spec fn wf(self) -> bool {
        &&& self.to_worker.wf()
        &&& self.to_worker.cap_spec() == TO_WORKER_LEN as int
        &&& self.from_worker.wf()
        &&& self.from_worker.cap_spec() == FROM_WORKER_LEN as int
    }
}

/// Build a ready region: both participant slots unoccupied, no request
/// outstanding, both rings empty, both wakeup counters zero, and the magic
/// published as ready.
///
/// The in-place initialization over a fresh mapping writes every other
/// field under `MAGIC_INITIALIZING` and publishes `MAGIC_READY` only as
/// its last store, so an attacher that reads the ready magic finds all of
/// this established.
pub fn create() -> (r: RawSharedMemPipe)
    ensures
        r.wf(),
        r.magic == MAGIC_READY,
        r.participants@ == seq![0u32, 0u32],
        r.to_worker_waiters == 0,
        r.to_worker@ == Seq::<u8>::empty(),
        r.from_worker@ == Seq::<u8>::empty(),
        r.notify_worker.count() == 0,
        r.notify_worker.posts() == 0,
        r.notify_owner.count() == 0,
        r.notify_owner.posts() == 0,
{
    proof {
        reveal_with_fuel(is_power_of_two, 20);
        assert(is_power_of_two(TO_WORKER_LEN as int));
        assert(is_power_of_two(FROM_WORKER_LEN as int));
    }
    let r = RawSharedMemPipe {
        magic: MAGIC_READY,
        notify_worker: Semaphore::new(),
        notify_owner: Semaphore::new(),
        participants: [0u32, 0u32],
        to_worker_waiters: 0,
        to_worker: Ring::new(TO_WORKER_LEN),
        from_worker: Ring::new(FROM_WORKER_LEN),
    };
    proof {
        assert(r.participants@ =~= seq![0u32, 0u32]);
    }
    r
}

/// Classify one observation of the magic word during attach.
pub fn check_magic(observed: u32) -> (r: MagicCheck)
    ensures
        (r == MagicCheck::Ready) <==> (observed == MAGIC_READY),
        (r == MagicCheck::Initializing) <==> (observed == MAGIC_INITIALIZING),
        (r == MagicCheck::Unknown) <==> (observed != MAGIC_READY && observed
            != MAGIC_INITIALIZING),
{
    if observed == MAGIC_READY {
        MagicCheck::Ready
    } else if observed == MAGIC_INITIALIZING {
        MagicCheck::Initializing
    } else {
        MagicCheck::Unknown
    }
}

/// Decide an attach against a region whose magic no longer changes: ready
/// succeeds, a still-initializing magic means the creator never published
/// within the poll budget, and anything else is refused outright.
///
/// The attach path of a running system polls a changing magic up to a
/// thousand times at millisecond intervals, classifying each observation
/// with [`check_magic`]; this is its outcome once the polling is over.
pub fn join_initialized(region: &RawSharedMemPipe) -> (r: Result<(), AttachError>)
    ensures
        (r == Ok::<(), AttachError>(())) <==> (region.magic == MAGIC_READY),
        region.magic == MAGIC_INITIALIZING ==> r == Err::<(), AttachError>(
            AttachError::NotInitialized,
        ),
        (region.magic != MAGIC_READY && region.magic != MAGIC_INITIALIZING) ==> r == Err::<
            (),
            AttachError,
        >(AttachError::UnknownMagic(region.magic)),
{
    match check_magic(region.magic) {
        MagicCheck::Ready => Ok(()),
        MagicCheck::Initializing => Err(AttachError::NotInitialized),
        MagicCheck::Unknown => Err(AttachError::UnknownMagic(region.magic)),
    }
}

impl RawSharedMemPipe {
    /// Tombstone the region. Only the owner does this, as its last store
    /// before it closes the wakeup objects and unmaps; the worker never
    /// writes the magic on exit.
    pub fn tombstone(&mut self)
        ensures
            final(self).magic == MAGIC_TOMBSTONE,
            final(self).notify_worker == old(self).notify_worker,
            final(self).notify_owner == old(self).notify_owner,
            final(self).participants == old(self).participants,
            final(self).to_worker_waiters == old(self).to_worker_waiters,
            final(self).to_worker == old(self).to_worker,
            final(self).from_worker == old(self).from_worker,
    {
        self.magic = MAGIC_TOMBSTONE;
    }
}

} // verus!
