//! Fixed-capacity byte ring with single-producer push and single-consumer
//! pop.
//!
//! The ring is a fixed-size array plus two indices. Each index runs over
//! `[0, 2 * capacity)` so that a full ring and an empty ring are told apart
//! without a separate length field: the producer advances `head`, the
//! consumer advances `tail`, and the occupied length is their distance
//! modulo `2 * capacity`. The capacity is a power of two. A slot index is
//! the logical index wrapped into `[0, capacity)`.
//!
//! `push_slice` copies as many bytes as fit into the free space and returns
//! the count, possibly zero; `pop_slice` is the analogue for the consumer.
//! Exactly one producer and one consumer may touch the ring at a time; the
//! transport guarantees that by ticket hand-off on the owner side and by
//! the worker being single-threaded.

use crate::spin::SpinWait;
use vstd::prelude::*;
use vstd::slice::slice_subrange;

verus! {

/// Whether `n` is a power of two.
pub open spec fn is_power_of_two(n: int) -> bool
    decreases n,
{
    if n <= 0 {
        false
    } else if n == 1 {
        true
    } else {
        n % 2 == 0 && is_power_of_two(n / 2)
    }
}

/// The slot holding the byte `off` places past physical index `start`, in a
/// ring of `cap` slots. Meaningful for `0 <= start < cap` and
/// `0 <= off <= cap`.
pub open spec fn slot_of(start: int, off: int, cap: int) -> int {
    if start + off >= cap {
        start + off - cap
    } else {
        start + off
    }
}

/// The logical offset from physical index `start` to slot `q`: the inverse
/// of `slot_of`. Meaningful for `0 <= start < cap` and `0 <= q < cap`.
pub open spec fn off_of(q: int, start: int, cap: int) -> int {
    if q >= start {
        q - start
    } else {
        q + cap - start
    }
}

/// `slot_of(start, _, cap)` and `off_of(_, start, cap)` are mutually
/// inverse bijections between logical offsets and slots.
pub proof fn lemma_slot_off_inverse(start: int, off: int, cap: int)
    requires
        0 <= start < cap,
        0 <= off < cap,
    ensures
        0 <= slot_of(start, off, cap) < cap,
        off_of(slot_of(start, off, cap), start, cap) == off,
{
}

/// Composing two wraps is a single wrap of the summed offset.
pub proof fn lemma_slot_compose(start: int, a: int, b: int, cap: int)
    requires
        0 <= start < cap,
        0 <= a,
        0 <= b,
        a + b < cap,
    ensures
        slot_of(slot_of(start, a, cap), b, cap) == slot_of(start, a + b, cap),
{
}

/// A single-producer single-consumer byte ring.
pub struct Ring {
    buf: Vec<u8>,
    /// Producer index in `[0, 2 * capacity)`; written only by the producer.
    head: usize,
    /// Consumer index in `[0, 2 * capacity)`; written only by the consumer.
    tail: usize,
}

impl View for Ring {
    type V = Seq<u8>;

    /// The occupied bytes, oldest first.
    closed spec fn view(&self) -> Seq<u8> {
        Seq::new(
            self.len_spec() as nat,
            |j: int| self.buf@[slot_of(self.tail_slot(), j, self.cap_spec())],
        )
    }
}

impl Ring {
    /// The ring's capacity in bytes.
    pub closed spec fn cap_spec(self) -> int {
        self.buf@.len() as int
    }

    /// The number of occupied bytes: the distance from `tail` to `head`
    /// modulo twice the capacity.
    pub closed spec fn len_spec(self) -> int {
        if self.head >= self.tail {
            self.head - self.tail
        } else {
            self.head + 2 * self.cap_spec() - self.tail
        }
    }

    /// The consumer index wrapped into `[0, capacity)`.
    closed spec fn tail_slot(self) -> int {
        if self.tail >= self.cap_spec() {
            self.tail - self.cap_spec()
        } else {
            self.tail as int
        }
    }

    /// The producer index wrapped into `[0, capacity)`.
    closed spec fn head_slot(self) -> int {
        if self.head >= self.cap_spec() {
            self.head - self.cap_spec()
        } else {
            self.head as int
        }
    }

    /// Well-formedness: the capacity is a positive power of two small
    /// enough for index arithmetic, both indices are in range, and the
    /// occupied length never exceeds the capacity.
    pub closed spec fn wf(self) -> bool {
        &&& 0 < self.cap_spec()
        &&& self.cap_spec() <= 0x1000_0000
        &&& is_power_of_two(self.cap_spec())
        &&& (self.head as int) < 2 * self.cap_spec()
        &&& (self.tail as int) < 2 * self.cap_spec()
        &&& 0 <= self.len_spec() <= self.cap_spec()
    }

    /// The producer's wrapped index sits exactly `len` places past the
    /// consumer's wrapped index.
    proof fn lemma_head_is_tail_plus_len(self)
        requires
            self.wf(),
        ensures
            self.head_slot() == slot_of(self.tail_slot(), self.len_spec(), self.cap_spec()),
    {
    }

    /// An empty ring of the given capacity.
    pub fn new(cap: usize) -> (r: Ring)
        requires
            0 < cap <= 0x1000_0000,
            is_power_of_two(cap as int),
        ensures
            r.wf(),
            r@ == Seq::<u8>::empty(),
            r.cap_spec() == cap as int,
    {
        let r = Ring { buf: vec![0u8; cap], head: 0, tail: 0 };
        proof {
            assert(r@ =~= Seq::<u8>::empty());
        }
        r
    }

    /// The capacity in bytes.
    pub fn capacity(&self) -> (c: usize)
        requires
            self.wf(),
        ensures
            c as int == self.cap_spec(),
    {
        self.buf.len()
    }

    /// The number of occupied bytes.
    pub fn len(&self) -> (n: usize)
        requires
            self.wf(),
        ensures
            n as int == self@.len(),
    {
        let cap = self.buf.len();
        if self.head >= self.tail {
            self.head - self.tail
        } else {
            self.head + 2 * cap - self.tail
        }
    }

    /// The number of free bytes.
    pub fn free(&self) -> (n: usize)
        requires
            self.wf(),
        ensures
            n as int == self.cap_spec() - self@.len(),
    {
        self.capacity() - self.len()
    }

    /// Whether no byte is occupied.
    pub fn is_empty(&self) -> (b: bool)
        requires
            self.wf(),
        ensures
            b == (self@.len() == 0),
    {
        self.head == self.tail
    }

    /// Producer push: copy the longest prefix of `src` that fits into the
    /// free space and return its length.
    pub fn push_slice(&mut self, src: &[u8]) -> (n: usize)
        requires
            old(self).wf(),
        ensures
            final(self).wf(),
            final(self).cap_spec() == old(self).cap_spec(),
            n as int == if src@.len() <= old(self).cap_spec() - old(self)@.len() {
                src@.len() as int
            } else {
                old(self).cap_spec() - old(self)@.len()
            },
            final(self)@ == old(self)@ + src@.take(n as int),
    {
        let ghost gold = *old(self);
        let ghost cap = self.cap_spec();
        let ghost t0 = self.tail_slot();
        let ghost oldlen = self@.len() as int;
        proof {
            gold.lemma_head_is_tail_plus_len();
        }

        let capacity = self.buf.len();
        let free = self.free();
        let n = if src.len() <= free {
            src.len()
        } else {
            free
        };

        // running physical write position, starting at the producer's slot
        let mut p: usize = if self.head >= capacity {
            self.head - capacity
        } else {
            self.head
        };

        let mut i: usize = 0;
        while i < n
            invariant
                gold.wf(),
                cap == gold.cap_spec(),
                t0 == gold.tail_slot(),
                oldlen == gold@.len(),
                n as int <= src@.len(),
                oldlen + n as int <= cap,
                0 <= i <= n,
                self.head == gold.head,
                self.tail == gold.tail,
                self.buf@.len() == cap,
                capacity as int == cap,
                p as int == slot_of(t0, oldlen + i, cap),
                forall|q: int|
                    0 <= q < cap ==> self.buf@[q] == if oldlen <= off_of(q, t0, cap) < oldlen
                        + i {
                        src@[off_of(q, t0, cap) - oldlen]
                    } else {
                        gold.buf@[q]
                    },
            decreases n - i,
        {
            proof {
                lemma_slot_off_inverse(t0, oldlen + i, cap);
            }
            self.buf[p] = src[i];
            p = if p + 1 == capacity {
                0
            } else {
                p + 1
            };
            i = i + 1;
        }

        // advance the producer index, wrapping modulo twice the capacity
        let mut nh = self.head + n;
        if nh >= 2 * capacity {
            nh = nh - 2 * capacity;
        }
        self.head = nh;

        proof {
            assert(self.len_spec() == oldlen + n);
            assert forall|j: int| 0 <= j < oldlen + n implies self.buf@[slot_of(t0, j, cap)] == (
            old(self)@ + src@.take(n as int))[j] by {
                lemma_slot_off_inverse(t0, j, cap);
            }
            assert(final(self)@ =~= old(self)@ + src@.take(n as int));
        }
        n
    }

    /// Producer push of a whole slice: repeat `push_slice` on what is
    /// left, backing off adaptively whenever no byte fit, until every byte
    /// is in the ring.
    ///
    /// Against a concurrent consumer the retries wait for room to appear;
    /// here, with the ring held exclusively, nobody drains it meanwhile,
    /// so the data must fit the free space outright.
    pub fn push_all(&mut self, src: &[u8])
        requires
            old(self).wf(),
            src@.len() <= old(self).cap_spec() - old(self)@.len(),
        ensures
            final(self).wf(),
            final(self).cap_spec() == old(self).cap_spec(),
            final(self)@ == old(self)@ + src@,
    {
        let ghost gold = *old(self);
        let total = src.len();
        let mut offset: usize = 0;
        let mut spin = SpinWait::new();
        while offset < total
            invariant
                gold.wf(),
                total == src@.len(),
                src@.len() <= gold.cap_spec() - gold@.len(),
                0 <= offset <= total,
                self.wf(),
                self.cap_spec() == gold.cap_spec(),
                self@ == gold@ + src@.take(offset as int),
                spin.wf(),
            decreases total - offset,
        {
            let rest = slice_subrange(src, offset, total);
            let n = self.push_slice(rest);
            if n == 0 {
                spin.spin();
            } else {
                spin.reset();
            }
            proof {
                assert(n == total - offset);
                assert((gold@ + src@.take(offset as int)) + rest@.take(n as int) =~= gold@
                    + src@.take(offset as int + n as int));
            }
            offset = offset + n;
        }
        proof {
            assert(src@.take(total as int) =~= src@);
        }
    }

    /// Consumer pop: overwrite the longest prefix of `dst` that the
    /// occupied bytes cover, remove those bytes, and return the count.
    pub fn pop_slice(&mut self, dst: &mut Vec<u8>) -> (n: usize)
        requires
            old(self).wf(),
        ensures
            final(self).wf(),
            final(self).cap_spec() == old(self).cap_spec(),
            n as int == if old(dst)@.len() <= old(self)@.len() {
                old(dst)@.len() as int
            } else {
                old(self)@.len() as int
            },
            final(self)@ == old(self)@.skip(n as int),
            final(dst)@ == old(self)@.take(n as int) + old(dst)@.skip(n as int),
    {
        let ghost gold = *old(self);
        let ghost cap = self.cap_spec();
        let ghost t0 = self.tail_slot();
        let ghost oldlen = self@.len() as int;
        let ghost dold = old(dst)@;

        let capacity = self.buf.len();
        let len = self.len();
        let n = if dst.len() <= len {
            dst.len()
        } else {
            len
        };

        // running physical read position, starting at the consumer's slot
        let mut p: usize = if self.tail >= capacity {
            self.tail - capacity
        } else {
            self.tail
        };

        let mut i: usize = 0;
        while i < n
            invariant
                gold.wf(),
                cap == gold.cap_spec(),
                t0 == gold.tail_slot(),
                oldlen == gold@.len(),
                n as int <= oldlen,
                n as int <= dold.len(),
                0 <= i <= n,
                *self == gold,
                dst@.len() == dold.len(),
                capacity as int == cap,
                p as int == slot_of(t0, i as int, cap),
                forall|j: int| 0 <= j < i ==> dst@[j] == gold@[j],
                forall|j: int| i <= j < dold.len() ==> dst@[j] == dold[j],
            decreases n - i,
        {
            proof {
                lemma_slot_off_inverse(t0, i as int, cap);
            }
            dst[i] = self.buf[p];
            p = if p + 1 == capacity {
                0
            } else {
                p + 1
            };
            i = i + 1;
        }

        // advance the consumer index, wrapping modulo twice the capacity
        let mut nt = self.tail + n;
        if nt >= 2 * capacity {
            nt = nt - 2 * capacity;
        }
        self.tail = nt;

        proof {
            assert(self.len_spec() == oldlen - n);
            assert forall|j: int| 0 <= j < oldlen - n implies self.buf@[slot_of(
                self.tail_slot(),
                j,
                cap,
            )] == old(self)@.skip(n as int)[j] by {
                lemma_slot_compose(t0, n as int, j, cap);
            }
            assert(final(self)@ =~= old(self)@.skip(n as int));
            assert(final(dst)@ =~= old(self)@.take(n as int) + old(dst)@.skip(n as int));
        }
        n
    }
}

} // verus!
