//! Model of the counting cross-process wakeup primitive.
//!
//! The region holds two such objects, one per direction, backed in a
//! running system by semaphore-mode event file descriptors that the owner
//! creates and the worker inherits. `post` increments the counter and
//! wakes one waiter; `wait` blocks until the counter is positive and
//! decrements it. This model keeps the counter as a plain value, so `wait`
//! demands an available count instead of blocking; it also tallies the
//! posts ever made, which is what the wakeup-economy contracts speak of.

use vstd::prelude::*;

verus! {

/// A counting wakeup object: one counted post wakes exactly one waiter.
pub struct Semaphore {
    count: u64,
    posts: u64,
}

impl Semaphore {
    /// The current counter value.
    pub closed spec fn count(self) -> u64 {
        self.count
    }

    /// How many times `post` has been called over the object's life.
    pub closed spec fn posts(self) -> u64 {
        self.posts
    }

    /// A fresh semaphore with a zero counter.
    pub fn new() -> (s: Semaphore)
        ensures
            s.count() == 0,
            s.posts() == 0,
    {
        Semaphore { count: 0, posts: 0 }
    }

    /// The counter as a value: how many posts are not yet consumed.
    pub fn available(&self) -> (c: u64)
        ensures
            c == self.count(),
    {
        self.count
    }

    /// The post tally as a value.
    pub fn posts_made(&self) -> (p: u64)
        ensures
            p == self.posts(),
    {
        self.posts
    }

    /// Increment the counter, waking one waiter if any.
    pub fn post(&mut self)
        requires
            old(self).count() < u64::MAX,
            old(self).posts() < u64::MAX,
        ensures
            final(self).count() == old(self).count() + 1,
            final(self).posts() == old(self).posts() + 1,
    {
        self.count = self.count + 1;
        self.posts = self.posts + 1;
    }

    /// Decrement the counter. The real primitive blocks until the counter
    /// is positive; the model demands that instead.
    pub fn wait(&mut self)
        requires
            old(self).count() > 0,
        ensures
            final(self).count() == old(self).count() - 1,
            final(self).posts() == old(self).posts(),
    {
        self.count = self.count - 1;
    }
}

} // verus!
