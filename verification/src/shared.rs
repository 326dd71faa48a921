//! The memory that the application and the kernel share.
use crate::entry::Cqe;
use crate::flags::{holds, sq_flags_contain};
use crate::index::{advance, lemma_wrapping_add};
use vstd::prelude::*;

verus! {

/// What the shared memory of a ring holds.
///
/// The kernel writes the head and the flags of the submission queue, and the
/// tail and the entries of the completion queue. The rest is written by the
/// application. Whoever owns the mapping carries what either side wrote over to
/// the other.
#[derive(Debug)]
pub struct Ioring {
    pub sq_head: u32,
    pub sq_tail: u32,
    pub sq_flags: u32,
    pub sq_array: Vec<u32>,
    pub cq_head: u32,
    pub cq_tail: u32,
    pub cqes: Vec<Cqe>,
}

impl Ioring {
    /// The position up to which the kernel has consumed submissions.
    pub fn sq_head(&self) -> (res: u32)
        ensures
            res == self.sq_head,
    {
        self.sq_head
    }

    /// The position up to which the kernel may consume submissions.
    pub fn sq_tail(&self) -> (res: u32)
        ensures
            res == self.sq_tail,
    {
        self.sq_tail
    }

    /// Lets the kernel consume submissions up to `new_tail`.
    pub fn sq_tail_write(&mut self, new_tail: u32)
        ensures
            *final(self) == (Ioring { sq_tail: new_tail, ..*old(self) }),
    {
        self.sq_tail = new_tail;
    }

    /// Whether the kernel has set all of `flag` on the submission queue.
    pub fn sq_flag_contains(&self, flag: u32) -> (res: bool)
        ensures
            res == holds(self.sq_flags, flag),
    {
        sq_flags_contain(self.sq_flags, flag)
    }

    /// The position up to which the application has consumed completions.
    pub fn cq_head(&self) -> (res: u32)
        ensures
            res == self.cq_head,
    {
        self.cq_head
    }

    /// The position up to which the kernel has posted completions.
    pub fn cq_tail(&self) -> (res: u32)
        ensures
            res == self.cq_tail,
    {
        self.cq_tail
    }

    /// Gives the slots of the next `count` completions back to the kernel.
    pub fn cq_advance(&mut self, count: u32)
        ensures
            *final(self) == (Ioring {
                cq_head: advance(old(self).cq_head, count as int),
                ..*old(self)
            }),
    {
        proof {
            lemma_wrapping_add(self.cq_head, count);
        }
        self.cq_head = self.cq_head.wrapping_add(count);
    }
}

} // verus!
