//! The ring itself: a submission queue and a completion queue.
use crate::entry::{Cqe, Sqe};
use crate::err::GetSqe;
use crate::flags::{
    enter_flags_set, holds, setup_flags_contain, IORING_ENTER_GETEVENTS, IORING_ENTER_SQ_WAKEUP,
    IORING_SETUP_IOPOLL, IORING_SETUP_SQPOLL, IORING_SQ_CQ_OVERFLOW, IORING_SQ_NEED_WAKEUP,
};
use crate::index::{
    advance, distance, lemma_advance_distance, lemma_mask_is_slot, lemma_slot_advance,
    lemma_slot_from_slot, lemma_slot_in_ring, lemma_wrapping_add, lemma_wrapping_sub,
    power_of_two, slot,
};
use crate::request::{CopyCqe, CopyCqes, Enter, Submit};
use crate::shared::Ioring;
use rustix::io::Errno;
use vstd::prelude::*;

verus! {

/// The application's side of the submission queue.
///
/// We use `sqe_head` and `sqe_tail` in the same way as liburing: we increment
/// `sqe_tail` for each entry handed out, and move the shared tail there only
/// when the entries are actually submitted. This amortizes the cost of the
/// store to the shared tail across multiple entries.
#[derive(Debug)]
pub struct SubmissionQueue {
    pub sqes: Vec<Sqe>,
    pub entries: u32,
    pub mask: u32,
    pub sqe_head: u32,
    pub sqe_tail: u32,
}

/// The application's side of the completion queue.
#[derive(Debug)]
pub struct CompletionQueue {
    pub mask: u32,
    pub entries: u32,
}

/// The main entry point to the library.
#[derive(Debug)]
pub struct IoUring {
    pub fd: i32,
    pub shared: Ioring,
    pub flags: u32,
    pub features: u32,
    pub sq: SubmissionQueue,
    pub cq: CompletionQueue,
}

/// The index array after `n` entries were added to it: the entry that lies `i`
/// steps after `head` is announced at the position `i` steps after `tail`.
pub open spec fn announced(array: Seq<u32>, tail: u32, head: u32, entries: u32, n: nat) -> Seq<u32>
    decreases n,
{
    if n == 0 {
        array
    } else {
        let i = n - 1;
        announced(array, tail, head, entries, i as nat).update(
            slot(tail, i, entries as int),
            slot(head, i, entries as int) as u32,
        )
    }
}

/// The flags of an `io_uring_enter` call that wakes the submission thread if
/// `wakeup`, and waits for completions if `getevents`.
pub open spec fn enter_flags(wakeup: bool, getevents: bool) -> u32 {
    match (wakeup, getevents) {
        (false, false) => 0,
        (false, true) => IORING_ENTER_GETEVENTS,
        (true, false) => IORING_ENTER_SQ_WAKEUP,
        (true, true) => 3,
    }
}

impl IoUring {
    /// Both queues have a power of two as their size, with the mask and the
    /// memory that belong to it.
    pub open spec fn wf(&self) -> bool {
        &&& power_of_two(self.sq.entries as int)
        &&& self.sq.mask == self.sq.entries - 1
        &&& self.sq.sqes@.len() == self.sq.entries
        &&& self.shared.sq_array@.len() == self.sq.entries
        &&& power_of_two(self.cq.entries as int)
        &&& self.cq.mask == self.cq.entries - 1
        &&& self.shared.cqes@.len() == self.cq.entries
    }

    /// What holds of a well-formed ring as long as the kernel consumes no more
    /// than was submitted and posts no more than there is room for: no queue
    /// holds more than its size, and what was announced to the kernel are the
    /// oldest pending entries, in order.
    pub open spec fn consistent(&self) -> bool {
        &&& self.wf()
        &&& self.shared.sq_tail == self.sq.sqe_head
        &&& distance(self.shared.sq_head, self.sq.sqe_head) <= distance(
            self.shared.sq_head,
            self.sq.sqe_tail,
        ) <= self.sq.entries
        &&& forall|i: int|
            0 <= i < distance(self.shared.sq_head, self.shared.sq_tail)
                ==> self.shared.sq_array@[#[trigger] slot(
                self.shared.sq_head,
                i,
                self.sq.entries as int,
            )] == slot(self.shared.sq_head, i, self.sq.entries as int)
        &&& distance(self.shared.cq_head, self.shared.cq_tail) <= self.cq.entries
    }

    /// The submission queue: the entries that were handed out and that the
    /// kernel is yet to consume, oldest first.
    pub open spec fn pending(&self) -> Seq<Sqe> {
        Seq::new(
            distance(self.shared.sq_head, self.sq.sqe_tail),
            |i: int| self.sq.sqes@[slot(self.shared.sq_head, i, self.sq.entries as int)],
        )
    }

    /// What the kernel finds in the submission queue: the entries that the index
    /// array lists between the shared head and the shared tail.
    pub open spec fn submitted(&self) -> Seq<Sqe> {
        Seq::new(
            distance(self.shared.sq_head, self.shared.sq_tail),
            |i: int|
                self.sq.sqes@[self.shared.sq_array@[slot(
                    self.shared.sq_head,
                    i,
                    self.sq.entries as int,
                )] as int],
        )
    }

    /// The completion queue: the completions that the application is yet to
    /// consume, oldest first.
    pub open spec fn completions(&self) -> Seq<Cqe> {
        Seq::new(
            distance(self.shared.cq_head, self.shared.cq_tail),
            |i: int| self.shared.cqes@[slot(self.shared.cq_head, i, self.cq.entries as int)],
        )
    }

    /// No entry can be handed out.
    pub open spec fn sq_full(&self) -> bool {
        distance(self.shared.sq_head, advance(self.sq.sqe_tail, 1)) > self.sq.entries
    }

    /// A reference to a vacant entry, or an error if the submission queue is
    /// full. The fields of the entry are zeroed out.
    pub fn get_sqe(&mut self) -> (res: Result<&mut Sqe, GetSqe>)
        requires
            old(self).wf(),
        ensures
            res is Err <==> old(self).sq_full(),
            match res {
                Err(e) => {
                    &&& e == GetSqe::SubmissionQueueFull
                    &&& *final(self) == *old(self)
                },
                Ok(sqe) => {
                    &&& *sqe == Sqe::zeroed()
                    &&& old(self).handed_out(*final(self), *final(sqe))
                },
            },
    {
        match self.get_sqe_raw() {
            Err(e) => Err(e),
            Ok(sqe) => {
                *sqe = Sqe::default();
                Ok(sqe)
            },
        }
    }

    /// `post` is this ring after an entry was handed out and became `sqe`.
    pub open spec fn handed_out(self, post: IoUring, sqe: Sqe) -> bool {
        let vacant = slot(self.sq.sqe_tail, 0, self.sq.entries as int);
        &&& post.sq.sqes@ == self.sq.sqes@.update(vacant, sqe)
        &&& post.sq.entries == self.sq.entries
        &&& post.sq.mask == self.sq.mask
        &&& post.sq.sqe_head == self.sq.sqe_head
        &&& post.sq.sqe_tail == advance(self.sq.sqe_tail, 1)
        &&& post.fd == self.fd
        &&& post.shared == self.shared
        &&& post.flags == self.flags
        &&& post.features == self.features
        &&& post.cq == self.cq
    }

    /// A reference to a vacant entry, or an error if the submission queue is
    /// full. The entry still holds what it held when it was last used.
    pub fn get_sqe_raw(&mut self) -> (res: Result<&mut Sqe, GetSqe>)
        requires
            old(self).wf(),
        ensures
            res is Err <==> old(self).sq_full(),
            match res {
                Err(e) => {
                    &&& e == GetSqe::SubmissionQueueFull
                    &&& *final(self) == *old(self)
                },
                Ok(sqe) => {
                    &&& *sqe == old(self).sq.sqes@[slot(
                        old(self).sq.sqe_tail,
                        0,
                        old(self).sq.entries as int,
                    )]
                    &&& old(self).handed_out(*final(self), *final(sqe))
                },
            },
    {
        let head = self.shared.sq_head();
        // Remember that these head and tail offsets wrap around every four
        // billion operations. We must therefore use wrapping addition
        // and subtraction to avoid a runtime crash.
        let next = self.sq.sqe_tail.wrapping_add(1);
        proof {
            lemma_wrapping_add(self.sq.sqe_tail, 1);
            lemma_wrapping_sub(next, head);
        }
        if next.wrapping_sub(head) > self.sq.entries {
            return Err(GetSqe::SubmissionQueueFull);
        }
        proof {
            lemma_mask_is_slot(self.sq.sqe_tail, self.sq.entries);
        }
        let index = (self.sq.sqe_tail & self.sq.mask) as usize;
        self.sq.sqe_tail = next;
        Ok(&mut self.sq.sqes[index])
    }

    /// `post` is this ring after every entry that was handed out was announced
    /// to the kernel.
    pub open spec fn flushed(self, post: IoUring) -> bool {
        let count = distance(self.sq.sqe_head, self.sq.sqe_tail);
        &&& post.shared.sq_array@ == announced(
            self.shared.sq_array@,
            self.shared.sq_tail,
            self.sq.sqe_head,
            self.sq.entries,
            count,
        )
        &&& post.shared == (Ioring {
            sq_array: post.shared.sq_array,
            sq_tail: advance(self.shared.sq_tail, count as int),
            ..self.shared
        })
        &&& post.sq == (SubmissionQueue { sqe_head: self.sq.sqe_tail, ..self.sq })
        &&& post.fd == self.fd
        &&& post.flags == self.flags
        &&& post.features == self.features
        &&& post.cq == self.cq
    }

    /// Announces the entries that were handed out to the kernel. Returns the
    /// number of all pending entries in the submission queue. This includes
    /// previously flushed entries: the rationale is to suggest that an
    /// `io_uring_enter` call is needed rather than not.
    pub fn flush_sq(&mut self) -> (res: u32)
        requires
            old(self).wf(),
        ensures
            old(self).flushed(*final(self)),
            final(self).wf(),
            res == distance(old(self).shared.sq_head, old(self).sq.sqe_tail),
    {
        if self.sq.sqe_head != self.sq.sqe_tail {
            // Fill in entries that we have queued up, adding them to the
            // kernel ring.
            let to_submit = self.sq.sqe_tail.wrapping_sub(self.sq.sqe_head);
            proof {
                lemma_wrapping_sub(self.sq.sqe_tail, self.sq.sqe_head);
                lemma_advance_distance(self.sq.sqe_head, self.sq.sqe_tail);
            }
            let mut new_tail = self.shared.sq_tail();
            let mut i: u32 = 0;
            while i < to_submit
                invariant
                    0 <= i <= to_submit,
                    old(self).wf(),
                    to_submit == distance(old(self).sq.sqe_head, old(self).sq.sqe_tail),
                    new_tail == advance(old(self).shared.sq_tail, i as int),
                    self.shared.sq_array@ == announced(
                        old(self).shared.sq_array@,
                        old(self).shared.sq_tail,
                        old(self).sq.sqe_head,
                        old(self).sq.entries,
                        i as nat,
                    ),
                    self.shared.sq_array@.len() == old(self).sq.entries,
                    self.shared == (Ioring {
                        sq_array: self.shared.sq_array,
                        ..old(self).shared
                    }),
                    self.sq == (SubmissionQueue {
                        sqe_head: advance(old(self).sq.sqe_head, i as int),
                        ..old(self).sq
                    }),
                    self.fd == old(self).fd,
                    self.flags == old(self).flags,
                    self.features == old(self).features,
                    self.cq == old(self).cq,
                decreases to_submit - i,
            {
                proof {
                    lemma_mask_is_slot(new_tail, self.sq.entries);
                    lemma_mask_is_slot(self.sq.sqe_head, self.sq.entries);
                    lemma_slot_advance(old(self).shared.sq_tail, i as int, 0, self.sq.entries);
                    lemma_slot_advance(old(self).sq.sqe_head, i as int, 0, self.sq.entries);
                    lemma_wrapping_add(new_tail, 1);
                    lemma_wrapping_add(self.sq.sqe_head, 1);
                }
                let announced_at = (new_tail & self.sq.mask) as usize;
                self.shared.sq_array[announced_at] = self.sq.sqe_head & self.sq.mask;
                new_tail = new_tail.wrapping_add(1);
                self.sq.sqe_head = self.sq.sqe_head.wrapping_add(1);
                i = i + 1;
            }
            // The kernel sees the entries once it sees the new tail.
            self.shared.sq_tail_write(new_tail);
        }
        self.sq_ready()
    }

    /// The number of entries that were handed out and that a flush would announce.
    pub fn unflushed(&self) -> (res: u32)
        ensures
            res == distance(self.sq.sqe_head, self.sq.sqe_tail),
    {
        proof {
            lemma_wrapping_sub(self.sq.sqe_tail, self.sq.sqe_head);
        }
        self.sq.sqe_tail.wrapping_sub(self.sq.sqe_head)
    }

    /// Where the next flush finds the unflushed entry number `i`, and where in the
    /// index array it announces it.
    pub fn flush_slots(&self, i: u32) -> (res: (u32, u32))
        requires
            self.wf(),
        ensures
            res.0 == slot(self.sq.sqe_head, i as int, self.sq.entries as int),
            res.1 == slot(self.shared.sq_tail, i as int, self.sq.entries as int),
    {
        let from = self.sq.sqe_head.wrapping_add(i);
        let to = self.shared.sq_tail().wrapping_add(i);
        proof {
            lemma_wrapping_add(self.sq.sqe_head, i);
            lemma_wrapping_add(self.shared.sq_tail, i);
            lemma_slot_advance(self.sq.sqe_head, i as int, 0, self.sq.entries);
            lemma_slot_advance(self.shared.sq_tail, i as int, 0, self.sq.entries);
            lemma_mask_is_slot(from, self.sq.entries);
            lemma_mask_is_slot(to, self.sq.entries);
        }
        (from & self.sq.mask, to & self.sq.mask)
    }

    /// Returns true if we are not using a submission thread (thus nobody submits
    /// but us), or if the submission thread must be explicitly awakened. For the
    /// latter case, we add the wakeup flag to `flags`.
    pub fn sq_ring_needs_enter(&mut self, flags: &mut u32) -> (res: bool)
        ensures
            res == (!holds(old(self).flags, IORING_SETUP_SQPOLL) || holds(
                old(self).shared.sq_flags,
                IORING_SQ_NEED_WAKEUP,
            )),
            *final(flags) == if old(self).needs_wakeup() {
                *old(flags) | IORING_ENTER_SQ_WAKEUP
            } else {
                *old(flags)
            },
            *final(self) == *old(self),
    {
        if !setup_flags_contain(self.flags, IORING_SETUP_SQPOLL) {
            return true;
        }
        if self.shared.sq_flag_contains(IORING_SQ_NEED_WAKEUP) {
            *flags = enter_flags_set(*flags, IORING_ENTER_SQ_WAKEUP);
            return true;
        }
        false
    }

    /// There is a submission thread, and it sleeps.
    pub open spec fn needs_wakeup(&self) -> bool {
        holds(self.flags, IORING_SETUP_SQPOLL) && holds(self.shared.sq_flags, IORING_SQ_NEED_WAKEUP)
    }

    /// The number of flushed and unflushed entries pending in the submission
    /// queue, i.e. its length. These are entries that the kernel is yet to
    /// consume.
    pub fn sq_ready(&mut self) -> (res: u32)
        ensures
            res == old(self).pending().len(),
            *final(self) == *old(self),
    {
        proof {
            lemma_wrapping_sub(self.sq.sqe_tail, self.shared.sq_head);
        }
        self.sq.sqe_tail.wrapping_sub(self.shared.sq_head())
    }

    /// The number of completions in the completion queue, i.e. its length.
    /// These are completions that the application is yet to consume.
    pub fn cq_ready(&mut self) -> (res: u32)
        ensures
            res == old(self).completions().len(),
            *final(self) == *old(self),
    {
        proof {
            lemma_wrapping_sub(self.shared.cq_tail, self.shared.cq_head);
        }
        self.shared.cq_tail().wrapping_sub(self.shared.cq_head())
    }

    /// What a submission that waits for `wait_nr` completions comes down to once
    /// everything was flushed.
    pub open spec fn submission(&self, wait_nr: u32) -> Submit {
        if !holds(self.flags, IORING_SETUP_SQPOLL) || self.needs_wakeup() || wait_nr > 0 {
            Submit::Enter(
                Enter {
                    fd: self.fd,
                    to_submit: self.pending().len() as u32,
                    min_complete: wait_nr,
                    flags: enter_flags(
                        self.needs_wakeup(),
                        wait_nr > 0 || holds(self.flags, IORING_SETUP_IOPOLL),
                    ),
                },
            )
        } else {
            Submit::Submitted(self.pending().len() as u32)
        }
    }

    /// Submits the entries acquired via [`Self::get_sqe`] to the kernel. You can
    /// call this once after you have called [`Self::get_sqe`] multiple times to
    /// set up multiple I/O requests.
    pub fn submit(&mut self) -> (res: Submit)
        requires
            old(self).wf(),
        ensures
            old(self).flushed(*final(self)),
            final(self).wf(),
            res == old(self).submission(0),
    {
        self.submit_and_wait(0)
    }

    /// Like [`Self::submit`], but allows waiting for events as well.
    pub fn submit_and_wait(&mut self, wait_nr: u32) -> (res: Submit)
        requires
            old(self).wf(),
        ensures
            old(self).flushed(*final(self)),
            final(self).wf(),
            res == old(self).submission(wait_nr),
    {
        let submitted = self.flush_sq();
        let mut flags: u32 = 0;
        proof {
            assert(0u32 | 1 == 1 && 0u32 | 2 == 2 && 2u32 | 1 == 3) by (bit_vector);
        }
        if self.sq_ring_needs_enter(&mut flags) || wait_nr > 0 {
            if wait_nr > 0 || setup_flags_contain(self.flags, IORING_SETUP_IOPOLL) {
                flags = enter_flags_set(flags, IORING_ENTER_GETEVENTS);
            }
            return Submit::Enter(self.enter(submitted, wait_nr, flags));
        }
        Submit::Submitted(submitted)
    }

    /// The call that tells the kernel that we have submitted entries and/or want
    /// to wait for completions.
    pub fn enter(&mut self, to_submit: u32, min_complete: u32, flags: u32) -> (res: Enter)
        ensures
            res == (Enter { fd: old(self).fd, to_submit, min_complete, flags }),
            *final(self) == *old(self),
    {
        Enter { fd: self.fd, to_submit, min_complete, flags }
    }

    /// This ring after `count` completions were consumed.
    pub open spec fn consumed(self, count: int) -> IoUring {
        IoUring {
            shared: Ioring { cq_head: advance(self.shared.cq_head, count), ..self.shared },
            ..self
        }
    }

    /// How many completions are copied into room for `len`.
    pub open spec fn copy_count(&self, len: nat) -> nat {
        if len <= self.completions().len() {
            len
        } else {
            self.completions().len()
        }
    }

    /// What `cqes` becomes once the completions that fit were copied into it.
    pub open spec fn copied(&self, cqes: Seq<Cqe>) -> Seq<Cqe> {
        let count = self.copy_count(cqes.len()) as int;
        self.completions().take(count) + cqes.skip(count)
    }

    /// Copying into room for `len` wraps around the end of the ring no further
    /// than to the end of the ring again. The kernel never posts so many
    /// completions that it would.
    pub open spec fn copy_in_ring(&self, len: nat) -> bool {
        slot(self.shared.cq_head, 0, self.cq.entries as int) + self.copy_count(len) <= 2
            * self.cq.entries
    }

    /// Whether copying into room for `len` stays within what [`Self::copy_cqes`]
    /// can do.
    pub fn copy_fits(&self, len: usize) -> (res: bool)
        requires
            self.wf(),
        ensures
            res == self.copy_in_ring(len as nat),
    {
        proof {
            lemma_wrapping_sub(self.shared.cq_tail, self.shared.cq_head);
            lemma_mask_is_slot(self.shared.cq_head, self.cq.entries);
        }
        let ready = self.shared.cq_tail().wrapping_sub(self.shared.cq_head()) as u64;
        let count = if len as u64 <= ready {
            len as u64
        } else {
            ready
        };
        let head = (self.shared.cq_head() & self.cq.mask) as u64;
        head + count <= 2 * self.cq.entries as u64
    }

    /// Copies as many completions as are ready, and that can fit into the
    /// destination `cqes` slice. If none are available, and the kernel holds some
    /// back or `wait_nr` is not zero, the kernel has to be entered to wait for at
    /// most `wait_nr` completions: [`Self::copy_cqes_entered`] goes on from there.
    pub fn copy_cqes(&mut self, cqes: &mut [Cqe], wait_nr: u32) -> (res: CopyCqes)
        requires
            old(self).wf(),
            old(self).copy_in_ring(old(cqes)@.len()),
        ensures
            *final(self) == old(self).consumed(old(self).copy_count(old(cqes)@.len()) as int),
            final(self).wf(),
            final(cqes)@ == old(self).copied(old(cqes)@),
            res == if old(self).copy_count(old(cqes)@.len()) == 0 && (wait_nr > 0 || holds(
                old(self).shared.sq_flags,
                IORING_SQ_CQ_OVERFLOW,
            )) {
                CopyCqes::Enter(
                    Enter {
                        fd: old(self).fd,
                        to_submit: 0,
                        min_complete: wait_nr,
                        flags: IORING_ENTER_GETEVENTS,
                    },
                )
            } else {
                CopyCqes::Copied(old(self).copy_count(old(cqes)@.len()) as u32)
            },
    {
        let count = self.copy_cqes_ready(cqes);
        if count > 0 {
            return CopyCqes::Copied(count);
        }
        if self.cq_ring_needs_flush() || wait_nr > 0 {
            return CopyCqes::Enter(self.enter(0, wait_nr, IORING_ENTER_GETEVENTS));
        }
        CopyCqes::Copied(0)
    }

    /// What [`Self::copy_cqes`] returns after the kernel was entered, where
    /// `entered` is what the call returned: its error, or the number of
    /// completions that were copied then.
    pub fn copy_cqes_entered(&mut self, cqes: &mut [Cqe], entered: Result<u32, Errno>) -> (res:
        Result<u32, Errno>)
        requires
            old(self).wf(),
            entered is Ok ==> old(self).copy_in_ring(old(cqes)@.len()),
        ensures
            final(self).wf(),
            match entered {
                Err(e) => {
                    &&& res == Err::<u32, Errno>(e)
                    &&& *final(self) == *old(self)
                    &&& final(cqes)@ == old(cqes)@
                },
                Ok(_) => {
                    let count = old(self).copy_count(old(cqes)@.len());
                    &&& res == Ok::<u32, Errno>(count as u32)
                    &&& *final(self) == old(self).consumed(count as int)
                    &&& final(cqes)@ == old(self).copied(old(cqes)@)
                },
            },
    {
        match entered {
            Err(e) => Err(e),
            Ok(_) => Ok(self.copy_cqes_ready(cqes)),
        }
    }

    /// Returns a copy of a completion, advancing the completion queue. If there
    /// is none, the kernel has to be entered to wait for one:
    /// [`Self::copy_cqe_entered`] goes on from there. A convenience method for
    /// [`Self::copy_cqes`] for when you don't need to batch or peek.
    pub fn copy_cqe(&mut self) -> (res: CopyCqe)
        requires
            old(self).wf(),
        ensures
            final(self).wf(),
            if old(self).completions().len() > 0 {
                &&& res == CopyCqe::Ready(old(self).completions()[0])
                &&& *final(self) == old(self).consumed(1)
            } else {
                &&& res == CopyCqe::Enter(
                    Enter {
                        fd: old(self).fd,
                        to_submit: 0,
                        min_complete: 1,
                        flags: IORING_ENTER_GETEVENTS,
                    },
                )
                &&& *final(self) == *old(self)
            },
    {
        let mut cqes = [Cqe::default(); 1];
        match self.copy_cqes(&mut cqes, 1) {
            CopyCqes::Copied(_) => CopyCqe::Ready(cqes[0]),
            CopyCqes::Enter(enter) => CopyCqe::Enter(enter),
        }
    }

    /// Goes on from [`Self::copy_cqe`] after the kernel was entered, where
    /// `entered` is what the call returned: its error, a completion, or nothing
    /// if there is still none and it all starts over.
    pub fn copy_cqe_entered(&mut self, entered: Result<u32, Errno>) -> (res: Result<
        Option<Cqe>,
        Errno,
    >)
        requires
            old(self).wf(),
        ensures
            final(self).wf(),
            match entered {
                Err(e) => {
                    &&& res == Err::<Option<Cqe>, Errno>(e)
                    &&& *final(self) == *old(self)
                },
                Ok(_) => if old(self).completions().len() > 0 {
                    &&& res == Ok::<Option<Cqe>, Errno>(Some(old(self).completions()[0]))
                    &&& *final(self) == old(self).consumed(1)
                } else {
                    &&& res == Ok::<Option<Cqe>, Errno>(None)
                    &&& *final(self) == *old(self)
                },
            },
    {
        let mut cqes = [Cqe::default(); 1];
        match self.copy_cqes_entered(&mut cqes, entered) {
            Err(e) => Err(e),
            Ok(count) => if count > 0 {
                Ok(Some(cqes[0]))
            } else {
                Ok(None)
            },
        }
    }

    /// Copies as many completions as are ready, and that can fit into `cqes`.
    fn copy_cqes_ready(&mut self, cqes: &mut [Cqe]) -> (res: u32)
        requires
            old(self).wf(),
            old(self).copy_in_ring(old(cqes)@.len()),
        ensures
            res == old(self).copy_count(old(cqes)@.len()),
            *final(self) == old(self).consumed(res as int),
            final(self).wf(),
            final(cqes)@ == old(self).copied(old(cqes)@),
    {
        let ready = self.cq_ready();
        let count = if cqes.len() <= ready as usize {
            cqes.len()
        } else {
            ready as usize
        };
        proof {
            lemma_mask_is_slot(self.shared.cq_head, self.cq.entries);
        }
        let head = self.shared.cq_head() & self.cq.mask;
        // before wrapping
        let left = (self.cq.entries - head) as usize;
        let n = if left <= count {
            left
        } else {
            count
        };
        let head = head as usize;
        let mut i: usize = 0;
        while i < n
            invariant
                0 <= i <= n <= count <= cqes@.len(),
                head + n <= self.shared.cqes@.len() <= u32::MAX,
                *self == *old(self),
                cqes@.len() == old(cqes)@.len(),
                forall|k: int| 0 <= k < i ==> cqes@[k] == self.shared.cqes@[head + k],
                forall|k: int| i <= k < cqes@.len() ==> cqes@[k] == old(cqes)@[k],
            decreases n - i,
        {
            cqes[i] = self.shared.cqes[head + i];
            i = i + 1;
        }
        if count > n {
            // wrap around the end of the ring
            let w = count - n;
            let mut j: usize = 0;
            while j < w
                invariant
                    0 <= j <= w <= self.shared.cqes@.len(),
                    n + w == count <= cqes@.len(),
                    head + n <= self.shared.cqes@.len(),
                    *self == *old(self),
                    cqes@.len() == old(cqes)@.len(),
                    forall|k: int| 0 <= k < n ==> cqes@[k] == self.shared.cqes@[head + k],
                    forall|k: int| n <= k < n + j ==> cqes@[k] == self.shared.cqes@[k - n],
                    forall|k: int| n + j <= k < cqes@.len() ==> cqes@[k] == old(cqes)@[k],
                decreases w - j,
            {
                cqes[n + j] = self.shared.cqes[j];
                j = j + 1;
            }
        }
        proof {
            assert(cqes@ =~= old(self).copied(old(cqes)@)) by {
                let e = self.cq.entries as int;
                assert forall|k: int| 0 <= k < count implies cqes@[k]
                    == self.shared.cqes@[#[trigger] slot(self.shared.cq_head, k, e)] by {
                    lemma_slot_from_slot(self.shared.cq_head, k, e);
                }
            }
        }
        let count = count as u32;
        self.cq_advance(count);
        count
    }

    /// Whether completions wait in the kernel because the completion queue was
    /// full.
    pub fn cq_ring_needs_flush(&mut self) -> (res: bool)
        ensures
            res == holds(old(self).shared.sq_flags, IORING_SQ_CQ_OVERFLOW),
            *final(self) == *old(self),
    {
        self.shared.sq_flag_contains(IORING_SQ_CQ_OVERFLOW)
    }

    /// For advanced use cases only that implement custom completion queue
    /// methods. If you use [`Self::copy_cqes`] or [`Self::copy_cqe`] you must not
    /// call [`Self::cqe_seen`] or [`Self::cq_advance`]. Must be called exactly
    /// once after a zero-copy completion has been processed by your application.
    /// Not idempotent, calling more than once will result in other completions
    /// being lost.
    pub fn cqe_seen(&mut self, _cqe: &Cqe)
        ensures
            *final(self) == old(self).consumed(1),
    {
        self.shared.cq_advance(1);
    }

    /// For advanced use cases only that implement custom completion queue
    /// methods.
    pub fn cq_advance(&mut self, count: u32)
        ensures
            *final(self) == old(self).consumed(count as int),
    {
        self.shared.cq_advance(count);
    }

    /// The kernel has consumed the submissions before `sq_head`.
    pub fn kernel_consumed(&mut self, sq_head: u32)
        ensures
            *final(self) == (IoUring {
                shared: Ioring { sq_head, ..old(self).shared },
                ..*old(self)
            }),
    {
        self.shared.sq_head = sq_head;
    }

    /// The kernel has left `sq_flags` on the submission queue.
    pub fn kernel_flagged(&mut self, sq_flags: u32)
        ensures
            *final(self) == (IoUring {
                shared: Ioring { sq_flags, ..old(self).shared },
                ..*old(self)
            }),
    {
        self.shared.sq_flags = sq_flags;
    }

    /// Where the kernel posts the next completion.
    pub fn completion_slot(&self) -> (res: u32)
        requires
            self.wf(),
        ensures
            res == slot(self.shared.cq_tail, 0, self.cq.entries as int),
    {
        proof {
            lemma_mask_is_slot(self.shared.cq_tail, self.cq.entries);
        }
        self.shared.cq_tail() & self.cq.mask
    }

    /// The kernel has posted `cqe`.
    pub fn kernel_posted(&mut self, cqe: Cqe)
        requires
            old(self).wf(),
        ensures
            old(self).posted(*final(self), cqe),
            final(self).wf(),
    {
        let index = self.completion_slot() as usize;
        proof {
            lemma_slot_in_ring(self.shared.cq_tail, 0, self.cq.entries);
            lemma_wrapping_add(self.shared.cq_tail, 1);
        }
        self.shared.cqes[index] = cqe;
        self.shared.cq_tail = self.shared.cq_tail.wrapping_add(1);
    }

    /// `post` is this ring after the kernel posted `cqe`.
    pub open spec fn posted(self, post: IoUring, cqe: Cqe) -> bool {
        &&& post.shared.cqes@ == self.shared.cqes@.update(
            slot(self.shared.cq_tail, 0, self.cq.entries as int),
            cqe,
        )
        &&& post == (IoUring {
            shared: Ioring {
                cqes: post.shared.cqes,
                cq_tail: advance(self.shared.cq_tail, 1),
                ..self.shared
            },
            ..self
        })
    }
}

} // verus!
