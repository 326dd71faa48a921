//! What each operation of a ring does, seen from outside.
//!
//! The laws speak of calls: `call_ensures` holds of the arguments and the result
//! of every call of a function. What they conclude is said of the fields of the
//! ring before and after, in plain arithmetic.
use crate::entry::{Cqe, IoringOp, Sqe};
use crate::err::GetSqe;
use crate::flags::{
    holds, IORING_ENTER_GETEVENTS, IORING_ENTER_SQ_WAKEUP, IORING_SETUP_IOPOLL,
    IORING_SETUP_SQPOLL, IORING_SQ_CQ_OVERFLOW, IORING_SQ_NEED_WAKEUP,
};
use crate::index::{
    advance, distance, is_power_of_two, lemma_distance_to_advanced,
    lemma_power_of_two_bits, lemma_slot_in_ring, power_of_two, slot,
};
use crate::laws::law_announces_each_entry;
use crate::request::{CopyCqe, CopyCqes, Enter, Submit};
use crate::ring::{IoUring, SubmissionQueue};
use crate::shared::Ioring;
use rustix::io::Errno;
use vstd::arithmetic::div_mod::*;
use vstd::arithmetic::power2::*;
use vstd::prelude::*;

verus! {

/// The number of steps between two positions is their difference, and what is
/// missing to a full turn of the counter if that is negative.
pub proof fn law_distance_is_difference(from: u32, to: u32)
    ensures
        from <= to ==> distance(from, to) == to - from,
        to < from ==> distance(from, to) == 0x1_0000_0000 - (from - to),
{
}

/// Moving on adds to a position, whole turns of the counter aside.
pub proof fn law_advance_adds(from: u32, n: int)
    ensures
        (from + n - advance(from, n)) % 0x1_0000_0000 == 0,
        0 <= from + n < 0x1_0000_0000 ==> advance(from, n) == from + n,
{
}

/// A slot lies within the ring, whole turns of the ring away from its position.
pub proof fn law_slot_is_remainder(from: u32, n: int, entries: int)
    requires
        entries > 0,
    ensures
        0 <= slot(from, n, entries) < entries,
        (from + n - slot(from, n, entries)) % entries == 0,
        0 <= from + n < entries ==> slot(from, n, entries) == from + n,
{
    lemma_mod_bound(from + n, entries);
    lemma_sub_mod_noop_right(from + n, from + n, entries);
    lemma_small_mod(0, entries as nat);
    if 0 <= from + n < entries {
        lemma_small_mod((from + n) as nat, entries as nat);
    }
}

/// The powers of two are the numbers with exactly one bit set, and the call that
/// tests for them tells just that.
pub proof fn law_power_of_two_has_one_bit(n: u32, res: bool)
    requires
        call_ensures(is_power_of_two, (n,), res),
    ensures
        res == power_of_two(n as int),
        res <==> n != 0 && n & ((n - 1) as u32) == 0,
        res <==> exists|k: nat| n == #[trigger] pow2(k),
{
    if n == 0 {
        assert forall|k: nat| #[trigger] pow2(k) != 0 by {
            lemma_pow2_pos(k);
        }
    } else {
        lemma_power_of_two_bits(n);
    }
}

/// A flag word holds flags exactly if adding them changes nothing, and if none of
/// them is among the bits that are not set.
pub proof fn law_holding_is_unchanged_by_adding(flags: u32, other: u32)
    ensures
        holds(flags, other) <==> flags | other == flags,
        holds(flags, other) <==> other & !flags == 0,
{
    assert((flags & other == other) == (flags | other == flags)) by (bit_vector);
    assert((flags & other == other) == (other & !flags == 0)) by (bit_vector);
}

/// A ring is well-formed if and only if each queue has a power of two as its size,
/// one less as its mask, and so much memory.
pub proof fn law_well_formed_means(ring: IoUring)
    ensures
        ring.wf() <==> {
            &&& ring.sq.entries != 0 && ring.sq.entries & ((ring.sq.entries - 1) as u32) == 0
            &&& ring.sq.mask == ring.sq.entries - 1
            &&& ring.sq.sqes@.len() == ring.sq.entries
            &&& ring.shared.sq_array@.len() == ring.sq.entries
            &&& ring.cq.entries != 0 && ring.cq.entries & ((ring.cq.entries - 1) as u32) == 0
            &&& ring.cq.mask == ring.cq.entries - 1
            &&& ring.shared.cqes@.len() == ring.cq.entries
        },
{
    assert forall|k: nat| #[trigger] pow2(k) != 0 by {
        lemma_pow2_pos(k);
    }
    if ring.sq.entries != 0 {
        lemma_power_of_two_bits(ring.sq.entries);
    }
    if ring.cq.entries != 0 {
        lemma_power_of_two_bits(ring.cq.entries);
    }
}

/// A ring is consistent if and only if it is well-formed, the two tails agree,
/// what is announced is a part of what is pending, neither queue is beyond its
/// size, and the index array names each announced entry.
pub proof fn law_consistent_means(ring: IoUring)
    ensures
        ring.consistent() <==> {
            let announced = (ring.shared.sq_tail - ring.shared.sq_head) % 0x1_0000_0000;
            &&& ring.wf()
            &&& ring.shared.sq_tail == ring.sq.sqe_head
            &&& announced <= (ring.sq.sqe_tail - ring.shared.sq_head) % 0x1_0000_0000
            &&& (ring.sq.sqe_tail - ring.shared.sq_head) % 0x1_0000_0000 <= ring.sq.entries
            &&& (ring.shared.cq_tail - ring.shared.cq_head) % 0x1_0000_0000 <= ring.cq.entries
            &&& forall|i: int|
                0 <= i < announced ==> ring.shared.sq_array@[#[trigger] slot(
                    ring.shared.sq_head,
                    i,
                    ring.sq.entries as int,
                )] == slot(ring.shared.sq_head, i, ring.sq.entries as int)
        },
{
}

/// What the two queues are: as many entries as lie between the head and the tail,
/// each at its position modulo the size of the queue. The kernel finds an entry
/// through the index array.
pub proof fn law_queues_lie_between_head_and_tail(ring: IoUring)
    ensures
        ring.pending().len() == (ring.sq.sqe_tail - ring.shared.sq_head) % 0x1_0000_0000,
        forall|i: int|
            0 <= i < ring.pending().len() ==> #[trigger] ring.pending()[i]
                == ring.sq.sqes@[(ring.shared.sq_head + i) % (ring.sq.entries as int)],
        ring.submitted().len() == (ring.shared.sq_tail - ring.shared.sq_head) % 0x1_0000_0000,
        forall|i: int|
            0 <= i < ring.submitted().len() ==> #[trigger] ring.submitted()[i]
                == ring.sq.sqes@[ring.shared.sq_array@[(ring.shared.sq_head + i) % (
            ring.sq.entries as int)] as int],
        ring.completions().len() == (ring.shared.cq_tail - ring.shared.cq_head) % 0x1_0000_0000,
        forall|i: int|
            0 <= i < ring.completions().len() ==> #[trigger] ring.completions()[i]
                == ring.shared.cqes@[(ring.shared.cq_head + i) % (ring.cq.entries as int)],
{
}

/// The new entries of either queue are zero throughout.
pub proof fn law_default_entries_are_zero(sqe: Sqe, cqe: Cqe)
    requires
        call_ensures(<Sqe as Default>::default, (), sqe),
        call_ensures(<Cqe as Default>::default, (), cqe),
    ensures
        sqe.opcode == IoringOp::Nop,
        sqe.flags == 0,
        sqe.ioprio == 0,
        sqe.fd == 0,
        sqe.off_or_addr2 == 0,
        sqe.addr_or_splice_off_in == 0,
        sqe.len == 0,
        sqe.op_flags == 0,
        sqe.user_data == 0,
        sqe.buf == 0,
        sqe.personality == 0,
        sqe.splice_fd_in_or_file_index_or_addr_len == 0,
        sqe.addr3_or_cmd.addr3 == 0,
        sqe.addr3_or_cmd.pad2 == 0,
        cqe.user_data == 0,
        cqe.res == 0,
        cqe.flags == 0,
{
}

/// Every operation can be called on every well-formed ring, whatever the other
/// arguments. Copying a batch needs besides that no more completions are ready
/// than the ring holds, or that there is no room for more than reach to its end a
/// second time.
pub proof fn law_operations_are_defined(
    ring: &mut IoUring,
    cqes: &mut [Cqe],
    wait_nr: u32,
    entered: Result<u32, Errno>,
    cqe: Cqe,
    i: u32,
    len: usize,
)
    requires
        old(ring).wf(),
    ensures
        call_requires(IoUring::get_sqe, (ring,)),
        call_requires(IoUring::get_sqe_raw, (ring,)),
        call_requires(IoUring::flush_sq, (ring,)),
        call_requires(IoUring::submit, (ring,)),
        call_requires(IoUring::submit_and_wait, (ring, wait_nr)),
        call_requires(IoUring::copy_cqe, (ring,)),
        call_requires(IoUring::copy_cqe_entered, (ring, entered)),
        call_requires(IoUring::kernel_posted, (ring, cqe)),
        call_requires(IoUring::copy_fits, (&*old(ring), len)),
        call_requires(IoUring::flush_slots, (&*old(ring), i)),
        call_requires(IoUring::completion_slot, (&*old(ring),)),
        entered is Err ==> call_requires(IoUring::copy_cqes_entered, (ring, cqes, entered)),
        ({
            let head = old(ring).shared.cq_head as int % (old(ring).cq.entries as int);
            let ready = (old(ring).shared.cq_tail - old(ring).shared.cq_head) % 0x1_0000_0000;
            ready <= old(ring).cq.entries || head + old(cqes)@.len() <= 2 * old(ring).cq.entries
        }) ==> {
            &&& call_requires(IoUring::copy_cqes, (ring, cqes, wait_nr))
            &&& call_requires(IoUring::copy_cqes_entered, (ring, cqes, entered))
        },
{
    lemma_slot_in_ring(old(ring).shared.cq_head, 0, old(ring).cq.entries);
}

/// An entry is handed out exactly if, with it, no more are pending than the
/// submission queue has room for. It lies at the tail, modulo the size of the
/// queue, which moves on by one. No other entry is touched, and the kernel sees
/// nothing of it. Where there is no room, nothing changes.
pub proof fn law_get_sqe_raw_hands_out_the_tail(
    ring: &mut IoUring,
    res: Result<&mut Sqe, GetSqe>,
)
    requires
        old(ring).wf(),
        call_ensures(IoUring::get_sqe_raw, (ring,), res),
    ensures
        res is Ok <==> (old(ring).sq.sqe_tail + 1 - old(ring).shared.sq_head) % 0x1_0000_0000
            <= old(ring).sq.entries,
        match res {
            Err(e) => e == GetSqe::SubmissionQueueFull && *final(ring) == *old(ring),
            Ok(sqe) => {
                let at = old(ring).sq.sqe_tail as int % (old(ring).sq.entries as int);
                &&& *sqe == old(ring).sq.sqes@[at]
                &&& final(ring).sq.sqes@[at] == *final(sqe)
                &&& final(ring).sq.sqes@.len() == old(ring).sq.sqes@.len()
                &&& forall|i: int|
                    0 <= i < old(ring).sq.entries && i != at ==> #[trigger] final(ring).sq.sqes@[i]
                        == old(ring).sq.sqes@[i]
                &&& final(ring).sq.sqe_tail == (old(ring).sq.sqe_tail + 1) % 0x1_0000_0000
                &&& *final(ring) == (IoUring {
                    sq: SubmissionQueue {
                        sqes: final(ring).sq.sqes,
                        sqe_tail: final(ring).sq.sqe_tail,
                        ..old(ring).sq
                    },
                    ..*old(ring)
                })
            },
        },
{
    lemma_slot_in_ring(old(ring).sq.sqe_tail, 0, old(ring).sq.entries);
}

/// The same, and the entry that is handed out is zero throughout.
pub proof fn law_get_sqe_hands_out_a_zeroed_tail(ring: &mut IoUring, res: Result<&mut Sqe, GetSqe>)
    requires
        old(ring).wf(),
        call_ensures(IoUring::get_sqe, (ring,), res),
    ensures
        res is Ok <==> (old(ring).sq.sqe_tail + 1 - old(ring).shared.sq_head) % 0x1_0000_0000
            <= old(ring).sq.entries,
        match res {
            Err(e) => e == GetSqe::SubmissionQueueFull && *final(ring) == *old(ring),
            Ok(sqe) => {
                let at = old(ring).sq.sqe_tail as int % (old(ring).sq.entries as int);
                &&& sqe.opcode == IoringOp::Nop
                &&& sqe.flags == 0
                &&& sqe.ioprio == 0
                &&& sqe.fd == 0
                &&& sqe.off_or_addr2 == 0
                &&& sqe.addr_or_splice_off_in == 0
                &&& sqe.len == 0
                &&& sqe.op_flags == 0
                &&& sqe.user_data == 0
                &&& sqe.buf == 0
                &&& sqe.personality == 0
                &&& sqe.splice_fd_in_or_file_index_or_addr_len == 0
                &&& sqe.addr3_or_cmd.addr3 == 0
                &&& sqe.addr3_or_cmd.pad2 == 0
                &&& final(ring).sq.sqes@[at] == *final(sqe)
                &&& final(ring).sq.sqes@.len() == old(ring).sq.sqes@.len()
                &&& forall|i: int|
                    0 <= i < old(ring).sq.entries && i != at ==> #[trigger] final(ring).sq.sqes@[i]
                        == old(ring).sq.sqes@[i]
                &&& final(ring).sq.sqe_tail == (old(ring).sq.sqe_tail + 1) % 0x1_0000_0000
                &&& *final(ring) == (IoUring {
                    sq: SubmissionQueue {
                        sqes: final(ring).sq.sqes,
                        sqe_tail: final(ring).sq.sqe_tail,
                        ..old(ring).sq
                    },
                    ..*old(ring)
                })
            },
        },
{
    lemma_slot_in_ring(old(ring).sq.sqe_tail, 0, old(ring).sq.entries);
}

/// A flush announces every entry that was handed out since the last one: at the
/// position `i` steps after the shared tail, the index array names the slot of the
/// entry `i` steps after the first of them, unless a later one of them falls into
/// the same position. Both ends move on by their number, no
/// other position of the array and no entry is touched, and the result counts all
/// that the kernel is yet to consume.
pub proof fn law_flush_announces_what_was_handed_out(ring: &mut IoUring, res: u32)
    requires
        old(ring).wf(),
        call_ensures(IoUring::flush_sq, (ring,), res),
    ensures
        res == (old(ring).sq.sqe_tail - old(ring).shared.sq_head) % 0x1_0000_0000,
        ({
            let e = old(ring).sq.entries as int;
            let n = (old(ring).sq.sqe_tail - old(ring).sq.sqe_head) % 0x1_0000_0000;
            &&& final(ring).shared.sq_array@.len() == e
            &&& forall|i: int|
                0 <= i < n <= i + e ==> final(ring).shared.sq_array@[#[trigger] slot(
                    old(ring).shared.sq_tail,
                    i,
                    e,
                )] == (old(ring).sq.sqe_head + i) % e
            &&& forall|s: int|
                0 <= s < e && (forall|i: int|
                    0 <= i < n ==> s != #[trigger] slot(old(ring).shared.sq_tail, i, e))
                    ==> #[trigger] final(ring).shared.sq_array@[s]
                    == old(ring).shared.sq_array@[s]
            &&& final(ring).shared.sq_tail == (old(ring).shared.sq_tail + n) % 0x1_0000_0000
            &&& *final(ring) == (IoUring {
                shared: Ioring {
                    sq_array: final(ring).shared.sq_array,
                    sq_tail: final(ring).shared.sq_tail,
                    ..old(ring).shared
                },
                sq: SubmissionQueue { sqe_head: old(ring).sq.sqe_tail, ..old(ring).sq },
                ..*old(ring)
            })
        }),
{
    law_announces_each_entry(
        old(ring).shared.sq_array@,
        old(ring).shared.sq_tail,
        old(ring).sq.sqe_head,
        old(ring).sq.entries,
        distance(old(ring).sq.sqe_head, old(ring).sq.sqe_tail),
    );
}

/// Submitting, with or without waiting, leaves the ring as a flush does.
pub proof fn law_submitting_flushes(
    flushed: &mut IoUring,
    pending: u32,
    submitted: &mut IoUring,
    plain: Submit,
    waited: &mut IoUring,
    wait_nr: u32,
    res: Submit,
)
    requires
        old(flushed).wf(),
        *old(submitted) == *old(flushed),
        *old(waited) == *old(flushed),
        call_ensures(IoUring::flush_sq, (flushed,), pending),
        call_ensures(IoUring::submit, (submitted,), plain),
        call_ensures(IoUring::submit_and_wait, (waited, wait_nr), res),
    ensures
        final(submitted).shared.sq_array@ == final(flushed).shared.sq_array@,
        *final(submitted) == (IoUring {
            shared: Ioring {
                sq_array: final(submitted).shared.sq_array,
                ..final(flushed).shared
            },
            ..*final(flushed)
        }),
        final(waited).shared.sq_array@ == final(flushed).shared.sq_array@,
        *final(waited) == (IoUring {
            shared: Ioring { sq_array: final(waited).shared.sq_array, ..final(flushed).shared },
            ..*final(flushed)
        }),
        wait_nr == 0 ==> plain == res,
        res matches Submit::Enter(enter) ==> enter.to_submit == pending,
        res matches Submit::Submitted(count) ==> count == pending,
{
}

/// A submission enters the kernel if there is no submission thread, if that
/// thread sleeps, or if there is something to wait for. Otherwise it leaves the
/// entries to the thread. Either way it is about all that is pending.
pub proof fn law_submission_enters_when_due(ring: &mut IoUring, wait_nr: u32, res: Submit)
    requires
        old(ring).wf(),
        call_ensures(IoUring::submit_and_wait, (ring, wait_nr), res),
    ensures
        ({
            let pending = (old(ring).sq.sqe_tail - old(ring).shared.sq_head) % 0x1_0000_0000;
            match res {
                Submit::Enter(enter) => {
                    &&& enter.fd == old(ring).fd
                    &&& enter.to_submit == pending
                    &&& enter.min_complete == wait_nr
                },
                Submit::Submitted(count) => count == pending,
            }
        }),
        res is Enter <==> {
            ||| old(ring).flags & IORING_SETUP_SQPOLL == 0
            ||| old(ring).shared.sq_flags & IORING_SQ_NEED_WAKEUP != 0
            ||| wait_nr > 0
        },
{
    lemma_single_flag(old(ring).flags, old(ring).shared.sq_flags);
}

/// A submission that waits always waits: whatever is pending and however the ring
/// was set up, the kernel is entered with the flag that makes it wait. Without
/// anything to wait for the flag is there only on a ring that polls for
/// completions.
pub proof fn law_waiting_submission_waits(ring: &mut IoUring, wait_nr: u32, res: Submit)
    requires
        old(ring).wf(),
        call_ensures(IoUring::submit_and_wait, (ring, wait_nr), res),
    ensures
        wait_nr > 0 ==> res is Enter,
        res matches Submit::Enter(enter) ==> {
            &&& enter.flags & IORING_ENTER_GETEVENTS != 0 <==> (wait_nr > 0 || old(ring).flags
                & IORING_SETUP_IOPOLL != 0)
            &&& enter.flags & !(IORING_ENTER_GETEVENTS | IORING_ENTER_SQ_WAKEUP) == 0
        },
{
    lemma_single_flag(old(ring).flags, old(ring).shared.sq_flags);
    lemma_enter_flags();
}

/// A submission thread that sleeps is woken by every submission, whatever else the
/// ring was set up with and whatever else the kernel has flagged. Nobody else is.
pub proof fn law_submission_wakes_the_thread(ring: &mut IoUring, wait_nr: u32, res: Submit)
    requires
        old(ring).wf(),
        call_ensures(IoUring::submit_and_wait, (ring, wait_nr), res),
    ensures
        ({
            let asleep = old(ring).flags & IORING_SETUP_SQPOLL != 0 && old(ring).shared.sq_flags
                & IORING_SQ_NEED_WAKEUP != 0;
            &&& asleep ==> res is Enter
            &&& res matches Submit::Enter(enter) ==> (enter.flags & IORING_ENTER_SQ_WAKEUP != 0
                <==> asleep)
        }),
{
    lemma_single_flag(old(ring).flags, old(ring).shared.sq_flags);
    lemma_enter_flags();
}

/// A submission that does not wait is entered with all that is pending, wakes a
/// thread that sleeps, and makes the kernel look for completions only on a ring
/// that polls for them.
pub proof fn law_plain_submission(ring: &mut IoUring, res: Submit)
    requires
        old(ring).wf(),
        call_ensures(IoUring::submit, (ring,), res),
    ensures
        ({
            let pending = (old(ring).sq.sqe_tail - old(ring).shared.sq_head) % 0x1_0000_0000;
            let thread = old(ring).flags & IORING_SETUP_SQPOLL != 0;
            let asleep = old(ring).shared.sq_flags & IORING_SQ_NEED_WAKEUP != 0;
            match res {
                Submit::Enter(enter) => {
                    &&& !thread || asleep
                    &&& enter.fd == old(ring).fd
                    &&& enter.to_submit == pending
                    &&& enter.min_complete == 0
                    &&& enter.flags & IORING_ENTER_SQ_WAKEUP != 0 <==> thread && asleep
                    &&& enter.flags & IORING_ENTER_GETEVENTS != 0 <==> old(ring).flags
                        & IORING_SETUP_IOPOLL != 0
                    &&& enter.flags & !(IORING_ENTER_GETEVENTS | IORING_ENTER_SQ_WAKEUP) == 0
                },
                Submit::Submitted(count) => thread && !asleep && count == pending,
            }
        }),
{
    lemma_single_flag(old(ring).flags, old(ring).shared.sq_flags);
    lemma_enter_flags();
}

/// Whether the kernel has to be entered to submit, and how the flags of the call
/// change: the wakeup flag is added exactly if there is a submission thread that
/// sleeps, and every other flag stays as it is. The ring is only looked at.
pub proof fn law_needs_enter_adds_wakeup(ring: &mut IoUring, flags: &mut u32, res: bool)
    requires
        call_ensures(IoUring::sq_ring_needs_enter, (ring, flags), res),
    ensures
        ({
            let thread = old(ring).flags & IORING_SETUP_SQPOLL != 0;
            let asleep = old(ring).shared.sq_flags & IORING_SQ_NEED_WAKEUP != 0;
            &&& res <==> (!thread || asleep)
            &&& (thread && asleep) ==> *final(flags) & IORING_ENTER_SQ_WAKEUP != 0
            &&& !(thread && asleep) ==> *final(flags) == *old(flags)
            &&& *final(flags) & !IORING_ENTER_SQ_WAKEUP == *old(flags) & !IORING_ENTER_SQ_WAKEUP
        }),
        *final(ring) == *old(ring),
{
    lemma_single_flag(old(ring).flags, old(ring).shared.sq_flags);
    let before = *old(flags);
    assert((before | 2) & 2 != 0 && (before | 2) & !2u32 == before & !2u32) by (bit_vector);
}

/// Entering hands the kernel what it is told to.
pub proof fn law_enter_hands_on(
    ring: &mut IoUring,
    to_submit: u32,
    min_complete: u32,
    flags: u32,
    res: Enter,
)
    requires
        call_ensures(IoUring::enter, (ring, to_submit, min_complete, flags), res),
    ensures
        res.fd == old(ring).fd,
        res.to_submit == to_submit,
        res.min_complete == min_complete,
        res.flags == flags,
        *final(ring) == *old(ring),
{
}

/// What a submission returns is what the kernel returned, if it was entered, and
/// otherwise the number of pending entries.
pub proof fn law_submission_returns(submit: Submit, entered: Result<u32, Errno>, res: Result<
    u32,
    Errno,
>)
    requires
        call_ensures(Submit::finish, (submit, entered), res),
    ensures
        submit is Enter ==> res == entered,
        submit matches Submit::Submitted(count) ==> res == Ok::<u32, Errno>(count),
{
}

/// The lengths of the two queues, counted from head to tail.
pub proof fn law_ready_counts(
    submissions: &mut IoUring,
    pending: u32,
    completions: &mut IoUring,
    ready: u32,
)
    requires
        call_ensures(IoUring::sq_ready, (submissions,), pending),
        call_ensures(IoUring::cq_ready, (completions,), ready),
    ensures
        pending == (old(submissions).sq.sqe_tail - old(submissions).shared.sq_head)
            % 0x1_0000_0000,
        *final(submissions) == *old(submissions),
        ready == (old(completions).shared.cq_tail - old(completions).shared.cq_head)
            % 0x1_0000_0000,
        *final(completions) == *old(completions),
{
}

/// A batch takes the oldest completions out of the queue, in order and across the
/// end of the ring: as many as are ready, or as there is room for if that is less.
/// In particular it takes some if some are ready and there is any room. What is
/// beyond them in the slice stays as it is. The kernel is to be entered exactly if
/// none was taken and there is something to wait for or to fetch.
pub proof fn law_batch_takes_what_fits(
    ring: &mut IoUring,
    cqes: &mut [Cqe],
    wait_nr: u32,
    res: CopyCqes,
)
    requires
        old(ring).wf(),
        old(ring).copy_in_ring(old(cqes)@.len()),
        call_ensures(IoUring::copy_cqes, (ring, cqes, wait_nr), res),
    ensures
        ({
            let e = old(ring).cq.entries as int;
            let room = old(cqes)@.len();
            let ready = (old(ring).shared.cq_tail - old(ring).shared.cq_head) % 0x1_0000_0000;
            let taken = (final(ring).shared.cq_head - old(ring).shared.cq_head) % 0x1_0000_0000;
            &&& taken <= room
            &&& taken <= ready
            &&& taken == room || taken == ready
            &&& final(cqes)@.len() == room
            &&& forall|i: int|
                0 <= i < taken ==> #[trigger] final(cqes)@[i] == old(ring).shared.cqes@[(
                old(ring).shared.cq_head + i) % e]
            &&& forall|i: int|
                taken <= i < room ==> #[trigger] final(cqes)@[i] == old(cqes)@[i]
            &&& res matches CopyCqes::Copied(count) ==> count == taken
            &&& res is Enter <==> taken == 0 && (wait_nr > 0 || old(ring).shared.sq_flags
                & IORING_SQ_CQ_OVERFLOW != 0)
            &&& res matches CopyCqes::Enter(enter) ==> enter.fd == old(ring).fd
                && enter.to_submit == 0 && enter.min_complete == wait_nr && enter.flags
                == IORING_ENTER_GETEVENTS
        }),
        *final(ring) == (IoUring {
            shared: Ioring { cq_head: final(ring).shared.cq_head, ..old(ring).shared },
            ..*old(ring)
        }),
{
    lemma_taken(*old(ring), old(cqes)@.len());
    lemma_single_flag(old(ring).flags, old(ring).shared.sq_flags);
}

/// The same of a batch after the kernel was entered. If that failed, nothing
/// happens.
pub proof fn law_batch_after_entering(
    ring: &mut IoUring,
    cqes: &mut [Cqe],
    entered: Result<u32, Errno>,
    res: Result<u32, Errno>,
)
    requires
        old(ring).wf(),
        entered is Ok ==> old(ring).copy_in_ring(old(cqes)@.len()),
        call_ensures(IoUring::copy_cqes_entered, (ring, cqes, entered), res),
    ensures
        entered matches Err(e) ==> res == Err::<u32, Errno>(e) && *final(ring) == *old(ring)
            && final(cqes)@ == old(cqes)@,
        entered is Ok ==> {
            let e = old(ring).cq.entries as int;
            let room = old(cqes)@.len();
            let ready = (old(ring).shared.cq_tail - old(ring).shared.cq_head) % 0x1_0000_0000;
            let taken = (final(ring).shared.cq_head - old(ring).shared.cq_head) % 0x1_0000_0000;
            &&& res == Ok::<u32, Errno>(taken as u32)
            &&& taken <= room
            &&& taken <= ready
            &&& taken == room || taken == ready
            &&& final(cqes)@.len() == room
            &&& forall|i: int|
                0 <= i < taken ==> #[trigger] final(cqes)@[i] == old(ring).shared.cqes@[(
                old(ring).shared.cq_head + i) % e]
            &&& forall|i: int|
                taken <= i < room ==> #[trigger] final(cqes)@[i] == old(cqes)@[i]
        },
        *final(ring) == (IoUring {
            shared: Ioring { cq_head: final(ring).shared.cq_head, ..old(ring).shared },
            ..*old(ring)
        }),
{
    lemma_taken(*old(ring), old(cqes)@.len());
}

/// One completion is the oldest. If there is none, the kernel is entered to wait
/// for one and nothing is taken.
pub proof fn law_one_completion_is_the_oldest(ring: &mut IoUring, res: CopyCqe)
    requires
        old(ring).wf(),
        call_ensures(IoUring::copy_cqe, (ring,), res),
    ensures
        res is Ready <==> old(ring).shared.cq_head != old(ring).shared.cq_tail,
        res matches CopyCqe::Ready(cqe) ==> {
            &&& cqe == old(ring).shared.cqes@[old(ring).shared.cq_head as int % (
            old(ring).cq.entries as int)]
            &&& final(ring).shared.cq_head == (old(ring).shared.cq_head + 1) % 0x1_0000_0000
        },
        res matches CopyCqe::Enter(enter) ==> {
            &&& enter.fd == old(ring).fd
            &&& enter.to_submit == 0
            &&& enter.min_complete == 1
            &&& enter.flags == IORING_ENTER_GETEVENTS
            &&& final(ring).shared.cq_head == old(ring).shared.cq_head
        },
        *final(ring) == (IoUring {
            shared: Ioring { cq_head: final(ring).shared.cq_head, ..old(ring).shared },
            ..*old(ring)
        }),
{
}

/// The same after the kernel was entered, which may leave nothing to take.
pub proof fn law_one_completion_after_entering(
    ring: &mut IoUring,
    entered: Result<u32, Errno>,
    res: Result<Option<Cqe>, Errno>,
)
    requires
        old(ring).wf(),
        call_ensures(IoUring::copy_cqe_entered, (ring, entered), res),
    ensures
        entered matches Err(e) ==> res == Err::<Option<Cqe>, Errno>(e) && *final(ring) == *old(
            ring,
        ),
        entered is Ok ==> {
            &&& res is Ok
            &&& res->Ok_0 is Some <==> old(ring).shared.cq_head != old(ring).shared.cq_tail
            &&& res->Ok_0 matches Some(cqe) ==> {
                &&& cqe == old(ring).shared.cqes@[old(ring).shared.cq_head as int % (
                old(ring).cq.entries as int)]
                &&& final(ring).shared.cq_head == (old(ring).shared.cq_head + 1) % 0x1_0000_0000
            }
            &&& res->Ok_0 is None ==> final(ring).shared.cq_head == old(ring).shared.cq_head
        },
        *final(ring) == (IoUring {
            shared: Ioring { cq_head: final(ring).shared.cq_head, ..old(ring).shared },
            ..*old(ring)
        }),
{
}

/// Completions are given back one by one or many at a time: only the head moves,
/// by that many.
pub proof fn law_giving_back_moves_the_head(
    seen: &mut IoUring,
    cqe: Cqe,
    advanced: &mut IoUring,
    count: u32,
)
    requires
        call_ensures(IoUring::cqe_seen, (seen, &cqe), ()),
        call_ensures(IoUring::cq_advance, (advanced, count), ()),
    ensures
        final(seen).shared.cq_head == (old(seen).shared.cq_head + 1) % 0x1_0000_0000,
        *final(seen) == (IoUring {
            shared: Ioring { cq_head: final(seen).shared.cq_head, ..old(seen).shared },
            ..*old(seen)
        }),
        final(advanced).shared.cq_head == (old(advanced).shared.cq_head + count) % 0x1_0000_0000,
        *final(advanced) == (IoUring {
            shared: Ioring { cq_head: final(advanced).shared.cq_head, ..old(advanced).shared },
            ..*old(advanced)
        }),
{
}

/// Whether completions wait in the kernel is what it flags, whatever else it does.
pub proof fn law_overflow_is_flagged(ring: &mut IoUring, res: bool)
    requires
        call_ensures(IoUring::cq_ring_needs_flush, (ring,), res),
    ensures
        res <==> old(ring).shared.sq_flags & IORING_SQ_CQ_OVERFLOW != 0,
        *final(ring) == *old(ring),
{
    lemma_single_flag(old(ring).flags, old(ring).shared.sq_flags);
}

/// Whether a batch fits: it passes the end of the ring at most once.
pub proof fn law_copy_fits_up_to_two_turns(ring: IoUring, len: usize, res: bool)
    requires
        ring.wf(),
        call_ensures(IoUring::copy_fits, (&ring, len), res),
    ensures
        ({
            let head = ring.shared.cq_head as int % (ring.cq.entries as int);
            let ready = (ring.shared.cq_tail - ring.shared.cq_head) % 0x1_0000_0000;
            res <==> (head + len <= 2 * ring.cq.entries || head + ready <= 2 * ring.cq.entries)
        }),
        res == ring.copy_in_ring(len as nat),
{
}

/// What the kernel did is taken over field by field: how far it consumed, what it
/// flags, and the completion it posted at the tail.
pub proof fn law_kernel_steps_are_taken_over(
    consumed: &mut IoUring,
    sq_head: u32,
    flagged: &mut IoUring,
    sq_flags: u32,
    posted: &mut IoUring,
    cqe: Cqe,
)
    requires
        call_ensures(IoUring::kernel_consumed, (consumed, sq_head), ()),
        call_ensures(IoUring::kernel_flagged, (flagged, sq_flags), ()),
        old(posted).wf(),
        call_ensures(IoUring::kernel_posted, (posted, cqe), ()),
    ensures
        *final(consumed) == (IoUring {
            shared: Ioring { sq_head, ..old(consumed).shared },
            ..*old(consumed)
        }),
        *final(flagged) == (IoUring {
            shared: Ioring { sq_flags, ..old(flagged).shared },
            ..*old(flagged)
        }),
        ({
            let at = old(posted).shared.cq_tail as int % (old(posted).cq.entries as int);
            &&& final(posted).shared.cqes@.len() == old(posted).shared.cqes@.len()
            &&& final(posted).shared.cqes@[at] == cqe
            &&& forall|i: int|
                0 <= i < old(posted).cq.entries && i != at
                    ==> #[trigger] final(posted).shared.cqes@[i] == old(posted).shared.cqes@[i]
        }),
        final(posted).shared.cq_tail == (old(posted).shared.cq_tail + 1) % 0x1_0000_0000,
        *final(posted) == (IoUring {
            shared: Ioring {
                cqes: final(posted).shared.cqes,
                cq_tail: final(posted).shared.cq_tail,
                ..old(posted).shared
            },
            ..*old(posted)
        }),
{
    lemma_slot_in_ring(old(posted).shared.cq_tail, 0, old(posted).cq.entries);
}

/// Which slots a flush reads and writes, and which one the next completion goes
/// to.
pub proof fn law_slots_are_named(
    ring: IoUring,
    i: u32,
    unflushed: u32,
    slots: (u32, u32),
    next: u32,
)
    requires
        ring.wf(),
        call_ensures(IoUring::unflushed, (&ring,), unflushed),
        call_ensures(IoUring::flush_slots, (&ring, i), slots),
        call_ensures(IoUring::completion_slot, (&ring,), next),
    ensures
        unflushed == (ring.sq.sqe_tail - ring.sq.sqe_head) % 0x1_0000_0000,
        slots.0 == (ring.sq.sqe_head + i) % (ring.sq.entries as int),
        slots.1 == (ring.shared.sq_tail + i) % (ring.sq.entries as int),
        next == ring.shared.cq_tail as int % (ring.cq.entries as int),
{
}

/// The shared memory is read and written one field at a time.
pub proof fn law_shared_fields(
    shared: Ioring,
    heads: (u32, u32),
    tails: (u32, u32),
    flag: u32,
    flagged: bool,
    written: &mut Ioring,
    new_tail: u32,
    advanced: &mut Ioring,
    count: u32,
)
    requires
        call_ensures(Ioring::sq_head, (&shared,), heads.0),
        call_ensures(Ioring::cq_head, (&shared,), heads.1),
        call_ensures(Ioring::sq_tail, (&shared,), tails.0),
        call_ensures(Ioring::cq_tail, (&shared,), tails.1),
        call_ensures(Ioring::sq_flag_contains, (&shared, flag), flagged),
        call_ensures(Ioring::sq_tail_write, (written, new_tail), ()),
        call_ensures(Ioring::cq_advance, (advanced, count), ()),
    ensures
        heads == (shared.sq_head, shared.cq_head),
        tails == (shared.sq_tail, shared.cq_tail),
        flagged <==> shared.sq_flags | flag == shared.sq_flags,
        *final(written) == (Ioring { sq_tail: new_tail, ..*old(written) }),
        final(advanced).cq_head == (old(advanced).cq_head + count) % 0x1_0000_0000,
        *final(advanced) == (Ioring { cq_head: final(advanced).cq_head, ..*old(advanced) }),
{
    law_holding_is_unchanged_by_adding(shared.sq_flags, flag);
}

/// How far consuming what fits moves the head.
proof fn lemma_taken(ring: IoUring, len: nat)
    ensures
        ({
            let count = ring.copy_count(len);
            distance(ring.shared.cq_head, advance(ring.shared.cq_head, count as int)) == count
        }),
{
    lemma_distance_to_advanced(
        ring.shared.cq_head,
        ring.shared.cq_head,
        ring.copy_count(len) as int,
    );
}

/// A flag of a single bit is held exactly if it leaves something of a word.
proof fn lemma_single_flag(flags: u32, sq_flags: u32)
    ensures
        holds(flags, IORING_SETUP_SQPOLL) <==> flags & IORING_SETUP_SQPOLL != 0,
        holds(flags, IORING_SETUP_IOPOLL) <==> flags & IORING_SETUP_IOPOLL != 0,
        holds(sq_flags, IORING_SQ_NEED_WAKEUP) <==> sq_flags & IORING_SQ_NEED_WAKEUP != 0,
        holds(sq_flags, IORING_SQ_CQ_OVERFLOW) <==> sq_flags & IORING_SQ_CQ_OVERFLOW != 0,
{
    assert((flags & 1 == 1) == (flags & 1 != 0) && (flags & 2 == 2) == (flags & 2 != 0))
        by (bit_vector);
    assert((sq_flags & 1 == 1) == (sq_flags & 1 != 0) && (sq_flags & 2 == 2) == (sq_flags & 2
        != 0)) by (bit_vector);
}

/// Which of the two flags each combination holds.
proof fn lemma_enter_flags()
    ensures
        0u32 & 1 == 0 && 0u32 & 2 == 0,
        1u32 & 1 != 0 && 1u32 & 2 == 0,
        2u32 & 1 == 0 && 2u32 & 2 != 0,
        3u32 & 1 != 0 && 3u32 & 2 != 0,
        0u32 & !(1u32 | 2) == 0,
        1u32 & !(1u32 | 2) == 0,
        2u32 & !(1u32 | 2) == 0,
        3u32 & !(1u32 | 2) == 0,
{
    assert(0u32 & 1 == 0 && 0u32 & 2 == 0 && 1u32 & 1 != 0 && 1u32 & 2 == 0 && 2u32 & 1 == 0 && 2u32
        & 2 != 0 && 3u32 & 1 != 0 && 3u32 & 2 != 0) by (bit_vector);
    assert(0u32 & !(1u32 | 2) == 0 && 1u32 & !(1u32 | 2) == 0 && 2u32 & !(1u32 | 2) == 0 && 3u32
        & !(1u32 | 2) == 0) by (bit_vector);
}

} // verus!
