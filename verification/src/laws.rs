//! What holds of a ring across calls.
//!
//! A ring is two queues: entries go into [`IoUring::pending`] at one end and the
//! kernel takes them out at the other, and the same the other way round for
//! [`IoUring::completions`]. The laws say so of every step that the application
//! or the kernel takes.
use crate::buffer::{tail_after, BufRing};
use crate::entry::{Cqe, Sqe};
use crate::flags::{holds, IORING_SETUP_SQPOLL};
use crate::index::{
    advance, distance, index_range, lemma_advance_distance, lemma_distance_from_advanced,
    lemma_distance_to_advanced, lemma_power_of_two_exponent, lemma_slot_advance,
    lemma_slot_in_ring, lemma_slots_differ, lemma_wrap_keeps_slot, power_of_two, slot,
};
use crate::request::Submit;
use crate::ring::{announced, IoUring};
use crate::setup::{RingMasks, RingSetup};
use crate::shared::Ioring;
use vstd::arithmetic::div_mod::*;
use vstd::arithmetic::power2::*;
use vstd::prelude::*;

verus! {

/// A new ring is empty.
pub proof fn law_new_ring_is_empty(setup: RingSetup, masks: RingMasks, ring: IoUring)
    requires
        setup.built(ring, masks),
    ensures
        ring.pending() == Seq::<Sqe>::empty(),
        ring.submitted() == Seq::<Sqe>::empty(),
        ring.completions() == Seq::<Cqe>::empty(),
{
}

/// An entry can be handed out exactly as long as fewer are pending than the
/// submission queue has room for.
pub proof fn law_full_at_capacity(ring: IoUring)
    requires
        ring.consistent(),
    ensures
        ring.sq_full() <==> ring.pending().len() == ring.sq.entries,
{
    lemma2_to64();
    lemma_power_of_two_exponent(ring.sq.entries as int, 32);
    lemma_distance_to_advanced(ring.shared.sq_head, ring.sq.sqe_tail, 1);
}

/// An entry that is handed out goes to the end of the submission queue, as the
/// application leaves it. Nothing that is already queued is touched, and the
/// kernel sees nothing of it yet.
pub proof fn law_get_sqe_appends(pre: IoUring, post: IoUring, sqe: Sqe)
    requires
        pre.consistent(),
        !pre.sq_full(),
        pre.handed_out(post, sqe),
    ensures
        post.consistent(),
        post.pending() == pre.pending().push(sqe),
        post.submitted() == pre.submitted(),
        post.completions() == pre.completions(),
{
    law_full_at_capacity(pre);
    let head = pre.shared.sq_head;
    let e = pre.sq.entries;
    let d = distance(head, pre.sq.sqe_tail) as int;
    lemma2_to64();
    lemma_power_of_two_exponent(e as int, 32);
    lemma_distance_to_advanced(head, pre.sq.sqe_tail, 1);
    lemma_advance_distance(head, pre.sq.sqe_tail);
    lemma_slot_advance(head, d, 0, e);
    lemma_slot_in_ring(head, d, e);
    assert forall|i: int| 0 <= i < d implies {
        &&& 0 <= #[trigger] slot(head, i, e as int) < e
        &&& post.sq.sqes@[slot(head, i, e as int)] == pre.sq.sqes@[slot(head, i, e as int)]
    } by {
        lemma_slots_differ(head, i, d, e);
        lemma_slot_in_ring(head, i, e);
    }
    assert(post.pending() =~= pre.pending().push(sqe));
    assert(post.submitted() =~= pre.submitted());
}

/// After a flush, what the kernel finds is all of the submission queue, in the
/// order in which the entries were handed out.
pub proof fn law_flush_submits_all(pre: IoUring, post: IoUring)
    requires
        pre.consistent(),
        pre.flushed(post),
    ensures
        post.consistent(),
        post.pending() == pre.pending(),
        post.submitted() == pre.pending(),
        post.completions() == pre.completions(),
{
    let head = pre.shared.sq_head;
    let tail = pre.shared.sq_tail;
    let e = pre.sq.entries;
    let a = distance(head, tail) as int;
    let n = distance(tail, pre.sq.sqe_tail);
    lemma_advance_distance(head, tail);
    lemma_advance_distance(tail, pre.sq.sqe_tail);
    lemma_distance_from_advanced(head, pre.sq.sqe_tail, a);
    law_announces_each_entry(pre.shared.sq_array@, tail, tail, e, n);
    assert forall|i: int| 0 <= i < a + n implies post.shared.sq_array@[#[trigger] slot(
        head,
        i,
        e as int,
    )] == slot(head, i, e as int) by {
        lemma_slot_in_ring(head, i, e);
        if i < a {
            assert forall|k: int| 0 <= k < n implies slot(head, i, e as int) != #[trigger] slot(
                tail,
                k,
                e as int,
            ) by {
                lemma_slot_advance(head, a, k, e);
                lemma_slots_differ(head, i, a + k, e);
            }
        } else {
            lemma_slot_advance(head, a, i - a, e);
            assert(slot(head, i, e as int) == slot(tail, i - a, e as int));
        }
    }
    assert(post.pending() =~= pre.pending());
    assert forall|i: int| 0 <= i < a + n implies #[trigger] post.submitted()[i]
        == pre.pending()[i] by {
        assert(post.shared.sq_array@[slot(head, i, e as int)] == slot(head, i, e as int));
    }
    assert(post.submitted() =~= pre.pending());
}

/// Entries that are handed out one after the other reach the kernel with the next
/// flush, each as the application left it, in that order, and after everything
/// that was pending before. `rings` are the ring before the first and after each.
pub proof fn law_entries_reach_kernel_in_order(
    rings: Seq<IoUring>,
    sqes: Seq<Sqe>,
    flushed: IoUring,
)
    requires
        rings.len() == sqes.len() + 1,
        rings[0].consistent(),
        forall|i: int|
            0 <= i < sqes.len() ==> !(#[trigger] rings[i]).sq_full() && rings[i].handed_out(
                rings[i + 1],
                sqes[i],
            ),
        rings.last().flushed(flushed),
    ensures
        flushed.consistent(),
        flushed.submitted() == rings[0].pending() + sqes,
{
    lemma_handed_out_in_order(rings, sqes, sqes.len() as int);
    assert(sqes.take(sqes.len() as int) =~= sqes);
    law_flush_submits_all(rings.last(), flushed);
}

/// The first `n` entries that are handed out queue up.
proof fn lemma_handed_out_in_order(rings: Seq<IoUring>, sqes: Seq<Sqe>, n: int)
    requires
        rings.len() == sqes.len() + 1,
        rings[0].consistent(),
        forall|i: int|
            0 <= i < sqes.len() ==> !(#[trigger] rings[i]).sq_full() && rings[i].handed_out(
                rings[i + 1],
                sqes[i],
            ),
        0 <= n <= sqes.len(),
    ensures
        rings[n].consistent(),
        rings[n].pending() == rings[0].pending() + sqes.take(n),
    decreases n,
{
    if n == 0 {
        assert(rings[0].pending() =~= rings[0].pending() + sqes.take(0));
    } else {
        lemma_handed_out_in_order(rings, sqes, n - 1);
        assert(!rings[n - 1].sq_full());
        law_get_sqe_appends(rings[n - 1], rings[n], sqes[n - 1]);
        assert(rings[n].pending() =~= rings[0].pending() + sqes.take(n));
    }
}

/// What is announced to the kernel are the oldest entries of the submission
/// queue.
pub proof fn law_submitted_is_prefix(ring: IoUring)
    requires
        ring.consistent(),
    ensures
        ring.submitted() == ring.pending().take(ring.submitted().len() as int),
{
    assert(ring.submitted() =~= ring.pending().take(ring.submitted().len() as int));
}

/// A second flush changes nothing.
pub proof fn law_flush_is_idempotent(pre: IoUring, once: IoUring, twice: IoUring)
    requires
        pre.flushed(once),
        once.flushed(twice),
    ensures
        twice.shared.sq_array@ == once.shared.sq_array@,
        twice == (IoUring {
            shared: Ioring { sq_array: twice.shared.sq_array, ..once.shared },
            ..once
        }),
{
}

/// The kernel takes entries from the front of the submission queue.
pub proof fn law_kernel_consumes_oldest(pre: IoUring, count: int)
    requires
        pre.consistent(),
        0 <= count <= pre.submitted().len(),
    ensures
        ({
            let post = IoUring {
                shared: Ioring { sq_head: advance(pre.shared.sq_head, count), ..pre.shared },
                ..pre
            };
            &&& post.consistent()
            &&& post.pending() == pre.pending().skip(count)
            &&& post.submitted() == pre.submitted().skip(count)
            &&& post.completions() == pre.completions()
        }),
{
    let post = IoUring {
        shared: Ioring { sq_head: advance(pre.shared.sq_head, count), ..pre.shared },
        ..pre
    };
    let head = pre.shared.sq_head;
    let e = pre.sq.entries;
    lemma_distance_from_advanced(head, pre.shared.sq_tail, count);
    lemma_distance_from_advanced(head, pre.sq.sqe_tail, count);
    assert forall|i: int| #[trigger]
        slot(post.shared.sq_head, i, e as int) == slot(head, count + i, e as int) by {
        lemma_slot_advance(head, count, i, e);
    }
    assert(post.pending() =~= pre.pending().skip(count));
    assert(post.submitted() =~= pre.submitted().skip(count));
}

/// A completion that the kernel posts goes to the end of the completion queue,
/// and touches nothing that is already there.
pub proof fn law_kernel_posts_last(pre: IoUring, post: IoUring, cqe: Cqe)
    requires
        pre.consistent(),
        pre.completions().len() < pre.cq.entries,
        pre.posted(post, cqe),
    ensures
        post.consistent(),
        post.completions() == pre.completions().push(cqe),
        post.pending() == pre.pending(),
        post.submitted() == pre.submitted(),
{
    let head = pre.shared.cq_head;
    let e = pre.cq.entries;
    let d = distance(head, pre.shared.cq_tail) as int;
    lemma_distance_to_advanced(head, pre.shared.cq_tail, 1);
    lemma_advance_distance(head, pre.shared.cq_tail);
    lemma_slot_advance(head, d, 0, e);
    lemma_slot_in_ring(head, d, e);
    assert forall|i: int| 0 <= i < d implies {
        &&& 0 <= #[trigger] slot(head, i, e as int) < e
        &&& post.shared.cqes@[slot(head, i, e as int)] == pre.shared.cqes@[slot(head, i, e as int)]
    } by {
        lemma_slots_differ(head, i, d, e);
        lemma_slot_in_ring(head, i, e);
    }
    assert(post.completions() =~= pre.completions().push(cqe));
}

/// Completions that the kernel posts one after the other are what the application
/// finds, in that order, and after everything that was there before. `rings` are
/// the ring before the first and after each.
pub proof fn law_completions_arrive_in_order(rings: Seq<IoUring>, cqes: Seq<Cqe>)
    requires
        rings.len() == cqes.len() + 1,
        rings[0].consistent(),
        rings[0].completions().len() + cqes.len() <= rings[0].cq.entries,
        forall|i: int|
            0 <= i < cqes.len() ==> (#[trigger] rings[i]).posted(rings[i + 1], cqes[i]),
    ensures
        rings.last().consistent(),
        rings.last().completions() == rings[0].completions() + cqes,
        rings.last().cq.entries == rings[0].cq.entries,
    decreases cqes.len(),
{
    let n = cqes.len() as int;
    if n == 0 {
        assert(rings[0].completions() =~= rings[0].completions() + cqes);
    } else {
        let before = rings.drop_last();
        law_completions_arrive_in_order(before, cqes.drop_last());
        assert(rings[n - 1].posted(rings[n], cqes[n - 1]));
        law_kernel_posts_last(rings[n - 1], rings[n], cqes[n - 1]);
        assert(rings.last().completions() =~= rings[0].completions() + cqes);
    }
}

/// Completions are consumed from the front of the completion queue, and the
/// submission queue does not notice.
pub proof fn law_consumes_oldest(ring: IoUring, count: int)
    requires
        ring.wf(),
        0 <= count <= ring.completions().len(),
    ensures
        ring.consumed(count).completions() == ring.completions().skip(count),
        ring.consumed(count).pending() == ring.pending(),
        ring.consumed(count).submitted() == ring.submitted(),
        ring.consistent() ==> ring.consumed(count).consistent(),
{
    let post = ring.consumed(count);
    let head = ring.shared.cq_head;
    let e = ring.cq.entries;
    lemma_distance_from_advanced(head, ring.shared.cq_tail, count);
    assert forall|i: int| #[trigger]
        slot(post.shared.cq_head, i, e as int) == slot(head, count + i, e as int) by {
        lemma_slot_advance(head, count, i, e);
    }
    assert(post.completions() =~= ring.completions().skip(count));
}

/// Consuming completions in two steps is consuming them in one. In particular
/// marking a completion as seen twice loses the one after it.
pub proof fn law_consuming_adds_up(ring: IoUring, first: int, second: int)
    ensures
        ring.consumed(first).consumed(second) == ring.consumed(first + second),
{
    lemma_add_mod_noop_right(second, ring.shared.cq_head + first, index_range());
}

/// Copying completions in two batches yields what one batch would have.
pub proof fn law_batches_add_up(ring: IoUring, first: Seq<Cqe>, second: Seq<Cqe>)
    requires
        ring.wf(),
    ensures
        ({
            let after = ring.consumed(ring.copy_count(first.len()) as int);
            let m = ring.copy_count(first.len());
            let n = after.copy_count(second.len());
            &&& m + n == ring.copy_count(first.len() + second.len())
            &&& ring.copied(first).take(m as int) + after.copied(second).take(n as int)
                == ring.completions().take((m + n) as int)
        }),
{
    let m = ring.copy_count(first.len());
    let after = ring.consumed(m as int);
    law_consumes_oldest(ring, m as int);
    let n = after.copy_count(second.len());
    assert(ring.copied(first).take(m as int) + after.copied(second).take(n as int)
        =~= ring.completions().take((m + n) as int));
}

/// A consistent ring never runs past its own end when completions are copied.
pub proof fn law_copy_stays_in_ring(ring: IoUring, len: nat)
    requires
        ring.consistent(),
    ensures
        ring.copy_in_ring(len),
{
    lemma_slot_in_ring(ring.shared.cq_head, 0, ring.cq.entries);
}

/// Without a submission thread, every submission enters the kernel, with all
/// that is pending.
pub proof fn law_without_thread_enters(ring: IoUring, wait_nr: u32)
    requires
        !holds(ring.flags, IORING_SETUP_SQPOLL),
    ensures
        ring.submission(wait_nr) matches Submit::Enter(enter) && enter.to_submit
            == ring.pending().len() && enter.min_complete == wait_nr,
{
}

/// Once everything was flushed and the kernel has consumed it all, the submission
/// queue is empty and both of its ends meet.
pub proof fn law_drained_queue_is_clean(pre: IoUring, flushed: IoUring)
    requires
        pre.consistent(),
        pre.flushed(flushed),
    ensures
        ({
            let post = IoUring {
                shared: Ioring { sq_head: flushed.shared.sq_tail, ..flushed.shared },
                ..flushed
            };
            &&& post.consistent()
            &&& post.pending() == Seq::<Sqe>::empty()
            &&& post.submitted() == Seq::<Sqe>::empty()
            &&& post.sq.sqe_head == post.sq.sqe_tail
        }),
{
    law_flush_submits_all(pre, flushed);
    let n = flushed.submitted().len() as int;
    lemma_advance_distance(flushed.shared.sq_head, flushed.shared.sq_tail);
    law_kernel_consumes_oldest(flushed, n);
    let post = IoUring {
        shared: Ioring { sq_head: flushed.shared.sq_tail, ..flushed.shared },
        ..flushed
    };
    assert(post.pending() =~= Seq::<Sqe>::empty());
    assert(post.submitted() =~= Seq::<Sqe>::empty());
}

/// How far two positions lie apart does not depend on where they are: counting
/// goes on undisturbed when they wrap around.
pub proof fn law_distance_survives_wrapping(from: u32, to: u32, n: int)
    ensures
        distance(advance(from, n), advance(to, n)) == distance(from, to),
{
    lemma_sub_mod_noop(to + n, from + n, index_range());
}

/// A buffer that is added comes after the `n` buffers that were added since the
/// position `from`, and overwrites none of them as long as the ring has room.
/// The kernel sees nothing of it yet.
pub proof fn law_push_appends(
    pre: BufRing,
    post: BufRing,
    from: u16,
    n: nat,
    addr: u64,
    len: u32,
    bid: u16,
)
    requires
        pre.wf(),
        pre.pushed(post, addr, len, bid),
        pre.local_tail == tail_after(from, n as int),
        n < pre.entries(),
    ensures
        post.wf(),
        post.local_tail == tail_after(from, n as int + 1),
        post.provided(from, n + 1) == pre.provided(from, n).push((addr, len, bid)),
        post.published_tail() == pre.published_tail(),
{
    let e = pre.entries();
    lemma2_to64();
    lemma_add_mod_noop_right(1, from + n, 0x1_0000);
    lemma_wrap_keeps_slot(from + n, e, 16);
    assert forall|i: int| 0 <= i < n implies 0 <= #[trigger] pre.slot(from, i) < e && pre.slot(
        from,
        i,
    ) != pre.slot(from, n as int) by {
        lemma_slots_differ(from as u32, i, n as int, e as u32);
        lemma_slot_in_ring(from as u32, i, e as u32);
    }
    lemma_slot_in_ring(from as u32, n as int, e as u32);
    assert(post.provided(from, n + 1) =~= pre.provided(from, n).push((addr, len, bid)));
}

/// Publishing the tail shows the kernel every buffer that was added, and leaves
/// them as they were.
pub proof fn law_sync_publishes(pre: BufRing, post: BufRing, from: u16, n: nat)
    requires
        pre.wf(),
        pre.synced(post),
    ensures
        post.wf(),
        post.published_tail() == post.local_tail,
        post.local_tail == pre.local_tail,
        post.provided(from, n) == pre.provided(from, n),
{
    assert(post.provided(from, n) =~= pre.provided(from, n));
}

/// What the index array holds after entries were announced: each position that
/// was written holds the slot of the entry that was announced there last, and
/// every other position what it held before.
pub proof fn law_announces_each_entry(array: Seq<u32>, tail: u32, head: u32, entries: u32, n: nat)
    requires
        power_of_two(entries as int),
        array.len() == entries,
    ensures
        announced(array, tail, head, entries, n).len() == entries,
        forall|i: int|
            0 <= i < n <= i + entries ==> announced(array, tail, head, entries, n)[#[trigger] slot(
                tail,
                i,
                entries as int,
            )] == slot(head, i, entries as int),
        forall|s: int|
            0 <= s < entries && (forall|i: int|
                0 <= i < n ==> s != #[trigger] slot(tail, i, entries as int))
                ==> #[trigger] announced(array, tail, head, entries, n)[s] == array[s],
    decreases n,
{
    if n > 0 {
        let last = n - 1;
        law_announces_each_entry(array, tail, head, entries, last as nat);
        lemma_slot_in_ring(tail, last, entries);
        lemma_slot_in_ring(head, last, entries);
        assert forall|i: int| 0 <= i < n <= i + entries implies announced(
            array,
            tail,
            head,
            entries,
            n,
        )[#[trigger] slot(tail, i, entries as int)] == slot(head, i, entries as int) by {
            if i < last {
                lemma_slots_differ(tail, i, last, entries);
                lemma_slot_in_ring(tail, i, entries);
            }
        }
        assert forall|s: int|
            0 <= s < entries && (forall|i: int|
                0 <= i < n ==> s != #[trigger] slot(
                    tail,
                    i,
                    entries as int,
                )) implies #[trigger] announced(array, tail, head, entries, n)[s] == array[s] by {
            assert(s != slot(tail, last, entries as int));
        }
    }
}

} // verus!
