//! What holds of a ring over a whole run, however long it is and in whatever
//! order the steps of the application and of the kernel follow each other.
use crate::buffer::{tail_after, BufRing};
use crate::entry::{Cqe, Sqe};
use crate::index::{
    advance, lemma_slot_in_ring, lemma_slots_differ, lemma_wrap_keeps_slot, slot,
};
use crate::laws::{
    law_consumes_oldest, law_flush_submits_all, law_get_sqe_appends, law_kernel_consumes_oldest,
    law_kernel_posts_last, law_new_ring_is_empty, law_push_appends, law_sync_publishes,
};
use crate::ring::IoUring;
use crate::setup::{RingMasks, RingSetup};
use crate::shared::Ioring;
use vstd::arithmetic::div_mod::*;
use vstd::arithmetic::power2::*;
use vstd::prelude::*;

verus! {

/// A step in the life of a ring.
pub enum Step {
    /// An entry is handed out, and becomes this.
    HandOut(Sqe),
    /// What was handed out is announced to the kernel.
    Flush,
    /// The kernel consumes so many submissions.
    Consume(u32),
    /// The kernel posts a completion.
    Post(Cqe),
    /// The application consumes so many completions.
    Reap(u32),
    /// The kernel leaves these flags on the submission queue.
    Flag(u32),
}

impl Step {
    /// The step leads from `pre` to `post`. The kernel consumes only what was
    /// announced, and posts only where there is room.
    pub open spec fn leads(self, pre: IoUring, post: IoUring) -> bool {
        match self {
            Step::HandOut(sqe) => !pre.sq_full() && pre.handed_out(post, sqe),
            Step::Flush => pre.flushed(post),
            Step::Consume(count) => count <= pre.submitted().len() && post == (IoUring {
                shared: Ioring {
                    sq_head: advance(pre.shared.sq_head, count as int),
                    ..pre.shared
                },
                ..pre
            }),
            Step::Post(cqe) => pre.completions().len() < pre.cq.entries && pre.posted(post, cqe),
            Step::Reap(count) => count <= pre.completions().len() && post == pre.consumed(
                count as int,
            ),
            Step::Flag(sq_flags) => post == (IoUring {
                shared: Ioring { sq_flags, ..pre.shared },
                ..pre
            }),
        }
    }
}

/// Each step leads from one ring to the next.
pub open spec fn run(rings: Seq<IoUring>, steps: Seq<Step>) -> bool {
    &&& rings.len() == steps.len() + 1
    &&& forall|i: int|
        0 <= i < steps.len() ==> (#[trigger] steps[i]).leads(rings[i], rings[i + 1])
}

/// The entries that are handed out on the way, in order.
pub open spec fn acquired(steps: Seq<Step>) -> Seq<Sqe>
    decreases steps.len(),
{
    if steps.len() == 0 {
        Seq::empty()
    } else {
        match steps.last() {
            Step::HandOut(sqe) => acquired(steps.drop_last()).push(sqe),
            _ => acquired(steps.drop_last()),
        }
    }
}

/// How many submissions the kernel consumes on the way.
pub open spec fn consumed(steps: Seq<Step>) -> nat
    decreases steps.len(),
{
    if steps.len() == 0 {
        0
    } else {
        match steps.last() {
            Step::Consume(count) => consumed(steps.drop_last()) + count as nat,
            _ => consumed(steps.drop_last()),
        }
    }
}

/// The completions that the kernel posts on the way, in order.
pub open spec fn posted(steps: Seq<Step>) -> Seq<Cqe>
    decreases steps.len(),
{
    if steps.len() == 0 {
        Seq::empty()
    } else {
        match steps.last() {
            Step::Post(cqe) => posted(steps.drop_last()).push(cqe),
            _ => posted(steps.drop_last()),
        }
    }
}

/// How many completions the application consumes on the way.
pub open spec fn reaped(steps: Seq<Step>) -> nat
    decreases steps.len(),
{
    if steps.len() == 0 {
        0
    } else {
        match steps.last() {
            Step::Reap(count) => reaped(steps.drop_last()) + count as nat,
            _ => reaped(steps.drop_last()),
        }
    }
}

/// Whatever happens, a ring stays consistent and both of its queues stay true to
/// what went in and out: what is pending is what was pending before followed by
/// what was acquired, without the oldest that were consumed, and the same of the
/// completions.
pub proof fn law_run_accounts(rings: Seq<IoUring>, steps: Seq<Step>)
    requires
        run(rings, steps),
        rings[0].consistent(),
    ensures
        rings.last().consistent(),
        rings.last().sq.entries == rings[0].sq.entries,
        rings.last().cq.entries == rings[0].cq.entries,
        rings.last().pending().len() == rings[0].pending().len() + acquired(steps).len() - consumed(
            steps,
        ),
        rings.last().pending() == (rings[0].pending() + acquired(steps)).skip(
            consumed(steps) as int,
        ),
        rings.last().completions().len() == rings[0].completions().len() + posted(steps).len()
            - reaped(steps),
        rings.last().completions() == (rings[0].completions() + posted(steps)).skip(
            reaped(steps) as int,
        ),
    decreases steps.len(),
{
    let first = rings[0];
    let post = rings.last();
    if steps.len() > 0 {
        let n = steps.len() - 1;
        let before = steps.drop_last();
        let pre = rings[n];
        assert forall|i: int| 0 <= i < before.len() implies (#[trigger] before[i]).leads(
            rings.drop_last()[i],
            rings.drop_last()[i + 1],
        ) by {
            assert(steps[i].leads(rings[i], rings[i + 1]));
        }
        law_run_accounts(rings.drop_last(), before);
        assert(rings.drop_last().last() == pre);
        assert(steps[n].leads(pre, post));
        match steps[n] {
            Step::HandOut(sqe) => {
                law_get_sqe_appends(pre, post, sqe);
            },
            Step::Flush => {
                law_flush_submits_all(pre, post);
            },
            Step::Consume(count) => {
                law_kernel_consumes_oldest(pre, count as int);
            },
            Step::Post(cqe) => {
                law_kernel_posts_last(pre, post, cqe);
            },
            Step::Reap(count) => {
                law_consumes_oldest(pre, count as int);
            },
            Step::Flag(sq_flags) => {
                assert(post.pending() =~= pre.pending());
                assert(post.completions() =~= pre.completions());
            },
        }
    }
    assert(post.pending() =~= (first.pending() + acquired(steps)).skip(consumed(steps) as int));
    assert(post.completions() =~= (first.completions() + posted(steps)).skip(
        reaped(steps) as int,
    ));
}

/// Of a ring that was new, what is pending is what was acquired, without the
/// oldest that were consumed: never more than the submission queue has room for.
/// The same holds of the completions.
pub proof fn law_new_ring_accounts(
    setup: RingSetup,
    masks: RingMasks,
    rings: Seq<IoUring>,
    steps: Seq<Step>,
)
    requires
        setup.fits(masks),
        run(rings, steps),
        setup.built(rings[0], masks),
    ensures
        rings.last().consistent(),
        rings.last().pending().len() == acquired(steps).len() - consumed(steps),
        rings.last().pending().len() <= setup.params.sq_entries,
        rings.last().pending() == acquired(steps).skip(consumed(steps) as int),
        rings.last().completions().len() == posted(steps).len() - reaped(steps),
        rings.last().completions().len() <= setup.params.cq_entries,
        rings.last().completions() == posted(steps).skip(reaped(steps) as int),
{
    law_new_ring_is_empty(setup, masks, rings[0]);
    law_run_accounts(rings, steps);
    assert(Seq::<Sqe>::empty() + acquired(steps) =~= acquired(steps));
    assert(Seq::<Cqe>::empty() + posted(steps) =~= posted(steps));
}

/// No two pending entries share a slot.
pub proof fn law_pending_slots_differ(ring: IoUring, i: int, j: int)
    requires
        ring.consistent(),
        0 <= i < j < ring.pending().len(),
    ensures
        0 <= slot(ring.shared.sq_head, i, ring.sq.entries as int) < ring.sq.sqes@.len(),
        0 <= slot(ring.shared.sq_head, j, ring.sq.entries as int) < ring.sq.sqes@.len(),
        slot(ring.shared.sq_head, i, ring.sq.entries as int) != slot(
            ring.shared.sq_head,
            j,
            ring.sq.entries as int,
        ),
{
    lemma_slot_in_ring(ring.shared.sq_head, i, ring.sq.entries);
    lemma_slot_in_ring(ring.shared.sq_head, j, ring.sq.entries);
    lemma_slots_differ(ring.shared.sq_head, i, j, ring.sq.entries);
}

/// A step in the life of a buffer ring.
pub enum BufStep {
    /// A buffer is added.
    Push { addr: u64, len: u32, bid: u16 },
    /// The tail is published.
    Sync,
}

impl BufStep {
    /// The step leads from `pre` to `post`.
    pub open spec fn leads(self, pre: BufRing, post: BufRing) -> bool {
        match self {
            BufStep::Push { addr, len, bid } => pre.pushed(post, addr, len, bid),
            BufStep::Sync => pre.synced(post),
        }
    }
}

/// Each step leads from one buffer ring to the next.
pub open spec fn buf_run(rings: Seq<BufRing>, steps: Seq<BufStep>) -> bool {
    &&& rings.len() == steps.len() + 1
    &&& forall|i: int|
        0 <= i < steps.len() ==> (#[trigger] steps[i]).leads(rings[i], rings[i + 1])
}

/// The buffers that are added on the way, in order, each with its address, its
/// length and its number.
pub open spec fn pushes(steps: Seq<BufStep>) -> Seq<(u64, u32, u16)>
    decreases steps.len(),
{
    if steps.len() == 0 {
        Seq::empty()
    } else {
        match steps.last() {
            BufStep::Push { addr, len, bid } => pushes(steps.drop_last()).push((addr, len, bid)),
            BufStep::Sync => pushes(steps.drop_last()),
        }
    }
}

/// However many buffers are added, the tail counts them, modulo the range of its
/// type, and the next one falls into the slot that follows, modulo the size of the
/// ring. The two agree although the tail wraps around.
pub proof fn law_pushes_count(rings: Seq<BufRing>, steps: Seq<BufStep>)
    requires
        buf_run(rings, steps),
        rings[0].wf(),
    ensures
        rings.last().wf(),
        rings.last().entries() == rings[0].entries(),
        rings.last().local_tail == tail_after(rings[0].local_tail, pushes(steps).len() as int),
        rings.last().slot(rings.last().local_tail, 0) == rings[0].slot(
            rings[0].local_tail,
            pushes(steps).len() as int,
        ),
        rings[0].local_tail == 0 ==> {
            &&& rings.last().local_tail == pushes(steps).len() % 0x1_0000
            &&& rings.last().slot(rings.last().local_tail, 0) == pushes(steps).len() as int
                % rings[0].entries()
        },
    decreases steps.len(),
{
    let start = rings[0].local_tail;
    let k = pushes(steps).len();
    if steps.len() > 0 {
        let n = steps.len() - 1;
        lemma_buf_run_before(rings, steps);
        law_pushes_count(rings.drop_last(), steps.drop_last());
        assert(rings.drop_last().last() == rings[n]);
        assert(steps[n].leads(rings[n], rings[n + 1]));
        if steps[n] is Push {
            lemma_add_mod_noop_right(1, start + k - 1, 0x1_0000);
        }
    }
    lemma2_to64();
    lemma_wrap_keeps_slot(start + k, rings[0].entries(), 16);
}

/// Of all the buffers that were added, the latest are in the ring, in order, as
/// many as it has slots: here the latest `n`.
pub proof fn law_latest_pushes_stay(rings: Seq<BufRing>, steps: Seq<BufStep>, n: nat)
    requires
        buf_run(rings, steps),
        rings[0].wf(),
        n <= pushes(steps).len(),
        n <= rings[0].entries(),
    ensures
        rings.last().provided(
            tail_after(rings[0].local_tail, pushes(steps).len() - n),
            n,
        ) == pushes(steps).skip(pushes(steps).len() - n),
    decreases steps.len(),
{
    let start = rings[0].local_tail;
    let k = pushes(steps).len();
    let from = tail_after(start, k - n);
    if n == 0 {
        assert(rings.last().provided(from, n) =~= pushes(steps).skip(k - n));
    } else {
        let last = steps.len() - 1;
        let pre = rings[last];
        let post = rings.last();
        lemma_buf_run_before(rings, steps);
        law_pushes_count(rings.drop_last(), steps.drop_last());
        assert(rings.drop_last().last() == pre);
        assert(steps[last].leads(pre, post));
        match steps[last] {
            BufStep::Push { addr, len, bid } => {
                law_latest_pushes_stay(rings.drop_last(), steps.drop_last(), (n - 1) as nat);
                lemma_add_mod_noop_right(n - 1, start + k - n, 0x1_0000);
                law_push_appends(pre, post, from, (n - 1) as nat, addr, len, bid);
                assert(post.provided(from, n) =~= pushes(steps).skip(k - n));
            },
            BufStep::Sync => {
                law_latest_pushes_stay(rings.drop_last(), steps.drop_last(), n);
                law_sync_publishes(pre, post, from, n);
            },
        }
    }
}

/// A buffer that is added to a ring without room takes the slot of the oldest.
pub proof fn law_push_replaces_oldest(
    pre: BufRing,
    post: BufRing,
    from: u16,
    addr: u64,
    len: u32,
    bid: u16,
)
    requires
        pre.wf(),
        pre.pushed(post, addr, len, bid),
        pre.local_tail == tail_after(from, pre.entries()),
    ensures
        post.provided(tail_after(from, 1), pre.entries() as nat) == pre.provided(
            from,
            pre.entries() as nat,
        ).skip(1).push((addr, len, bid)),
{
    let e = pre.entries();
    let next = tail_after(from, 1);
    lemma_add_mod_noop_right(e - 1, from + 1, 0x1_0000);
    law_push_appends(pre, post, next, (e - 1) as nat, addr, len, bid);
    assert forall|i: int| #[trigger] pre.slot(next, i) == pre.slot(from, i + 1) by {
        lemma2_to64();
        lemma_wrap_keeps_slot(from + 1, e, 16);
        lemma_add_mod_noop(next as int, i, e);
        lemma_add_mod_noop(from + 1, i, e);
    }
    assert(pre.provided(next, (e - 1) as nat) =~= pre.provided(from, e as nat).skip(1));
}

/// A run without its last step is a run.
pub proof fn lemma_buf_run_before(rings: Seq<BufRing>, steps: Seq<BufStep>)
    requires
        buf_run(rings, steps),
        steps.len() > 0,
    ensures
        buf_run(rings.drop_last(), steps.drop_last()),
{
    let before = steps.drop_last();
    assert forall|i: int| 0 <= i < before.len() implies (#[trigger] before[i]).leads(
        rings.drop_last()[i],
        rings.drop_last()[i + 1],
    ) by {
        assert(steps[i].leads(rings[i], rings[i + 1]));
    }
}

} // verus!
