//! What is agreed with the kernel before and beside the queues, seen from
//! outside: the setup of a ring, what is registered, and provided buffers.
//!
//! As in [`crate::effects`], the laws speak of calls and of fields.
use crate::buffer::{io_uring_buf_reg, tail_after, BufRing};
use crate::entry::{Cqe, IoringOp, Region};
use crate::err::Init;
use crate::flags::{
    holds, IORING_FEAT_SINGLE_MMAP, IORING_SETUP_ATTACH_WQ, IORING_SETUP_CQE32,
    IORING_SETUP_CQSIZE,
};
use crate::index::lemma_power_of_two_bits;
use crate::laws::law_full_at_capacity;
use crate::request::{IoringRegisterOp, Register, RegisterArg};
use crate::ring::IoUring;
use crate::run::{
    acquired, buf_run, consumed, law_new_ring_accounts, law_pushes_count, law_run_accounts,
    lemma_buf_run_before, run, BufStep, Step,
};
use crate::setup::{io_uring_params, RingMasks, RingSetup, SetupReply, SetupRequest};
use rustix::io::Errno;
use vstd::arithmetic::div_mod::*;
use vstd::arithmetic::power2::*;
use vstd::prelude::*;

verus! {

/// The default parameters are zero throughout.
pub proof fn law_default_params_are_zero(p: io_uring_params)
    requires
        call_ensures(<io_uring_params as Default>::default, (), p),
    ensures
        p.sq_entries == 0,
        p.cq_entries == 0,
        p.flags == 0,
        p.sq_thread_cpu == 0,
        p.sq_thread_idle == 0,
        p.features == 0,
        p.wq_fd == 0,
        p.resv@[0] == 0 && p.resv@[1] == 0 && p.resv@[2] == 0,
{
}

/// A ring can be asked for exactly if its size has one bit set. Zero and every
/// other number have an error of their own. What is asked for is passed on as it
/// is.
pub proof fn law_setup_asks_for_powers_of_two(
    entries: u32,
    p: &mut io_uring_params,
    res: Result<SetupRequest, Init>,
)
    requires
        call_ensures(IoUring::new_with_params, (entries, p), res),
    ensures
        entries == 0 ==> res == Err::<SetupRequest, Init>(Init::EntriesZero),
        entries != 0 && entries & ((entries - 1) as u32) != 0 ==> res == Err::<SetupRequest, Init>(
            Init::EntriesNotPowerOfTwo,
        ),
        entries != 0 && entries & ((entries - 1) as u32) == 0 ==> {
            &&& res matches Ok(request)
            &&& request.entries == entries
            &&& request.params == *old(p)
        },
        *final(p) == *old(p),
{
    if entries != 0 {
        lemma_power_of_two_bits(entries);
    }
}

/// The same of a ring with default parameters: all of them are zero but for the
/// thread, which idles for a second.
pub proof fn law_default_setup_asks(entries: u32, res: Result<SetupRequest, Init>)
    requires
        call_ensures(IoUring::new, (entries,), res),
    ensures
        entries == 0 ==> res == Err::<SetupRequest, Init>(Init::EntriesZero),
        entries != 0 && entries & ((entries - 1) as u32) != 0 ==> res == Err::<SetupRequest, Init>(
            Init::EntriesNotPowerOfTwo,
        ),
        entries != 0 && entries & ((entries - 1) as u32) == 0 ==> {
            &&& res matches Ok(request)
            &&& request.entries == entries
            &&& request.params.sq_thread_idle == 1000
            &&& request.params.sq_entries == 0
            &&& request.params.cq_entries == 0
            &&& request.params.flags == 0
            &&& request.params.sq_thread_cpu == 0
            &&& request.params.features == 0
            &&& request.params.wq_fd == 0
            &&& request.params.resv@[0] == 0
            &&& request.params.resv@[1] == 0
            &&& request.params.resv@[2] == 0
        },
{
    if entries != 0 {
        lemma_power_of_two_bits(entries);
    }
}

/// What the kernel replied is an error if the call failed, if the two queues do
/// not share a mapping, or else if completions are of the large kind. In every
/// other case the setup goes on with the descriptor and the parameters as the
/// kernel left them, whatever other features and flags there are.
pub proof fn law_reply_is_checked(
    request: SetupRequest,
    reply: Result<SetupReply, Errno>,
    res: Result<RingSetup, Init>,
)
    requires
        call_ensures(SetupRequest::replied, (request, reply), res),
    ensures
        reply matches Err(e) ==> res == Err::<RingSetup, Init>(Init::Os(e)),
        reply matches Ok(r) ==> {
            let single = r.params.features & IORING_FEAT_SINGLE_MMAP != 0;
            let large = r.params.flags & IORING_SETUP_CQE32 != 0;
            &&& !single ==> res == Err::<RingSetup, Init>(Init::SingleMmapUnsupported)
            &&& single && large ==> res == Err::<RingSetup, Init>(Init::CQE32Unsupported)
            &&& single && !large ==> {
                &&& res matches Ok(setup)
                &&& setup.fd == r.fd
                &&& setup.params == r.params
            }
        },
{
    if let Ok(r) = reply {
        lemma_single_setup_flag(r.params.flags, r.params.features);
    }
}

/// When parameters are the kernel's to fill in, when it has filled them in, and
/// when it need not because they are refused.
pub proof fn law_parameters_are_tested(
    p: io_uring_params,
    unfilled: bool,
    filled: bool,
    reply: SetupReply,
    sound: bool,
)
    requires
        call_ensures(io_uring_params::is_unfilled, (&p,), unfilled),
        call_ensures(io_uring_params::is_filled, (&p,), filled),
        call_ensures(SetupReply::is_sound, (&reply,), sound),
    ensures
        unfilled <==> {
            &&& p.sq_entries == 0
            &&& p.cq_entries == 0 || p.flags & IORING_SETUP_CQSIZE != 0
            &&& p.features == 0
            &&& p.wq_fd == 0 || p.flags & IORING_SETUP_ATTACH_WQ != 0
            &&& p.resv@[0] == 0 && p.resv@[1] == 0 && p.resv@[2] == 0
        },
        unfilled == p.unfilled(),
        filled <==> 0 < p.sq_entries <= p.cq_entries,
        filled == p.filled(),
        sound <==> {
            ||| reply.params.features & IORING_FEAT_SINGLE_MMAP == 0
            ||| reply.params.flags & IORING_SETUP_CQE32 != 0
            ||| 0 < reply.params.sq_entries <= reply.params.cq_entries
        },
        sound == (reply.supported() ==> reply.params.filled()),
{
    lemma_single_setup_flag(p.flags, p.features);
    lemma_single_setup_flag(reply.params.flags, reply.params.features);
    if p.resv@[0] == 0 && p.resv@[1] == 0 && p.resv@[2] == 0 {
        assert(p.resv@ =~= seq![0u32, 0, 0]);
    }
}

/// Setting up can be called with every size that is refused, with parameters that
/// are left to the kernel otherwise, and with every reply that is refused or
/// filled in.
pub proof fn law_setup_is_defined(
    entries: u32,
    p: &mut io_uring_params,
    request: SetupRequest,
    reply: Result<SetupReply, Errno>,
    setup: RingSetup,
    mapped: Result<RingMasks, Errno>,
)
    ensures
        call_requires(IoUring::new, (entries,)),
        ({
            ||| entries == 0
            ||| entries & ((entries - 1) as u32) != 0
            ||| {
                &&& old(p).sq_entries == 0
                &&& old(p).cq_entries == 0 || old(p).flags & IORING_SETUP_CQSIZE != 0
                &&& old(p).features == 0
                &&& old(p).wq_fd == 0 || old(p).flags & IORING_SETUP_ATTACH_WQ != 0
                &&& old(p).resv@[0] == 0 && old(p).resv@[1] == 0 && old(p).resv@[2] == 0
            }
        }) ==> call_requires(IoUring::new_with_params, (entries, p)),
        (reply matches Ok(r) ==> {
            ||| r.params.features & IORING_FEAT_SINGLE_MMAP == 0
            ||| r.params.flags & IORING_SETUP_CQE32 != 0
            ||| 0 < r.params.sq_entries <= r.params.cq_entries
        }) ==> call_requires(SetupRequest::replied, (request, reply)),
        call_requires(RingSetup::mapped, (setup, mapped)),
{
    if entries != 0 {
        lemma_power_of_two_bits(entries);
    }
    lemma_single_setup_flag(old(p).flags, old(p).features);
    if let Ok(r) = reply {
        lemma_single_setup_flag(r.params.flags, r.params.features);
    }
    if old(p).resv@[0] == 0 && old(p).resv@[1] == 0 && old(p).resv@[2] == 0 {
        assert(old(p).resv@ =~= seq![0u32, 0, 0]);
    }
}

/// Masks fit exactly if each is one less than the size of its queue, which has one
/// bit set.
pub proof fn law_masks_belong_to_sizes(setup: RingSetup, masks: RingMasks, res: bool)
    requires
        call_ensures(RingSetup::masks_fit, (&setup, masks), res),
    ensures
        res == setup.fits(masks),
        res <==> {
            let p = setup.params;
            &&& p.sq_entries != 0 && p.sq_entries & masks.sq == 0
            &&& p.cq_entries != 0 && p.cq_entries & masks.cq == 0
            &&& masks.sq == p.sq_entries - 1
            &&& masks.cq == p.cq_entries - 1
        },
{
    assert forall|k: nat| #[trigger] pow2(k) != 0 by {
        lemma_pow2_pos(k);
    }
    if setup.params.sq_entries != 0 {
        lemma_power_of_two_bits(setup.params.sq_entries);
    }
    if setup.params.cq_entries != 0 {
        lemma_power_of_two_bits(setup.params.cq_entries);
    }
}

/// The ring that is built has the descriptor, the flags, the features and the
/// sizes that the kernel gave it, and the masks that the kernel reads it with. All
/// positions are zero, and so is what the queues hold. With masks that fit it is
/// consistent.
pub proof fn law_ring_has_the_size_of_its_setup(
    setup: RingSetup,
    mapped: Result<RingMasks, Errno>,
    res: Result<IoUring, Init>,
)
    requires
        call_ensures(RingSetup::mapped, (setup, mapped), res),
    ensures
        mapped matches Err(e) ==> res == Err::<IoUring, Init>(Init::Os(e)),
        mapped matches Ok(masks) ==> {
            &&& res matches Ok(ring)
            &&& ring.fd == setup.fd
            &&& ring.flags == setup.params.flags
            &&& ring.features == setup.params.features
            &&& ring.sq.entries == setup.params.sq_entries
            &&& ring.sq.mask == masks.sq
            &&& ring.sq.sqes@.len() == setup.params.sq_entries
            &&& ring.shared.sq_array@.len() == setup.params.sq_entries
            &&& ring.cq.entries == setup.params.cq_entries
            &&& ring.cq.mask == masks.cq
            &&& ring.shared.cqes@.len() == setup.params.cq_entries
            &&& ring.sq.sqe_head == 0 && ring.sq.sqe_tail == 0
            &&& ring.shared.sq_head == 0 && ring.shared.sq_tail == 0
            &&& ring.shared.cq_head == 0 && ring.shared.cq_tail == 0
            &&& ring.shared.sq_flags == 0
            &&& forall|i: int|
                0 <= i < setup.params.sq_entries ==> {
                    let sqe = #[trigger] ring.sq.sqes@[i];
                    &&& sqe.opcode == IoringOp::Nop
                    &&& sqe.flags == 0 && sqe.ioprio == 0 && sqe.fd == 0
                    &&& sqe.off_or_addr2 == 0 && sqe.addr_or_splice_off_in == 0
                    &&& sqe.len == 0 && sqe.op_flags == 0 && sqe.user_data == 0
                    &&& sqe.buf == 0 && sqe.personality == 0
                    &&& sqe.splice_fd_in_or_file_index_or_addr_len == 0
                    &&& sqe.addr3_or_cmd.addr3 == 0 && sqe.addr3_or_cmd.pad2 == 0
                }
            &&& forall|i: int|
                0 <= i < setup.params.sq_entries ==> #[trigger] ring.shared.sq_array@[i] == 0
            &&& forall|i: int|
                0 <= i < setup.params.cq_entries ==> #[trigger] ring.shared.cqes@[i] == (Cqe {
                    user_data: 0,
                    res: 0,
                    flags: 0,
                })
            &&& setup.fits(masks) ==> ring.consistent()
        },
{
}

/// A ring that is set up has room for exactly as many entries as the kernel gave
/// it: in every run from there on, the next one is refused just when so many more
/// were acquired than consumed. In particular that many can be handed out in a row.
pub proof fn law_ring_has_room_for_its_size(
    setup: RingSetup,
    masks: RingMasks,
    rings: Seq<IoUring>,
    steps: Seq<Step>,
)
    requires
        setup.fits(masks),
        run(rings, steps),
        call_ensures(
            RingSetup::mapped,
            (setup, Ok::<RingMasks, Errno>(masks)),
            Ok::<IoUring, Init>(rings[0]),
        ),
    ensures
        rings.last().sq.entries == setup.params.sq_entries,
        rings.last().cq.entries == setup.params.cq_entries,
        acquired(steps).len() - consumed(steps) <= setup.params.sq_entries,
        rings.last().sq_full() <==> acquired(steps).len() - consumed(steps)
            == setup.params.sq_entries,
{
    law_new_ring_accounts(setup, masks, rings, steps);
    law_run_accounts(rings, steps);
    law_full_at_capacity(rings.last());
}

/// What is registered and unregistered: each call names the descriptor of the ring
/// and its purpose, and files and buffers are passed by their full address and
/// their number. The ring is only looked at.
pub proof fn law_registration_names_its_array(
    reader: IoUring,
    fds: Region,
    files: Register,
    dropped: &mut IoUring,
    drop_files: Register,
    pinned: &mut IoUring,
    buffers: Region,
    pin: Register,
)
    requires
        fds.len <= u32::MAX,
        buffers.len <= u32::MAX,
        call_ensures(IoUring::register_files, (&reader, fds), files),
        call_ensures(IoUring::unregister_files, (dropped,), drop_files),
        call_ensures(IoUring::register_buffers, (pinned, buffers), pin),
    ensures
        call_requires(IoUring::register_files, (&reader, fds)),
        call_requires(IoUring::register_buffers, (pinned, buffers)),
        files.fd == reader.fd,
        files.opcode == IoringRegisterOp::RegisterFiles,
        files.arg == RegisterArg::Address(fds.addr),
        files.nr_args as int == fds.len as int,
        drop_files.fd == old(dropped).fd,
        drop_files.opcode == IoringRegisterOp::UnregisterFiles,
        drop_files.arg == RegisterArg::Null,
        drop_files.nr_args == 0,
        *final(dropped) == *old(dropped),
        pin.fd == old(pinned).fd,
        pin.opcode == IoringRegisterOp::RegisterBuffers,
        pin.arg == RegisterArg::Address(buffers.addr),
        pin.nr_args as int == buffers.len as int,
        *final(pinned) == *old(pinned),
{
}

/// The descriptor of a ring is the one it was set up with.
pub proof fn law_descriptor_is_kept(ring: IoUring, res: i32)
    requires
        call_ensures(IoUring::fd, (&ring,), res),
    ensures
        res == ring.fd,
{
}

/// A buffer ring is well-formed if and only if its size has one bit set, fits into
/// sixteen bits, and there is so much memory.
pub proof fn law_well_formed_buffer_ring_means(ring: BufRing)
    ensures
        ring.wf() <==> {
            &&& ring.ring_entries_mask < 0x8000
            &&& ((ring.ring_entries_mask + 1) as u32) & ring.ring_entries_mask as u32 == 0
            &&& ring.bufs@.len() == ring.ring_entries_mask + 1
        },
        ring.entries() == ring.ring_entries_mask + 1,
{
    if ring.ring_entries_mask < 0x8000 {
        lemma_power_of_two_bits((ring.ring_entries_mask + 1) as u32);
    }
}

/// A new buffer ring can be had for every size with one bit set. It is empty, for
/// the group and at the address that were given.
pub proof fn law_new_buffer_ring(bgid: u16, ring_entries: u16, ring_addr: u64, ring: BufRing)
    requires
        ring_entries != 0,
        ring_entries as u32 & ((ring_entries - 1) as u32) == 0,
        call_ensures(BufRing::new, (bgid, ring_entries, ring_addr), ring),
    ensures
        call_requires(BufRing::new, (bgid, ring_entries, ring_addr)),
        ring.wf(),
        ring.bgid == bgid,
        ring.ring_addr == ring_addr,
        ring.ring_entries_mask == ring_entries - 1,
        ring.local_tail == 0,
        ring.bufs@.len() == ring_entries,
        forall|i: int|
            0 <= i < ring_entries ==> {
                let buf = #[trigger] ring.bufs@[i];
                buf.addr == 0 && buf.len == 0 && buf.bid == 0 && buf.resv == 0
            },
{
    lemma_power_of_two_bits(ring_entries as u32);
}

/// Adding a buffer writes its address, its length and its number into the slot of
/// the tail, modulo the size of the ring, and moves the tail on by one, modulo the
/// range of its type. No other slot is touched, nor is the tail that the kernel
/// sees.
pub proof fn law_push_writes_the_tail(
    ring: &mut BufRing,
    addr: u64,
    len: u32,
    bid: u16,
    res: u16,
)
    requires
        old(ring).wf(),
        call_ensures(BufRing::push, (ring, addr, len, bid), res),
    ensures
        call_requires(BufRing::push, (ring, addr, len, bid)),
        res == old(ring).local_tail as int % (old(ring).ring_entries_mask + 1),
        final(ring).bufs@[res as int].addr == addr,
        final(ring).bufs@[res as int].len == len,
        final(ring).bufs@[res as int].bid == bid,
        final(ring).bufs@[res as int].resv == old(ring).bufs@[res as int].resv,
        final(ring).bufs@[0].resv == old(ring).bufs@[0].resv,
        final(ring).bufs@.len() == old(ring).bufs@.len(),
        forall|i: int|
            0 <= i < old(ring).bufs@.len() && i != res ==> #[trigger] final(ring).bufs@[i] == old(
                ring,
            ).bufs@[i],
        final(ring).local_tail == (old(ring).local_tail + 1) % 0x1_0000,
        final(ring).bgid == old(ring).bgid,
        final(ring).ring_entries_mask == old(ring).ring_entries_mask,
        final(ring).ring_addr == old(ring).ring_addr,
{
    lemma_mod_bound(old(ring).local_tail as int, old(ring).ring_entries_mask + 1);
}

/// Publishing puts the whole tail, not reduced to the size of the ring, where the
/// kernel reads it, and touches nothing else.
pub proof fn law_sync_writes_the_whole_tail(ring: &mut BufRing)
    requires
        old(ring).wf(),
        call_ensures(BufRing::sync, (ring,), ()),
    ensures
        call_requires(BufRing::sync, (ring,)),
        final(ring).bufs@.len() == old(ring).bufs@.len(),
        final(ring).bufs@[0].resv == old(ring).local_tail,
        final(ring).bufs@[0].addr == old(ring).bufs@[0].addr,
        final(ring).bufs@[0].len == old(ring).bufs@[0].len,
        final(ring).bufs@[0].bid == old(ring).bufs@[0].bid,
        forall|i: int|
            0 < i < old(ring).bufs@.len() ==> #[trigger] final(ring).bufs@[i] == old(ring).bufs@[i],
        final(ring).local_tail == old(ring).local_tail,
        final(ring).bgid == old(ring).bgid,
        final(ring).ring_entries_mask == old(ring).ring_entries_mask,
        final(ring).ring_addr == old(ring).ring_addr,
{
}

/// The tail that the kernel sees is the one in the first slot, and each slot takes
/// sixteen bytes.
pub proof fn law_buffer_ring_layout(ring: BufRing, tail: u16, ring_entries: u16, bytes: usize)
    requires
        ring.wf(),
        call_ensures(BufRing::shared_tail, (&ring,), tail),
        call_ensures(BufRing::mem_len, (ring_entries,), bytes),
    ensures
        tail == ring.bufs@[0].resv,
        tail == ring.published_tail(),
        bytes == 16 * ring_entries,
{
}

/// The description of a buffer ring, and with it what is registered, gives its
/// whole address, its group and the number of its slots, and nothing else.
pub proof fn law_description_gives_the_whole_address(
    buf_ring: BufRing,
    reg: io_uring_buf_reg,
    ring: &mut IoUring,
    register: Register,
)
    requires
        buf_ring.wf(),
        call_ensures(BufRing::args, (&buf_ring,), reg),
        call_ensures(IoUring::register_pbuf_ring, (ring, &buf_ring), register),
    ensures
        call_requires(BufRing::args, (&buf_ring,)),
        call_requires(IoUring::register_pbuf_ring, (ring, &buf_ring)),
        reg.ring_addr == buf_ring.ring_addr,
        reg.ring_entries == buf_ring.ring_entries_mask + 1,
        reg.bgid == buf_ring.bgid,
        reg.flags == 0,
        reg.resv@[0] == 0 && reg.resv@[1] == 0 && reg.resv@[2] == 0,
        register.fd == old(ring).fd,
        register.opcode == IoringRegisterOp::RegisterPbufRing,
        register.nr_args == 1,
        register.arg matches RegisterArg::BufRing(arg) && {
            &&& arg.ring_addr == buf_ring.ring_addr
            &&& arg.ring_entries == buf_ring.ring_entries_mask + 1
            &&& arg.bgid == buf_ring.bgid
            &&& arg.flags == 0
            &&& arg.resv@[0] == 0 && arg.resv@[1] == 0 && arg.resv@[2] == 0
        },
        *final(ring) == *old(ring),
{
}

/// Whatever was added and published since, a buffer ring is described by the
/// address, the group and the size that it was made with.
pub proof fn law_description_is_what_was_given(
    bgid: u16,
    ring_entries: u16,
    ring_addr: u64,
    rings: Seq<BufRing>,
    steps: Seq<BufStep>,
    reg: io_uring_buf_reg,
)
    requires
        ring_entries != 0,
        ring_entries as u32 & ((ring_entries - 1) as u32) == 0,
        call_ensures(BufRing::new, (bgid, ring_entries, ring_addr), rings[0]),
        buf_run(rings, steps),
        call_ensures(BufRing::args, (&rings.last(),), reg),
    ensures
        reg.ring_addr == ring_addr,
        reg.ring_entries == ring_entries,
        reg.bgid == bgid,
{
    law_new_buffer_ring(bgid, ring_entries, ring_addr, rings[0]);
    law_pushes_count(rings, steps);
    lemma_buf_run_keeps_description(rings, steps);
}

/// Unregistering names the group, and nothing else of the ring.
pub proof fn law_unregistration_names_the_group(ring: &mut IoUring, bgid: u16, register: Register)
    requires
        call_ensures(IoUring::unregister_pbuf_ring, (ring, bgid), register),
    ensures
        register.fd == old(ring).fd,
        register.opcode == IoringRegisterOp::UnregisterPbufRing,
        register.nr_args == 1,
        register.arg matches RegisterArg::BufRing(arg) && arg.bgid == bgid && arg.ring_addr == 0
            && arg.ring_entries == 0 && arg.flags == 0 && arg.resv@[0] == 0 && arg.resv@[1] == 0
            && arg.resv@[2] == 0,
        *final(ring) == *old(ring),
{
}

/// How positions in a buffer ring are counted: the tail adds up modulo the range
/// of its type, a slot is a position modulo the size of the ring, and what is
/// provided from a position on lies in the slots that follow it.
pub proof fn law_buffer_positions(ring: BufRing, tail: u16, n: int)
    requires
        0 <= n,
    ensures
        tail_after(tail, n) == (tail + n) % 0x1_0000,
        ring.slot(tail, n) == (tail + n) % (ring.ring_entries_mask + 1),
        ring.provided(tail, n as nat).len() == n,
        forall|i: int|
            0 <= i < n ==> #[trigger] ring.provided(tail, n as nat)[i] == (
                ring.bufs@[(tail + i) % (ring.ring_entries_mask + 1)].addr,
                ring.bufs@[(tail + i) % (ring.ring_entries_mask + 1)].len,
                ring.bufs@[(tail + i) % (ring.ring_entries_mask + 1)].bid,
            ),
{
}

/// No step changes where a buffer ring lies, how large it is or whom it is for.
proof fn lemma_buf_run_keeps_description(rings: Seq<BufRing>, steps: Seq<BufStep>)
    requires
        buf_run(rings, steps),
    ensures
        rings.last().ring_addr == rings[0].ring_addr,
        rings.last().bgid == rings[0].bgid,
        rings.last().ring_entries_mask == rings[0].ring_entries_mask,
    decreases steps.len(),
{
    if steps.len() > 0 {
        let n = steps.len() - 1;
        lemma_buf_run_before(rings, steps);
        lemma_buf_run_keeps_description(rings.drop_last(), steps.drop_last());
        assert(rings.drop_last().last() == rings[n]);
        assert(steps[n].leads(rings[n], rings[n + 1]));
    }
}

/// A flag of a single bit is held exactly if it leaves something of a word.
proof fn lemma_single_setup_flag(flags: u32, features: u32)
    ensures
        holds(flags, IORING_SETUP_CQSIZE) <==> flags & IORING_SETUP_CQSIZE != 0,
        holds(flags, IORING_SETUP_ATTACH_WQ) <==> flags & IORING_SETUP_ATTACH_WQ != 0,
        holds(flags, IORING_SETUP_CQE32) <==> flags & IORING_SETUP_CQE32 != 0,
        holds(features, IORING_FEAT_SINGLE_MMAP) <==> features & IORING_FEAT_SINGLE_MMAP != 0,
{
    assert((flags & 8 == 8) == (flags & 8 != 0) && (flags & 32 == 32) == (flags & 32 != 0) && (flags
        & 2048 == 2048) == (flags & 2048 != 0)) by (bit_vector);
    assert((features & 1 == 1) == (features & 1 != 0)) by (bit_vector);
}

} // verus!
