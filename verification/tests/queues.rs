//! The two queues, position by position.
use hringas::entry::{addr3_struct, Cqe, IoringOp, Sqe};
use hringas::err::{GetSqe, Init};
use hringas::flags::{
    IORING_ENTER_GETEVENTS, IORING_ENTER_SQ_WAKEUP, IORING_FEAT_SINGLE_MMAP,
    IORING_SETUP_ATTACH_WQ, IORING_SETUP_CQE32, IORING_SETUP_CQSIZE, IORING_SETUP_IOPOLL,
    IORING_SETUP_SQPOLL, IORING_SQ_CQ_OVERFLOW, IORING_SQ_NEED_WAKEUP,
};
use hringas::index::is_power_of_two;
use hringas::request::{CopyCqe, CopyCqes, Enter, Submit};
use hringas::setup::{io_uring_params, RingMasks, RingSetup, SetupReply};
use hringas::{Errno, IoUring};

fn ring_with(sq_entries: u32, cq_entries: u32, flags: u32) -> IoUring {
    let params = io_uring_params {
        sq_entries,
        cq_entries,
        flags,
        features: IORING_FEAT_SINGLE_MMAP,
        ..io_uring_params::default()
    };
    let setup = RingSetup { fd: 9, params };
    setup.mapped(Ok(RingMasks { sq: sq_entries - 1, cq: cq_entries - 1 })).unwrap()
}

/// A ring whose every position is `position`.
fn ring_at(position: u32, sq_entries: u32, cq_entries: u32) -> IoUring {
    let mut ring = ring_with(sq_entries, cq_entries, 0);
    ring.sq.sqe_head = position;
    ring.sq.sqe_tail = position;
    ring.shared.sq_head = position;
    ring.shared.sq_tail = position;
    ring.shared.cq_head = position;
    ring.shared.cq_tail = position;
    ring
}

fn cqe(user_data: u64) -> Cqe {
    Cqe { user_data, res: 0, flags: 0 }
}

/// The user data of the entries that the kernel finds.
fn submitted(ring: &IoUring) -> Vec<u64> {
    let mut found = Vec::new();
    let mut position = ring.shared.sq_head();
    while position != ring.shared.sq_tail() {
        let index = ring.shared.sq_array[(position & ring.sq.mask) as usize];
        found.push(ring.sq.sqes[index as usize].user_data);
        position = position.wrapping_add(1);
    }
    found
}

#[test]
fn hands_out_exactly_its_size() {
    let mut ring = ring_with(4, 8, 0);
    for i in 0..4 {
        assert_eq!(ring.sq_ready(), i);
        ring.get_sqe().unwrap().prep_nop(i as u64);
    }
    let before = ring.sq.sqe_tail;
    assert_eq!(ring.get_sqe().unwrap_err(), GetSqe::SubmissionQueueFull);
    assert_eq!(ring.get_sqe_raw().unwrap_err(), GetSqe::SubmissionQueueFull);
    assert_eq!(ring.sq.sqe_tail, before);
    assert_eq!(ring.sq_ready(), 4);

    // Flushing makes no room, consuming does.
    assert_eq!(ring.flush_sq(), 4);
    assert_eq!(ring.get_sqe().unwrap_err(), GetSqe::SubmissionQueueFull);
    ring.kernel_consumed(1);
    assert_eq!(ring.sq_ready(), 3);
    ring.get_sqe().unwrap().prep_nop(4);
    assert_eq!(ring.get_sqe().unwrap_err(), GetSqe::SubmissionQueueFull);
    ring.flush_sq();
    assert_eq!(submitted(&ring), vec![1, 2, 3, 4]);
}

#[test]
fn order_survives_index_wraparound() {
    let mut ring = ring_at(u32::MAX - 1, 4, 8);
    for i in 0..4 {
        ring.get_sqe().unwrap().prep_nop(100 + i);
    }
    assert_eq!(ring.sq_ready(), 4);
    assert_eq!(ring.sq.sqe_tail, 2);
    assert_eq!(ring.get_sqe().unwrap_err(), GetSqe::SubmissionQueueFull);
    assert_eq!(submitted(&ring), Vec::<u64>::new());
    assert_eq!(ring.flush_sq(), 4);
    assert_eq!(ring.sq.sqe_head, 2);
    assert_eq!(ring.shared.sq_tail(), 2);
    assert_eq!(submitted(&ring), vec![100, 101, 102, 103]);

    for i in 0..4 {
        ring.kernel_posted(cqe(200 + i));
    }
    assert_eq!(ring.shared.cq_tail(), 2);
    assert_eq!(ring.cq_ready(), 4);
    let mut cqes = [Cqe::default(); 8];
    assert_eq!(ring.copy_cqes(&mut cqes, 0), CopyCqes::Copied(4));
    assert_eq!(cqes[..4], [cqe(200), cqe(201), cqe(202), cqe(203)]);
    assert_eq!(cqes[4..], [Cqe::default(); 4]);
    assert_eq!(ring.shared.cq_head(), 2);
    assert_eq!(ring.cq_ready(), 0);
}

#[test]
fn second_flush_changes_nothing() {
    let mut ring = ring_with(4, 8, 0);
    ring.get_sqe().unwrap().prep_nop(1);
    ring.get_sqe().unwrap().prep_nop(2);
    assert_eq!(ring.flush_sq(), 2);
    let array = ring.shared.sq_array.clone();
    let tail = ring.shared.sq_tail();
    assert_eq!(ring.flush_sq(), 2);
    assert_eq!(ring.shared.sq_array, array);
    assert_eq!(ring.shared.sq_tail(), tail);
    assert_eq!(submitted(&ring), vec![1, 2]);
}

#[test]
fn drained_queue_is_clean() {
    let mut ring = ring_with(2, 4, 0);
    ring.get_sqe().unwrap().prep_nop(1);
    ring.flush_sq();
    ring.kernel_consumed(1);
    assert_eq!(ring.sq_ready(), 0);
    assert_eq!(ring.sq.sqe_head, ring.sq.sqe_tail);
    assert_eq!(submitted(&ring), Vec::<u64>::new());
}

#[test]
fn entries_are_zeroed_unless_raw() {
    let mut ring = ring_with(1, 2, 0);
    let sqe = ring.get_sqe().unwrap();
    sqe.prep_connect(5, 6, 7, 8);
    let used = *sqe;
    ring.flush_sq();
    ring.kernel_consumed(1);
    assert_eq!(*ring.get_sqe_raw().unwrap(), used);
    ring.flush_sq();
    ring.kernel_consumed(2);
    assert_eq!(*ring.get_sqe().unwrap(), Sqe::default());
}

#[test]
fn the_last_sixteen_bytes_are_carried() {
    let mut ring = ring_with(1, 2, 0);
    let last = addr3_struct { addr3: 0x1111, pad2: 0x2222 };
    let sqe = ring.get_sqe().unwrap();
    sqe.addr3_or_cmd = last;
    sqe.prep_nop(5);
    ring.flush_sq();
    assert_eq!(ring.sq.sqes[ring.shared.sq_array[0] as usize].addr3_or_cmd, last);
    ring.kernel_consumed(1);
    assert_eq!(ring.get_sqe_raw().unwrap().addr3_or_cmd, last);
    ring.flush_sq();
    ring.kernel_consumed(2);
    let empty = addr3_struct { addr3: 0, pad2: 0 };
    assert_eq!(ring.get_sqe().unwrap().addr3_or_cmd, empty);
}

#[test]
fn pending_is_acquired_minus_consumed() {
    let mut ring = ring_at(u32::MAX - 20, 4, 8);
    let (mut acquired, mut consumed) = (0u32, 0u32);
    let (mut posted, mut reaped) = (0u32, 0u32);
    for round in 0..40u32 {
        for _ in 0..round % 4 {
            match ring.get_sqe() {
                Ok(sqe) => {
                    sqe.prep_nop(acquired as u64);
                    acquired += 1;
                }
                Err(e) => {
                    assert_eq!(e, GetSqe::SubmissionQueueFull);
                    assert_eq!(acquired - consumed, 4);
                }
            }
        }
        assert_eq!(ring.sq_ready(), acquired - consumed);
        assert_eq!(ring.flush_sq(), acquired - consumed);
        let expected: Vec<u64> = (consumed as u64..acquired as u64).collect();
        assert_eq!(submitted(&ring), expected);

        let taken = (round % 3).min(acquired - consumed);
        consumed += taken;
        ring.kernel_consumed(ring.shared.sq_head().wrapping_add(taken));
        for _ in 0..taken {
            if posted - reaped < 8 {
                ring.kernel_posted(cqe(posted as u64));
                posted += 1;
            }
        }
        assert_eq!(ring.cq_ready(), posted - reaped);
        let mut cqes = [Cqe::default(); 2];
        if let CopyCqes::Copied(count) = ring.copy_cqes(&mut cqes[..(round % 3) as usize], 0) {
            for found in &cqes[..count as usize] {
                assert_eq!(*found, cqe(reaped as u64));
                reaped += 1;
            }
        }
        assert_eq!(ring.sq_ready(), acquired - consumed);
        assert_eq!(ring.cq_ready(), posted - reaped);
    }
    assert!(acquired > 21 && posted > 21);
}

#[test]
fn pending_entries_have_slots_of_their_own() {
    let mut ring = ring_at(u32::MAX - 1, 4, 8);
    for i in 0..4 {
        ring.get_sqe().unwrap().prep_nop(i);
    }
    let mut held: Vec<u64> = ring.sq.sqes.iter().map(|sqe| sqe.user_data).collect();
    assert_eq!(held, vec![2, 3, 0, 1]);
    held.sort();
    assert_eq!(held, vec![0, 1, 2, 3]);
}

#[test]
fn announced_positions_hold_the_slots_of_their_entries() {
    let mut ring = ring_at(3, 4, 8);
    ring.shared.sq_array = vec![9, 9, 9, 9];
    ring.get_sqe().unwrap().prep_nop(0);
    ring.get_sqe().unwrap().prep_nop(1);
    ring.flush_sq();
    assert_eq!(ring.shared.sq_array, vec![0, 9, 9, 3]);
}

#[test]
fn names_the_slots_of_a_flush() {
    let mut ring = ring_at(u32::MAX, 4, 8);
    ring.shared.sq_tail = 1;
    assert_eq!(ring.unflushed(), 0);
    for i in 0..3 {
        ring.get_sqe().unwrap().prep_nop(10 + i);
    }
    assert_eq!(ring.unflushed(), 3);
    let slots: Vec<(u32, u32)> = (0..3).map(|i| ring.flush_slots(i)).collect();
    assert_eq!(slots, vec![(3, 1), (0, 2), (1, 3)]);
    ring.flush_sq();
    for (i, (index, slot)) in slots.into_iter().enumerate() {
        assert_eq!(ring.sq.sqes[index as usize].user_data, 10 + i as u64);
        assert_eq!(ring.shared.sq_array[slot as usize], index);
    }
    assert_eq!(ring.unflushed(), 0);
}

#[test]
fn names_the_slot_of_the_next_completion() {
    let mut ring = ring_at(u32::MAX, 2, 4);
    assert_eq!(ring.completion_slot(), 3);
    ring.kernel_posted(cqe(7));
    assert_eq!(ring.shared.cqes[3], cqe(7));
    assert_eq!(ring.completion_slot(), 0);
}

#[test]
fn tells_which_copies_fit() {
    let mut ring = ring_at(3, 2, 4);
    assert!(ring.copy_fits(usize::MAX));
    for i in 0..4 {
        ring.kernel_posted(cqe(i));
    }
    assert!(ring.copy_fits(usize::MAX));
    ring.kernel_posted(cqe(4));
    assert!(ring.copy_fits(5));
    ring.kernel_posted(cqe(5));
    assert!(ring.copy_fits(5));
    assert!(!ring.copy_fits(6));
    assert!(!ring.copy_fits(usize::MAX));
}

#[test]
fn copies_across_the_end_of_the_ring() {
    let mut ring = ring_at(3, 2, 4);
    for i in 0..4 {
        ring.kernel_posted(cqe(i));
    }
    assert_eq!(ring.shared.cqes, vec![cqe(1), cqe(2), cqe(3), cqe(0)]);
    let mut cqes = [Cqe::default(); 3];
    assert_eq!(ring.copy_cqes(&mut cqes, 7), CopyCqes::Copied(3));
    assert_eq!(cqes, [cqe(0), cqe(1), cqe(2)]);
    assert_eq!(ring.shared.cq_head(), 6);
    assert_eq!(ring.cq_ready(), 1);
    assert_eq!(ring.copy_cqe(), CopyCqe::Ready(cqe(3)));
    assert_eq!(ring.cq_ready(), 0);
}

#[test]
fn batches_add_up() {
    let mut one = ring_at(2, 2, 4);
    let mut two = ring_at(2, 2, 4);
    for i in 0..3 {
        one.kernel_posted(cqe(i));
        two.kernel_posted(cqe(i));
    }
    let mut all = [Cqe::default(); 3];
    assert_eq!(one.copy_cqes(&mut all, 0), CopyCqes::Copied(3));
    let mut first = [Cqe::default(); 2];
    let mut second = [Cqe::default(); 2];
    assert_eq!(two.copy_cqes(&mut first, 0), CopyCqes::Copied(2));
    assert_eq!(two.copy_cqes(&mut second, 0), CopyCqes::Copied(1));
    assert_eq!(all[..2], first);
    assert_eq!(all[2], second[0]);
    assert_eq!(one.shared.cq_head(), two.shared.cq_head());
}

#[test]
fn seen_twice_loses_one() {
    let mut ring = ring_with(2, 4, 0);
    for i in 0..3 {
        ring.kernel_posted(cqe(i));
    }
    let first = ring.shared.cqes[0];
    ring.cqe_seen(&first);
    assert_eq!(ring.cq_ready(), 2);
    ring.cqe_seen(&first);
    assert_eq!(ring.cq_ready(), 1);
    assert_eq!(ring.copy_cqe(), CopyCqe::Ready(cqe(2)));

    let mut ring = ring_with(2, 4, 0);
    for i in 0..3 {
        ring.kernel_posted(cqe(i));
    }
    ring.cq_advance(2);
    assert_eq!(ring.copy_cqe(), CopyCqe::Ready(cqe(2)));
}

#[test]
fn enters_for_completions_only_when_due() {
    let mut ring = ring_with(2, 4, 0);
    let mut cqes = [Cqe::default(); 2];
    assert_eq!(ring.copy_cqes(&mut cqes, 0), CopyCqes::Copied(0));

    let wait = |min_complete| Enter {
        fd: 9,
        to_submit: 0,
        min_complete,
        flags: IORING_ENTER_GETEVENTS,
    };
    assert_eq!(ring.copy_cqes(&mut cqes, 2), CopyCqes::Enter(wait(2)));
    assert!(!ring.cq_ring_needs_flush());
    ring.kernel_flagged(IORING_SQ_CQ_OVERFLOW);
    assert!(ring.cq_ring_needs_flush());
    assert_eq!(ring.copy_cqes(&mut cqes, 0), CopyCqes::Enter(wait(0)));

    // Whatever is ready is copied without entering.
    ring.kernel_posted(cqe(1));
    assert_eq!(ring.copy_cqes(&mut cqes, 2), CopyCqes::Copied(1));

    assert_eq!(ring.copy_cqes_entered(&mut cqes, Err(Errno::INTR)), Err(Errno::INTR));
    assert_eq!(ring.copy_cqes_entered(&mut cqes, Ok(5)), Ok(0));
    ring.kernel_posted(cqe(2));
    assert_eq!(ring.copy_cqes_entered(&mut cqes, Ok(0)), Ok(1));
    assert_eq!(cqes[0], cqe(2));
}

#[test]
fn one_completion_at_a_time() {
    let mut ring = ring_with(2, 4, 0);
    let enter = Enter { fd: 9, to_submit: 0, min_complete: 1, flags: IORING_ENTER_GETEVENTS };
    assert_eq!(ring.copy_cqe(), CopyCqe::Enter(enter));
    assert_eq!(ring.copy_cqe_entered(Err(Errno::AGAIN)), Err(Errno::AGAIN));
    assert_eq!(ring.copy_cqe_entered(Ok(0)), Ok(None));
    ring.kernel_posted(cqe(7));
    ring.kernel_posted(cqe(8));
    assert_eq!(ring.copy_cqe_entered(Ok(0)), Ok(Some(cqe(7))));
    assert_eq!(ring.copy_cqe(), CopyCqe::Ready(cqe(8)));
}

#[test]
fn submission_without_thread_enters() {
    let mut ring = ring_with(2, 4, 0);
    let enter = |to_submit, min_complete, flags| Enter { fd: 9, to_submit, min_complete, flags };
    assert_eq!(ring.submit(), Submit::Enter(enter(0, 0, 0)));
    ring.get_sqe().unwrap().prep_nop(1);
    assert_eq!(ring.submit(), Submit::Enter(enter(1, 0, 0)));
    assert_eq!(ring.submit_and_wait(2), Submit::Enter(enter(1, 2, IORING_ENTER_GETEVENTS)));

    let mut ring = ring_with(2, 4, IORING_SETUP_IOPOLL);
    assert_eq!(ring.submit(), Submit::Enter(enter(0, 0, IORING_ENTER_GETEVENTS)));
    assert_eq!(ring.enter(1, 2, 3), enter(1, 2, 3));
}

#[test]
fn submission_thread_is_woken_only_when_asleep() {
    let mut ring = ring_with(2, 4, IORING_SETUP_SQPOLL);
    let enter = |to_submit, min_complete, flags| Enter { fd: 9, to_submit, min_complete, flags };
    ring.get_sqe().unwrap().prep_nop(1);
    assert_eq!(ring.submit(), Submit::Submitted(1));
    assert_eq!(ring.submit_and_wait(1), Submit::Enter(enter(1, 1, IORING_ENTER_GETEVENTS)));
    ring.kernel_flagged(IORING_SQ_NEED_WAKEUP);
    assert_eq!(ring.submit(), Submit::Enter(enter(1, 0, IORING_ENTER_SQ_WAKEUP)));
    assert_eq!(ring.submit_and_wait(1), Submit::Enter(enter(1, 1, 3)));

    assert_eq!(Submit::Submitted(4).finish(Err(Errno::INVAL)), Ok(4));
    assert_eq!(Submit::Enter(enter(4, 0, 0)).finish(Ok(3)), Ok(3));
    assert_eq!(Submit::Enter(enter(4, 0, 0)).finish(Err(Errno::BUSY)), Err(Errno::BUSY));
}

#[test]
fn wakeup_flag_is_added_to_the_others() {
    let mut flags = 8;
    let mut ring = ring_with(2, 4, 0);
    ring.kernel_flagged(IORING_SQ_NEED_WAKEUP);
    assert!(ring.sq_ring_needs_enter(&mut flags));
    assert_eq!(flags, 8);

    let mut ring = ring_with(2, 4, IORING_SETUP_SQPOLL);
    assert!(!ring.sq_ring_needs_enter(&mut flags));
    assert_eq!(flags, 8);
    ring.kernel_flagged(IORING_SQ_CQ_OVERFLOW);
    assert!(!ring.sq_ring_needs_enter(&mut flags));
    ring.kernel_flagged(IORING_SQ_CQ_OVERFLOW | IORING_SQ_NEED_WAKEUP);
    assert!(ring.sq_ring_needs_enter(&mut flags));
    assert_eq!(flags, 10);
}

#[test]
fn shared_memory_is_read_and_written() {
    let mut ring = ring_with(2, 4, 0);
    ring.shared.sq_tail_write(6);
    ring.kernel_consumed(5);
    assert_eq!(ring.shared.sq_tail(), 6);
    assert_eq!(ring.shared.sq_head(), 5);
    ring.kernel_flagged(IORING_SQ_NEED_WAKEUP);
    assert!(ring.shared.sq_flag_contains(IORING_SQ_NEED_WAKEUP));
    assert!(!ring.shared.sq_flag_contains(IORING_SQ_NEED_WAKEUP | IORING_SQ_CQ_OVERFLOW));
    ring.shared.cq_advance(u32::MAX);
    ring.shared.cq_advance(3);
    assert_eq!(ring.shared.cq_head(), 2);
    assert_eq!(ring.shared.cq_tail(), 0);
}

#[test]
fn default_setup_waits_a_second() {
    let request = IoUring::new(8).unwrap();
    assert_eq!(request.entries, 8);
    assert_eq!(request.params, io_uring_params { sq_thread_idle: 1000, ..Default::default() });
    assert_eq!(io_uring_params::default().resv, [0, 0, 0]);
    assert_eq!(io_uring_params::default().sq_thread_idle, 0);
}

#[test]
fn setup_reports_each_error() {
    assert_eq!(IoUring::new(0).unwrap_err(), Init::EntriesZero);
    for entries in [3, 6, u32::MAX, 0x8000_0001] {
        assert_eq!(IoUring::new(entries).unwrap_err(), Init::EntriesNotPowerOfTwo);
    }
    let request = IoUring::new(0x8000_0000).unwrap();
    assert_eq!(request.replied(Err(Errno::INVAL)), Err(Init::Os(Errno::INVAL)));

    let mut params = request.params;
    params.sq_entries = 2;
    params.cq_entries = 4;
    let reply = |params| Ok(SetupReply { fd: 4, params });
    assert_eq!(request.replied(reply(params)), Err(Init::SingleMmapUnsupported));
    params.features = !IORING_FEAT_SINGLE_MMAP;
    assert_eq!(request.replied(reply(params)), Err(Init::SingleMmapUnsupported));
    params.flags = IORING_SETUP_CQE32;
    assert_eq!(request.replied(reply(params)), Err(Init::SingleMmapUnsupported));
    params.features = u32::MAX;
    assert_eq!(request.replied(reply(params)), Err(Init::CQE32Unsupported));
    params.flags = !IORING_SETUP_CQE32;
    let setup = request.replied(reply(params)).unwrap();
    assert_eq!(setup, RingSetup { fd: 4, params });

    assert_eq!(setup.mapped(Err(Errno::NOMEM)).unwrap_err(), Init::Os(Errno::NOMEM));
    let mut ring = setup.mapped(Ok(RingMasks { sq: 1, cq: 3 })).unwrap();
    assert_eq!(ring.fd(), 4);
    assert_eq!(ring.flags, params.flags);
    assert_eq!(ring.features, params.features);
    assert_eq!(ring.sq.sqes, vec![Sqe::default(); 2]);
    assert_eq!(ring.shared.cqes, vec![Cqe::default(); 4]);
    assert_eq!(ring.sq_ready(), 0);
    assert_eq!(ring.cq_ready(), 0);
    assert_eq!(ring.get_sqe().unwrap().opcode, IoringOp::Nop);
}

#[test]
fn tells_which_parameters_are_unfilled() {
    let empty = io_uring_params::default();
    assert!(empty.is_unfilled());
    let asked = io_uring_params { flags: !0, sq_thread_cpu: 3, sq_thread_idle: 4, ..empty };
    assert!(asked.is_unfilled());
    assert!(!io_uring_params { sq_entries: 1, ..empty }.is_unfilled());
    assert!(!io_uring_params { cq_entries: 1, ..empty }.is_unfilled());
    assert!(io_uring_params { cq_entries: 1, flags: IORING_SETUP_CQSIZE, ..empty }.is_unfilled());
    assert!(!io_uring_params { features: 1, ..empty }.is_unfilled());
    assert!(!io_uring_params { wq_fd: 1, ..empty }.is_unfilled());
    assert!(io_uring_params { wq_fd: 1, flags: IORING_SETUP_ATTACH_WQ, ..empty }.is_unfilled());
    for resv in [[1, 0, 0], [0, 1, 0], [0, 0, 1]] {
        assert!(!io_uring_params { resv, ..empty }.is_unfilled());
    }
}

#[test]
fn tells_which_parameters_are_filled() {
    let filled = io_uring_params { sq_entries: 2, cq_entries: 2, ..io_uring_params::default() };
    assert!(filled.is_filled());
    assert!(!io_uring_params { sq_entries: 0, ..filled }.is_filled());
    assert!(!io_uring_params { cq_entries: 0, ..filled }.is_filled());
    assert!(!io_uring_params { cq_entries: 1, ..filled }.is_filled());

    // Parameters that are refused anyway need not be filled.
    let sound = |params| SetupReply { fd: 4, params }.is_sound();
    let empty = io_uring_params::default();
    assert!(sound(empty));
    assert!(!sound(io_uring_params { features: IORING_FEAT_SINGLE_MMAP, ..empty }));
    assert!(sound(io_uring_params { features: IORING_FEAT_SINGLE_MMAP, ..filled }));
    assert!(sound(io_uring_params {
        features: IORING_FEAT_SINGLE_MMAP,
        flags: IORING_SETUP_CQE32,
        ..empty
    }));
}

#[test]
fn tells_which_masks_fit() {
    let params = io_uring_params { sq_entries: 2, cq_entries: 4, ..io_uring_params::default() };
    let setup = RingSetup { fd: 4, params };
    assert!(setup.masks_fit(RingMasks { sq: 1, cq: 3 }));
    assert!(!setup.masks_fit(RingMasks { sq: 3, cq: 3 }));
    assert!(!setup.masks_fit(RingMasks { sq: 1, cq: 4 }));
    let sized = |sq_entries, cq_entries| RingSetup {
        fd: 4,
        params: io_uring_params { sq_entries, cq_entries, ..params },
    };
    assert!(!sized(3, 4).masks_fit(RingMasks { sq: 2, cq: 3 }));
    assert!(!sized(2, 6).masks_fit(RingMasks { sq: 1, cq: 5 }));
    assert!(!sized(0, 4).masks_fit(RingMasks { sq: u32::MAX, cq: 3 }));
}

#[test]
fn powers_of_two() {
    for n in 0..100_000u32 {
        assert_eq!(is_power_of_two(n), n.is_power_of_two());
    }
    for k in 0..32 {
        assert!(is_power_of_two(1 << k));
    }
    assert!(!is_power_of_two(u32::MAX));
}
