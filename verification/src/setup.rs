//! Setting up a ring.
//!
//! A ring is set up in steps, between which the kernel has its say:
//! [`IoUring::new_with_params`] checks what is asked for,
//! [`SetupRequest::replied`] what the kernel made of it, and
//! [`RingSetup::mapped`] builds the ring once its memory is mapped.
use crate::entry::{Cqe, Sqe};
use crate::err::Init;
use crate::flags::{
    feature_flags_contain, holds, setup_flags_contain, IORING_FEAT_SINGLE_MMAP,
    IORING_SETUP_ATTACH_WQ, IORING_SETUP_CQE32, IORING_SETUP_CQSIZE,
};
use crate::index::{is_power_of_two, power_of_two};
use crate::ring::{CompletionQueue, IoUring, SubmissionQueue};
use crate::shared::Ioring;
use rustix::io::Errno;
use vstd::prelude::*;

verus! {

/// The parameters of a ring, which the kernel reads and fills in.
#[allow(non_camel_case_types)]
#[derive(Clone, Copy, PartialEq, Eq, Debug)]
pub struct io_uring_params {
    pub sq_entries: u32,
    pub cq_entries: u32,
    pub flags: u32,
    pub sq_thread_cpu: u32,
    pub sq_thread_idle: u32,
    pub features: u32,
    pub wq_fd: i32,
    pub resv: [u32; 3],
}

impl io_uring_params {
    /// The parameters whose every field is zero.
    pub open spec fn zeroed() -> io_uring_params {
        io_uring_params {
            sq_entries: 0,
            cq_entries: 0,
            flags: 0,
            sq_thread_cpu: 0,
            sq_thread_idle: 0,
            features: 0,
            wq_fd: 0,
            resv: [0, 0, 0],
        }
    }

    /// What is the kernel's to fill in is left empty.
    pub open spec fn unfilled(&self) -> bool {
        &&& self.sq_entries == 0
        &&& self.cq_entries == 0 || holds(self.flags, IORING_SETUP_CQSIZE)
        &&& self.features == 0
        &&& self.wq_fd == 0 || holds(self.flags, IORING_SETUP_ATTACH_WQ)
        &&& self.resv@ == seq![0u32, 0, 0]
    }

    /// The kernel has given both queues a size, and the completion queue at
    /// least that of the submission queue.
    pub open spec fn filled(&self) -> bool {
        &&& self.sq_entries != 0
        &&& self.cq_entries != 0
        &&& self.cq_entries >= self.sq_entries
    }

    /// Whether what is the kernel's to fill in is left empty.
    pub fn is_unfilled(&self) -> (res: bool)
        ensures
            res == self.unfilled(),
    {
        let resv_empty = self.resv[0] == 0 && self.resv[1] == 0 && self.resv[2] == 0;
        proof {
            assert(resv_empty <==> self.resv@ =~= seq![0u32, 0, 0]) by {
                if self.resv@ =~= seq![0u32, 0, 0] {
                    assert(self.resv@[0] == 0 && self.resv@[1] == 0 && self.resv@[2] == 0);
                }
            }
        }
        self.sq_entries == 0 && (self.cq_entries == 0 || setup_flags_contain(
            self.flags,
            IORING_SETUP_CQSIZE,
        )) && self.features == 0 && (self.wq_fd == 0 || setup_flags_contain(
            self.flags,
            IORING_SETUP_ATTACH_WQ,
        )) && resv_empty
    }

    /// Whether the kernel has given both queues a size, and the completion queue
    /// at least that of the submission queue.
    pub fn is_filled(&self) -> (res: bool)
        ensures
            res == self.filled(),
    {
        self.sq_entries != 0 && self.cq_entries != 0 && self.cq_entries >= self.sq_entries
    }
}

impl Default for io_uring_params {
    fn default() -> (res: Self)
        ensures
            res == io_uring_params::zeroed(),
    {
        default_params()
    }
}

/// The parameters whose every field is zero.
///
/// `rustix::io_uring::io_uring_params::default`: every number is zero and no
/// flag is set.
#[verifier::external_body]
fn default_params() -> (res: io_uring_params)
    ensures
        res == io_uring_params::zeroed(),
{
    let p = rustix::io_uring::io_uring_params::default();
    io_uring_params {
        sq_entries: p.sq_entries,
        cq_entries: p.cq_entries,
        flags: p.flags.bits(),
        sq_thread_cpu: p.sq_thread_cpu,
        sq_thread_idle: p.sq_thread_idle,
        features: p.features.bits(),
        wq_fd: p.wq_fd,
        resv: p.resv,
    }
}

/// An `io_uring_setup` call that is due.
#[derive(Clone, Copy, PartialEq, Eq, Debug)]
pub struct SetupRequest {
    pub entries: u32,
    pub params: io_uring_params,
}

/// What an `io_uring_setup` call that succeeded left behind: the descriptor of
/// the ring, and the parameters as the kernel filled them in.
#[derive(Clone, Copy, PartialEq, Eq, Debug)]
pub struct SetupReply {
    pub fd: i32,
    pub params: io_uring_params,
}

/// A ring whose memory is to be mapped.
#[derive(Clone, Copy, PartialEq, Eq, Debug)]
pub struct RingSetup {
    pub fd: i32,
    pub params: io_uring_params,
}

/// The masks that the kernel left in the mapped memory.
#[derive(Clone, Copy, PartialEq, Eq, Debug)]
pub struct RingMasks {
    pub sq: u32,
    pub cq: u32,
}

impl IoUring {
    /// A friendly way to set up an io_uring, with default parameters. `entries`
    /// must be a power of two between 1 and 32768, although the kernel will make
    /// the final call on how many entries the submission and completion queues
    /// will ultimately have.
    pub fn new(entries: u32) -> (res: Result<SetupRequest, Init>)
        ensures
            res == (if entries == 0 {
                Err(Init::EntriesZero)
            } else if !power_of_two(entries as int) {
                Err(Init::EntriesNotPowerOfTwo)
            } else {
                Ok(
                    SetupRequest {
                        entries,
                        params: io_uring_params {
                            sq_thread_idle: 1000,
                            ..io_uring_params::zeroed()
                        },
                    },
                )
            }),
    {
        let mut params = default_params();
        params.sq_thread_idle = 1000;
        Self::new_with_params(entries, &mut params)
    }

    /// A powerful way to set up an io_uring, if you want to tweak the parameters
    /// such as submission queue thread cpu affinity or thread idle timeout (the
    /// kernel and our default is 1 second).
    pub fn new_with_params(entries: u32, p: &mut io_uring_params) -> (res: Result<
        SetupRequest,
        Init,
    >)
        requires
            entries != 0 && power_of_two(entries as int) ==> old(p).unfilled(),
        ensures
            res == (if entries == 0 {
                Err(Init::EntriesZero)
            } else if !power_of_two(entries as int) {
                Err(Init::EntriesNotPowerOfTwo)
            } else {
                Ok(SetupRequest { entries, params: *old(p) })
            }),
            *final(p) == *old(p),
    {
        if entries == 0 {
            return Err(Init::EntriesZero);
        }
        if !is_power_of_two(entries) {
            return Err(Init::EntriesNotPowerOfTwo);
        }
        Ok(SetupRequest { entries, params: *p })
    }
}

impl SetupReply {
    /// The features and the flags are such that a ring can be built.
    pub open spec fn supported(&self) -> bool {
        holds(self.params.features, IORING_FEAT_SINGLE_MMAP) && !holds(
            self.params.flags,
            IORING_SETUP_CQE32,
        )
    }

    /// The kernel has filled the parameters in, or they are refused anyway.
    pub fn is_sound(&self) -> (res: bool)
        ensures
            res == (self.supported() ==> self.params.filled()),
    {
        !feature_flags_contain(self.params.features, IORING_FEAT_SINGLE_MMAP)
            || setup_flags_contain(self.params.flags, IORING_SETUP_CQE32)
            || self.params.is_filled()
    }
}

impl SetupRequest {
    /// Goes on after the call was made, where `reply` is what it returned.
    pub fn replied(self, reply: Result<SetupReply, Errno>) -> (res: Result<RingSetup, Init>)
        requires
            reply matches Ok(r) ==> r.supported() ==> r.params.filled(),
        ensures
            res == (match reply {
                Err(e) => Err(Init::Os(e)),
                Ok(r) => if !holds(r.params.features, IORING_FEAT_SINGLE_MMAP) {
                    Err(Init::SingleMmapUnsupported)
                } else if holds(r.params.flags, IORING_SETUP_CQE32) {
                    Err(Init::CQE32Unsupported)
                } else {
                    Ok(RingSetup { fd: r.fd, params: r.params })
                },
            }),
    {
        let r = match reply {
            Err(e) => return Err(Init::Os(e)),
            Ok(r) => r,
        };
        // Kernel versions 5.4 and up use only one mapping for the submission and
        // completion queues. We do not support the two mappings of before,
        // because we want to keep the init paths simple and because io_uring has
        // had many bug fixes even since 5.4.
        if !feature_flags_contain(r.params.features, IORING_FEAT_SINGLE_MMAP) {
            return Err(Init::SingleMmapUnsupported);
        }
        if setup_flags_contain(r.params.flags, IORING_SETUP_CQE32) {
            return Err(Init::CQE32Unsupported);
        }
        Ok(RingSetup { fd: r.fd, params: r.params })
    }
}

impl RingSetup {
    /// The masks belong to the sizes that the kernel gave the queues, which are
    /// powers of two. The kernel promises both.
    pub open spec fn fits(&self, masks: RingMasks) -> bool {
        &&& power_of_two(self.params.sq_entries as int)
        &&& power_of_two(self.params.cq_entries as int)
        &&& masks.sq == self.params.sq_entries - 1
        &&& masks.cq == self.params.cq_entries - 1
    }

    /// Whether the masks belong to the sizes of the queues, and these are powers of
    /// two.
    pub fn masks_fit(&self, masks: RingMasks) -> (res: bool)
        ensures
            res == self.fits(masks),
    {
        is_power_of_two(self.params.sq_entries) && is_power_of_two(self.params.cq_entries)
            && masks.sq as u64 + 1 == self.params.sq_entries as u64 && masks.cq as u64 + 1
            == self.params.cq_entries as u64
    }

    /// The ring, where `mapped` says whether its memory could be mapped and which
    /// masks lie there. The memory of a new ring is zeroed.
    pub fn mapped(self, mapped: Result<RingMasks, Errno>) -> (res: Result<IoUring, Init>)
        ensures
            match mapped {
                Err(e) => res == Err::<IoUring, Init>(Init::Os(e)),
                Ok(masks) => {
                    &&& res matches Ok(ring)
                    &&& self.built(ring, masks)
                    &&& self.fits(masks) ==> ring.consistent()
                },
            },
    {
        let masks = match mapped {
            Err(e) => return Err(Init::Os(e)),
            Ok(masks) => masks,
        };
        let mut sqes: Vec<Sqe> = Vec::new();
        let mut sq_array: Vec<u32> = Vec::new();
        let mut i: u32 = 0;
        while i < self.params.sq_entries
            invariant
                0 <= i <= self.params.sq_entries,
                sqes@ == Seq::new(i as nat, |k: int| Sqe::zeroed()),
                sq_array@ == Seq::new(i as nat, |k: int| 0u32),
            decreases self.params.sq_entries - i,
        {
            sqes.push(Sqe::default());
            sq_array.push(0);
            i = i + 1;
        }
        let mut cqes: Vec<Cqe> = Vec::new();
        let mut j: u32 = 0;
        while j < self.params.cq_entries
            invariant
                0 <= j <= self.params.cq_entries,
                cqes@ == Seq::new(j as nat, |k: int| Cqe::zeroed()),
            decreases self.params.cq_entries - j,
        {
            cqes.push(Cqe::default());
            j = j + 1;
        }
        let shared = Ioring {
            sq_head: 0,
            sq_tail: 0,
            sq_flags: 0,
            sq_array,
            cq_head: 0,
            cq_tail: 0,
            cqes,
        };
        let sq = SubmissionQueue {
            sqes,
            entries: self.params.sq_entries,
            mask: masks.sq,
            sqe_head: 0,
            sqe_tail: 0,
        };
        let cq = CompletionQueue { mask: masks.cq, entries: self.params.cq_entries };
        Ok(
            IoUring {
                fd: self.fd,
                shared,
                flags: self.params.flags,
                features: self.params.features,
                sq,
                cq,
            },
        )
    }

    /// `ring` is the new ring: empty, of the sizes that the kernel chose.
    pub open spec fn built(&self, ring: IoUring, masks: RingMasks) -> bool {
        &&& ring.fd == self.fd
        &&& ring.flags == self.params.flags
        &&& ring.features == self.params.features
        &&& ring.sq.entries == self.params.sq_entries
        &&& ring.sq.sqes@ == Seq::new(self.params.sq_entries as nat, |k: int| Sqe::zeroed())
        &&& ring.sq.mask == masks.sq
        &&& ring.sq.sqe_head == 0
        &&& ring.sq.sqe_tail == 0
        &&& ring.cq.entries == self.params.cq_entries
        &&& ring.cq.mask == masks.cq
        &&& ring.shared.sq_head == 0
        &&& ring.shared.sq_tail == 0
        &&& ring.shared.sq_flags == 0
        &&& ring.shared.sq_array@ == Seq::new(self.params.sq_entries as nat, |k: int| 0u32)
        &&& ring.shared.cq_head == 0
        &&& ring.shared.cq_tail == 0
        &&& ring.shared.cqes@ == Seq::new(self.params.cq_entries as nat, |k: int| Cqe::zeroed())
    }
}

} // verus!
