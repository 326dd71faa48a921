//! The flag words of the `io_uring` interface.
//!
//! A flag word is kept as the plain integer that the kernel sees. What it means
//! to hold a flag, and to have one added, is left to the flag types of `rustix`.
use rustix::io_uring::{
    IoringEnterFlags, IoringFeatureFlags, IoringSetupFlags, IoringSqFlags, IoringSqeFlags,
};
use vstd::prelude::*;

verus! {

/// Perform busy-waiting for an I/O completion.
pub const IORING_SETUP_IOPOLL: u32 = 1;

/// A kernel thread polls the submission queue.
pub const IORING_SETUP_SQPOLL: u32 = 2;

/// The application chooses the size of the completion queue.
pub const IORING_SETUP_CQSIZE: u32 = 8;

/// Share the worker threads of the ring whose descriptor is given.
pub const IORING_SETUP_ATTACH_WQ: u32 = 32;

/// Completion queue entries are twice their usual size.
pub const IORING_SETUP_CQE32: u32 = 2048;

/// Both queues lie in one mapping.
pub const IORING_FEAT_SINGLE_MMAP: u32 = 1;

/// Wait for completions.
pub const IORING_ENTER_GETEVENTS: u32 = 1;

/// Wake the kernel thread that polls the submission queue.
pub const IORING_ENTER_SQ_WAKEUP: u32 = 2;

/// The kernel thread that polls the submission queue sleeps.
pub const IORING_SQ_NEED_WAKEUP: u32 = 1;

/// Completions wait in the kernel because the completion queue was full.
pub const IORING_SQ_CQ_OVERFLOW: u32 = 2;

/// The descriptor of the entry is an index into the registered files.
pub const IOSQE_FIXED_FILE: u8 = 1;

/// Start only after every entry before this one has completed.
pub const IOSQE_IO_DRAIN: u8 = 2;

/// The next entry starts only after this one has completed.
pub const IOSQE_IO_LINK: u8 = 4;

/// The kernel picks a buffer from the buffer group of the entry.
pub const IOSQE_BUFFER_SELECT: u8 = 32;

/// Keep receiving until an error.
pub const IORING_RECV_MULTISHOT: u16 = 2;

/// Keep accepting until an error.
pub const IORING_ACCEPT_MULTISHOT: u16 = 1;

/// Whether every bit of `other` is set in `flags`.
pub open spec fn holds(flags: u32, other: u32) -> bool {
    flags & other == other
}

/// Whether the setup flags `flags` hold all of `other`.
///
/// `rustix::io_uring::IoringSetupFlags::contains`: true if and only if every
/// bit of `other` is set in `flags`. No bit of either is dropped.
#[verifier::external_body]
pub(crate) fn setup_flags_contain(flags: u32, other: u32) -> (res: bool)
    ensures
        res == holds(flags, other),
{
    IoringSetupFlags::from_bits_retain(flags).contains(IoringSetupFlags::from_bits_retain(other))
}

/// Whether the feature flags `flags` hold all of `other`.
///
/// `rustix::io_uring::IoringFeatureFlags::contains`: true if and only if every
/// bit of `other` is set in `flags`. No bit of either is dropped.
#[verifier::external_body]
pub(crate) fn feature_flags_contain(flags: u32, other: u32) -> (res: bool)
    ensures
        res == holds(flags, other),
{
    IoringFeatureFlags::from_bits_retain(flags).contains(
        IoringFeatureFlags::from_bits_retain(other),
    )
}

/// Whether the submission queue flags `flags` hold all of `other`.
///
/// `rustix::io_uring::IoringSqFlags::contains`: true if and only if every bit
/// of `other` is set in `flags`. No bit of either is dropped.
#[verifier::external_body]
pub(crate) fn sq_flags_contain(flags: u32, other: u32) -> (res: bool)
    ensures
        res == holds(flags, other),
{
    IoringSqFlags::from_bits_retain(flags).contains(IoringSqFlags::from_bits_retain(other))
}

/// The enter flags `flags` with all of `other` added.
///
/// `rustix::io_uring::IoringEnterFlags::set` with the value `true`: the bits of
/// `other` are set and every other bit stays as it was.
#[verifier::external_body]
pub(crate) fn enter_flags_set(flags: u32, other: u32) -> (res: u32)
    ensures
        res == flags | other,
{
    let mut set = IoringEnterFlags::from_bits_retain(flags);
    set.set(IoringEnterFlags::from_bits_retain(other), true);
    set.bits()
}

/// The entry flags `flags` with all of `other` added.
///
/// `rustix::io_uring::IoringSqeFlags::set` with the value `true`: the bits of
/// `other` are set and every other bit stays as it was.
#[verifier::external_body]
pub(crate) fn sqe_flags_set(flags: u8, other: u8) -> (res: u8)
    ensures
        res == flags | other,
{
    let mut set = IoringSqeFlags::from_bits_retain(flags);
    set.set(IoringSqeFlags::from_bits_retain(other), true);
    set.bits()
}

} // verus!
