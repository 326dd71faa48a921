//! What can go wrong.
use rustix::io::Errno;
use vstd::prelude::*;

verus! {

/// `rustix::io::Errno`: the error number of a failed system call. The library
/// hands it on and never looks inside.
#[verifier::external_type_specification]
#[verifier::external_body]
pub struct ExErrno(rustix::io::Errno);

/// Why a ring could not be set up.
#[derive(Debug, Eq, PartialEq)]
pub enum Init {
    EntriesZero,
    EntriesNotPowerOfTwo,
    CQE32Unsupported,
    SingleMmapUnsupported,
    Os(Errno),
}

/// Why no submission queue entry could be handed out.
#[derive(Debug, Eq, PartialEq)]
pub enum GetSqe {
    SubmissionQueueFull,
}

} // verus!
