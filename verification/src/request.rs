//! System calls that are yet to be made.
//!
//! Deciding on a call and making it are kept apart: the ring says which call is
//! due, with which arguments, and whoever owns the descriptor makes it.
use crate::buffer::io_uring_buf_reg;
use crate::entry::Cqe;
use rustix::io::Errno;
use vstd::prelude::*;

verus! {

/// An `io_uring_enter` call.
#[derive(Clone, Copy, PartialEq, Eq, Debug)]
pub struct Enter {
    pub fd: i32,
    pub to_submit: u32,
    pub min_complete: u32,
    pub flags: u32,
}

/// What a submission comes down to.
#[derive(Clone, Copy, PartialEq, Eq, Debug)]
pub enum Submit {
    /// The kernel has to be entered.
    Enter(Enter),
    /// The kernel picks the entries up by itself: so many are pending.
    Submitted(u32),
}

impl Submit {
    /// The number of entries submitted, where `entered` is what the call
    /// returned if one was due.
    pub fn finish(self, entered: Result<u32, Errno>) -> (res: Result<u32, Errno>)
        ensures
            res == (match self {
                Submit::Enter(_) => entered,
                Submit::Submitted(count) => Ok(count),
            }),
    {
        match self {
            Submit::Enter(_) => entered,
            Submit::Submitted(count) => Ok(count),
        }
    }
}

/// What copying a batch of completions comes down to.
#[derive(Clone, Copy, PartialEq, Eq, Debug)]
pub enum CopyCqes {
    /// So many completions were copied.
    Copied(u32),
    /// There was none: the kernel has to be entered.
    Enter(Enter),
}

/// What copying one completion comes down to.
#[derive(Clone, Copy, PartialEq, Eq, Debug)]
pub enum CopyCqe {
    /// A completion was there.
    Ready(Cqe),
    /// There was none: the kernel has to be entered.
    Enter(Enter),
}

/// What an `io_uring_register` call registers.
#[derive(Clone, Copy, PartialEq, Eq, Debug)]
pub enum IoringRegisterOp {
    RegisterFiles,
    UnregisterFiles,
    RegisterBuffers,
    RegisterPbufRing,
    UnregisterPbufRing,
}

/// What the argument of an `io_uring_register` call points to.
#[derive(Clone, Copy, PartialEq, Eq, Debug)]
pub enum RegisterArg {
    /// Nothing.
    Null,
    /// What lies at this address in the memory of the application.
    Address(u64),
    /// This description of a buffer ring.
    BufRing(io_uring_buf_reg),
}

/// An `io_uring_register` call.
#[derive(Clone, Copy, PartialEq, Eq, Debug)]
pub struct Register {
    pub fd: i32,
    pub opcode: IoringRegisterOp,
    pub arg: RegisterArg,
    pub nr_args: u32,
}

} // verus!
