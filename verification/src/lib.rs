//! The queue logic of an `io_uring` instance.
//!
//! Start with [`IoUring`]: this is the primary entry point.
//!
//! An `io_uring` is a pair of queues in memory that the application shares with
//! the kernel. This crate holds everything about them that is computed: which
//! slot of a queue comes next, how much of it is in use, what is announced to the
//! kernel and when the kernel has to be entered, what an entry of each operation
//! looks like, and how a ring is set up. It makes no system call and touches no
//! shared memory. A [`shared::Ioring`] holds what that memory holds, a call that
//! is due is returned as a value, and what came of it is handed back in.
//!
//! What holds of a ring across calls is stated and proved in [`laws`], and what
//! holds over runs of any length in [`run`]. What each call does to the fields of
//! its arguments is the subject of [`effects`] for the queues, of [`handover`] for
//! setup, registration and provided buffers, and of [`prepared`] for entries.

pub mod buffer;
pub mod effects;
pub mod entry;
pub mod err;
pub mod flags;
pub mod handover;
pub mod index;
pub mod laws;
pub mod prepared;
pub mod register;
pub mod request;
pub mod ring;
pub mod run;
pub mod setup;
pub mod shared;

pub use crate::entry::{addr3_struct, iovec, Cqe, IoringOp, Region, Sqe};
pub use crate::ring::IoUring;
pub use crate::setup::io_uring_params;
pub use rustix::io::Errno;
