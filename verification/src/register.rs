//! Registering files and buffers with the kernel.
use crate::buffer::{buf_reg_default, io_uring_buf_reg, BufRing};
use crate::entry::Region;
use crate::request::{IoringRegisterOp, Register, RegisterArg};
use crate::ring::IoUring;
use vstd::prelude::*;

verus! {

impl IoUring {
    /// The descriptor of the ring.
    pub fn fd(&self) -> (res: i32)
        ensures
            res == self.fd,
    {
        self.fd
    }

    /// Registers the array `fds` of file descriptors, for use with
    /// [`crate::entry::Sqe::prep_readv_fixed`].
    pub fn register_files(&self, fds: Region) -> (res: Register)
        requires
            fds.len <= u32::MAX,
        ensures
            res == (Register {
                fd: self.fd,
                opcode: IoringRegisterOp::RegisterFiles,
                arg: RegisterArg::Address(fds.addr),
                nr_args: fds.len as u32,
            }),
    {
        Register {
            fd: self.fd(),
            opcode: IoringRegisterOp::RegisterFiles,
            arg: RegisterArg::Address(fds.addr),
            nr_args: fds.len as u32,
        }
    }

    /// Unregisters all registered file descriptors previously associated with
    /// the ring.
    pub fn unregister_files(&mut self) -> (res: Register)
        ensures
            res == (Register {
                fd: old(self).fd,
                opcode: IoringRegisterOp::UnregisterFiles,
                arg: RegisterArg::Null,
                nr_args: 0,
            }),
            *final(self) == *old(self),
    {
        Register {
            fd: self.fd(),
            opcode: IoringRegisterOp::UnregisterFiles,
            arg: RegisterArg::Null,
            nr_args: 0,
        }
    }

    /// Registers the array `buffers` of buffers, for use with
    /// [`crate::entry::Sqe::prep_read_fixed`] and
    /// [`crate::entry::Sqe::prep_write_fixed`].
    pub fn register_buffers(&mut self, buffers: Region) -> (res: Register)
        requires
            buffers.len <= u32::MAX,
        ensures
            res == (Register {
                fd: old(self).fd,
                opcode: IoringRegisterOp::RegisterBuffers,
                arg: RegisterArg::Address(buffers.addr),
                nr_args: buffers.len as u32,
            }),
            *final(self) == *old(self),
    {
        Register {
            fd: self.fd(),
            opcode: IoringRegisterOp::RegisterBuffers,
            arg: RegisterArg::Address(buffers.addr),
            nr_args: buffers.len as u32,
        }
    }

    /// Registers the buffer ring `buf_ring`.
    pub fn register_pbuf_ring(&mut self, buf_ring: &BufRing) -> (res: Register)
        requires
            buf_ring.wf(),
        ensures
            res == (Register {
                fd: old(self).fd,
                opcode: IoringRegisterOp::RegisterPbufRing,
                arg: RegisterArg::BufRing(buf_ring.description()),
                nr_args: 1,
            }),
            *final(self) == *old(self),
    {
        Register {
            fd: self.fd(),
            opcode: IoringRegisterOp::RegisterPbufRing,
            arg: RegisterArg::BufRing(buf_ring.args()),
            nr_args: 1,
        }
    }

    /// Unregisters the buffer ring of the buffer group `bgid`.
    pub fn unregister_pbuf_ring(&mut self, bgid: u16) -> (res: Register)
        ensures
            res == (Register {
                fd: old(self).fd,
                opcode: IoringRegisterOp::UnregisterPbufRing,
                arg: RegisterArg::BufRing(
                    io_uring_buf_reg {
                        ring_addr: 0,
                        ring_entries: 0,
                        bgid,
                        flags: 0,
                        resv: [0, 0, 0],
                    },
                ),
                nr_args: 1,
            }),
            *final(self) == *old(self),
    {
        let mut reg = buf_reg_default();
        reg.bgid = bgid;
        Register {
            fd: self.fd(),
            opcode: IoringRegisterOp::UnregisterPbufRing,
            arg: RegisterArg::BufRing(reg),
            nr_args: 1,
        }
    }
}

} // verus!
