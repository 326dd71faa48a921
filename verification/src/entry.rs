//! The entries of the two queues.
//!
//! Addresses are plain numbers here: an entry only carries them to the kernel.
//! What lies at an address has to stay in place until the kernel has completed
//! the operation.
use crate::flags::{
    sqe_flags_set, IORING_ACCEPT_MULTISHOT, IORING_RECV_MULTISHOT, IOSQE_BUFFER_SELECT,
    IOSQE_FIXED_FILE,
};
use vstd::prelude::*;

verus! {

/// The operation that an entry asks for.
#[derive(Clone, Copy, PartialEq, Eq, Debug)]
pub enum IoringOp {
    Nop,
    Accept,
    AsyncCancel,
    Close,
    Connect,
    EpollCtl,
    Fadvise,
    Fallocate,
    FilesUpdate,
    Fsync,
    Linkat,
    LinkTimeout,
    Madvise,
    Mkdirat,
    Openat,
    Openat2,
    PollAdd,
    PollRemove,
    ProvideBuffers,
    Read,
    Readv,
    ReadFixed,
    Recv,
    Recvmsg,
    RemoveBuffers,
    Renameat,
    Send,
    Sendmsg,
    Shutdown,
    Splice,
    Statx,
    Symlinkat,
    SyncFileRange,
    Tee,
    Timeout,
    TimeoutRemove,
    Unlinkat,
    Write,
    Writev,
    WriteFixed,
    MsgRing,
    Fsetxattr,
    Setxattr,
    Fgetxattr,
    Getxattr,
    Socket,
    UringCmd,
    SendZc,
    SendmsgZc,
    ReadMultishot,
    Waitid,
    FutexWait,
    FutexWake,
    FutexWaitv,
    FixedFdInstall,
    Ftruncate,
    Bind,
    Listen,
}

/// An io_uring Completion Queue Entry.
#[derive(Clone, Copy, PartialEq, Eq, Debug)]
pub struct Cqe {
    pub user_data: u64,
    pub res: i32,
    pub flags: u32,
}

impl Cqe {
    /// The entry whose every field is zero.
    pub open spec fn zeroed() -> Cqe {
        Cqe { user_data: 0, res: 0, flags: 0 }
    }
}

impl Default for Cqe {
    fn default() -> (res: Self)
        ensures
            res == Cqe::zeroed(),
    {
        Cqe { user_data: 0, res: 0, flags: 0 }
    }
}

/// Consecutive elements in the memory of the application: the address of the
/// first, and how many there are.
#[derive(Clone, Copy, PartialEq, Eq, Debug)]
pub struct Region {
    pub addr: u64,
    pub len: usize,
}

/// One buffer of a vectored operation.
#[allow(non_camel_case_types)]
#[derive(Clone, Copy, PartialEq, Eq, Debug)]
pub struct iovec {
    pub iov_base: u64,
    pub iov_len: usize,
}

/// The last sixteen bytes of an entry: a third address and a spare word, or the
/// beginning of a command.
#[allow(non_camel_case_types)]
#[derive(Clone, Copy, PartialEq, Eq, Debug)]
pub struct addr3_struct {
    pub addr3: u64,
    pub pad2: u64,
}

/// An io_uring Submission Queue Entry.
///
/// A field that the kernel reads in several ways holds the plain integer.
#[derive(Clone, Copy, PartialEq, Eq, Debug)]
pub struct Sqe {
    pub opcode: IoringOp,
    pub flags: u8,
    pub ioprio: u16,
    pub fd: i32,
    pub off_or_addr2: u64,
    pub addr_or_splice_off_in: u64,
    pub len: u32,
    pub op_flags: u32,
    pub user_data: u64,
    pub buf: u16,
    pub personality: u16,
    pub splice_fd_in_or_file_index_or_addr_len: i32,
    pub addr3_or_cmd: addr3_struct,
}

impl Default for Sqe {
    fn default() -> (res: Self)
        ensures
            res == Sqe::zeroed(),
    {
        Sqe {
            opcode: IoringOp::Nop,
            flags: 0,
            ioprio: 0,
            fd: 0,
            off_or_addr2: 0,
            addr_or_splice_off_in: 0,
            len: 0,
            op_flags: 0,
            user_data: 0,
            buf: 0,
            personality: 0,
            splice_fd_in_or_file_index_or_addr_len: 0,
            addr3_or_cmd: addr3_struct { addr3: 0, pad2: 0 },
        }
    }
}

/// The `prep_` methods all only set the relevant fields, they do not zero out
/// everything: they are meant to be called on what
/// [`crate::IoUring::get_sqe`] returns.
impl Sqe {
    /// The entry whose every field is zero.
    pub open spec fn zeroed() -> Sqe {
        Sqe {
            opcode: IoringOp::Nop,
            flags: 0,
            ioprio: 0,
            fd: 0,
            off_or_addr2: 0,
            addr_or_splice_off_in: 0,
            len: 0,
            op_flags: 0,
            user_data: 0,
            buf: 0,
            personality: 0,
            splice_fd_in_or_file_index_or_addr_len: 0,
            addr3_or_cmd: addr3_struct { addr3: 0, pad2: 0 },
        }
    }

    /// The address that the operation works on.
    pub fn addr(&self) -> (res: u64)
        ensures
            res == self.addr_or_splice_off_in,
    {
        self.addr_or_splice_off_in
    }

    /// The offset into the file.
    pub fn off(&self) -> (res: u64)
        ensures
            res == self.off_or_addr2,
    {
        self.off_or_addr2
    }

    /// An operation that does nothing but complete.
    pub fn prep_nop(&mut self, user_data: u64)
        ensures
            *final(self) == (Sqe {
                opcode: IoringOp::Nop,
                user_data,
                ..*old(self)
            }),
    {
        self.opcode = IoringOp::Nop;
        self.user_data = user_data;
    }

    /// Flush the file `fd`.
    pub fn prep_fsync(&mut self, user_data: u64, fd: i32, flags: u32)
        ensures
            *final(self) == (Sqe {
                opcode: IoringOp::Fsync,
                fd,
                op_flags: flags,
                user_data,
                ..*old(self)
            }),
    {
        self.opcode = IoringOp::Fsync;
        self.fd = fd;
        self.op_flags = flags;
        self.user_data = user_data;
    }

    /// Sets the length, which the kernel takes as a `u32`.
    pub fn set_len(&mut self, len: usize)
        requires
            len <= u32::MAX,
        ensures
            *final(self) == (Sqe {
                len: len as u32,
                ..*old(self)
            }),
    {
        self.len = len as u32;
    }

    /// Sets the memory that the operation works on, and the offset into the file.
    pub fn set_buf(&mut self, addr: u64, len: usize, offset: u64)
        requires
            len <= u32::MAX,
        ensures
            *final(self) == (Sqe {
                addr_or_splice_off_in: addr,
                len: len as u32,
                off_or_addr2: offset,
                ..*old(self)
            }),
    {
        self.addr_or_splice_off_in = addr;
        self.set_len(len);
        self.off_or_addr2 = offset;
    }

    /// Read from `fd` at `offset` into the bytes `buf`.
    pub fn prep_read(&mut self, user_data: u64, fd: i32, buf: Region, offset: u64)
        requires
            buf.len <= u32::MAX,
        ensures
            *final(self) == (Sqe {
                opcode: IoringOp::Read,
                fd,
                addr_or_splice_off_in: buf.addr,
                len: buf.len as u32,
                off_or_addr2: offset,
                user_data,
                ..*old(self)
            }),
    {
        self.opcode = IoringOp::Read;
        self.fd = fd;
        self.set_buf(buf.addr, buf.len, offset);
        self.user_data = user_data;
    }

    /// Read from `fd` at `offset` into the buffers that the vectors `iovecs` list.
    pub fn prep_readv(&mut self, user_data: u64, fd: i32, iovecs: Region, offset: u64)
        requires
            iovecs.len <= u32::MAX,
        ensures
            *final(self) == (Sqe {
                opcode: IoringOp::Readv,
                fd,
                addr_or_splice_off_in: iovecs.addr,
                len: iovecs.len as u32,
                off_or_addr2: offset,
                user_data,
                ..*old(self)
            }),
    {
        self.opcode = IoringOp::Readv;
        self.fd = fd;
        self.set_buf(iovecs.addr, iovecs.len, offset);
        self.user_data = user_data;
    }

    /// Like [`Self::prep_readv`], from the registered file at `file_index`.
    pub fn prep_readv_fixed(
        &mut self,
        user_data: u64,
        file_index: usize,
        iovecs: Region,
        offset: u64,
    )
        requires
            file_index <= i32::MAX,
            iovecs.len <= u32::MAX,
        ensures
            *final(self) == (Sqe {
                opcode: IoringOp::Readv,
                fd: file_index as i32,
                addr_or_splice_off_in: iovecs.addr,
                len: iovecs.len as u32,
                off_or_addr2: offset,
                flags: old(self).flags | IOSQE_FIXED_FILE,
                user_data,
                ..*old(self)
            }),
    {
        self.opcode = IoringOp::Readv;
        self.fd = file_index as i32;
        self.set_buf(iovecs.addr, iovecs.len, offset);
        self.flags = sqe_flags_set(self.flags, IOSQE_FIXED_FILE);
        self.user_data = user_data;
    }

    /// Write the bytes `buf` to `fd` at `offset`.
    pub fn prep_write(&mut self, user_data: u64, fd: i32, buf: Region, offset: u64)
        requires
            buf.len <= u32::MAX,
        ensures
            *final(self) == (Sqe {
                opcode: IoringOp::Write,
                fd,
                addr_or_splice_off_in: buf.addr,
                len: buf.len as u32,
                off_or_addr2: offset,
                user_data,
                ..*old(self)
            }),
    {
        self.opcode = IoringOp::Write;
        self.fd = fd;
        self.set_buf(buf.addr, buf.len, offset);
        self.user_data = user_data;
    }

    /// Write the buffers that the vectors `iovecs` list to `fd` at `offset`.
    pub fn prep_writev(&mut self, user_data: u64, fd: i32, iovecs: Region, offset: u64)
        requires
            iovecs.len <= u32::MAX,
        ensures
            *final(self) == (Sqe {
                opcode: IoringOp::Writev,
                fd,
                addr_or_splice_off_in: iovecs.addr,
                len: iovecs.len as u32,
                off_or_addr2: offset,
                user_data,
                ..*old(self)
            }),
    {
        self.opcode = IoringOp::Writev;
        self.fd = fd;
        self.set_buf(iovecs.addr, iovecs.len, offset);
        self.user_data = user_data;
    }

    /// Move `len` bytes from `fd_in` at `off_in` to `fd_out` at `off_out`.
    pub fn prep_splice(
        &mut self,
        user_data: u64,
        fd_in: i32,
        off_in: u64,
        fd_out: i32,
        off_out: u64,
        len: usize,
    )
        requires
            len <= u32::MAX,
        ensures
            *final(self) == (Sqe {
                opcode: IoringOp::Splice,
                fd: fd_out,
                len: len as u32,
                off_or_addr2: off_out,
                addr_or_splice_off_in: off_in,
                splice_fd_in_or_file_index_or_addr_len: fd_in,
                user_data,
                ..*old(self)
            }),
    {
        self.opcode = IoringOp::Splice;
        self.fd = fd_out;
        self.set_len(len);
        self.off_or_addr2 = off_out;
        self.addr_or_splice_off_in = off_in;
        self.splice_fd_in_or_file_index_or_addr_len = fd_in;
        self.user_data = user_data;
    }

    /// Accept a connection on `fd`. The kernel leaves the address of the peer at `addr`
    /// and its length at `addr_len`.
    pub fn prep_accept(&mut self, user_data: u64, fd: i32, addr: u64, addr_len: u64, flags: u32)
        ensures
            *final(self) == (Sqe {
                opcode: IoringOp::Accept,
                fd,
                addr_or_splice_off_in: addr,
                off_or_addr2: addr_len,
                op_flags: flags,
                user_data,
                ..*old(self)
            }),
    {
        self.opcode = IoringOp::Accept;
        self.fd = fd;
        self.addr_or_splice_off_in = addr;
        self.off_or_addr2 = addr_len;
        self.op_flags = flags;
        self.user_data = user_data;
    }

    /// Connect `fd` to the peer whose address of `addr_len` bytes lies at `addr`.
    pub fn prep_connect(&mut self, user_data: u64, fd: i32, addr: u64, addr_len: u32)
        ensures
            *final(self) == (Sqe {
                opcode: IoringOp::Connect,
                fd,
                addr_or_splice_off_in: addr,
                off_or_addr2: addr_len as u64,
                user_data,
                ..*old(self)
            }),
    {
        self.opcode = IoringOp::Connect;
        self.fd = fd;
        self.addr_or_splice_off_in = addr;
        self.off_or_addr2 = addr_len as u64;
        self.user_data = user_data;
    }

    /// Send the bytes `buf` on `fd`.
    pub fn prep_send(&mut self, user_data: u64, fd: i32, buf: Region, flags: u32)
        requires
            buf.len <= u32::MAX,
        ensures
            *final(self) == (Sqe {
                opcode: IoringOp::Send,
                fd,
                addr_or_splice_off_in: buf.addr,
                len: buf.len as u32,
                op_flags: flags,
                user_data,
                ..*old(self)
            }),
    {
        self.opcode = IoringOp::Send;
        self.fd = fd;
        self.addr_or_splice_off_in = buf.addr;
        self.set_len(buf.len);
        self.op_flags = flags;
        self.user_data = user_data;
    }

    /// Receive from `fd` into the bytes `buf`.
    pub fn prep_recv(&mut self, user_data: u64, fd: i32, buf: Region, flags: u32)
        requires
            buf.len <= u32::MAX,
        ensures
            *final(self) == (Sqe {
                opcode: IoringOp::Recv,
                fd,
                addr_or_splice_off_in: buf.addr,
                len: buf.len as u32,
                op_flags: flags,
                user_data,
                ..*old(self)
            }),
    {
        self.opcode = IoringOp::Recv;
        self.fd = fd;
        self.addr_or_splice_off_in = buf.addr;
        self.set_len(buf.len);
        self.op_flags = flags;
        self.user_data = user_data;
    }

    /// Write the registered buffer `buffer`, at `buffer_index`, to `fd` at `offset`.
    pub fn prep_write_fixed(
        &mut self,
        user_data: u64,
        fd: i32,
        buffer: &iovec,
        offset: u64,
        buffer_index: u16,
    )
        requires
            buffer.iov_len <= u32::MAX,
        ensures
            *final(self) == (Sqe {
                opcode: IoringOp::WriteFixed,
                fd,
                addr_or_splice_off_in: buffer.iov_base,
                len: buffer.iov_len as u32,
                off_or_addr2: offset,
                buf: buffer_index,
                user_data,
                ..*old(self)
            }),
    {
        self.opcode = IoringOp::WriteFixed;
        self.fd = fd;
        self.set_buf(buffer.iov_base, buffer.iov_len, offset);
        self.buf = buffer_index;
        self.user_data = user_data;
    }

    /// Read from `fd` at `offset` into the registered buffer `buffer`, at
    /// `buffer_index`.
    pub fn prep_read_fixed(
        &mut self,
        user_data: u64,
        fd: i32,
        buffer: &mut iovec,
        offset: u64,
        buffer_index: u16,
    )
        requires
            old(buffer).iov_len <= u32::MAX,
        ensures
            *final(self) == (Sqe {
                opcode: IoringOp::ReadFixed,
                fd,
                addr_or_splice_off_in: old(buffer).iov_base,
                len: old(buffer).iov_len as u32,
                off_or_addr2: offset,
                buf: buffer_index,
                user_data,
                ..*old(self)
            }),
            *final(buffer) == *old(buffer),
    {
        self.opcode = IoringOp::ReadFixed;
        self.fd = fd;
        self.set_buf(buffer.iov_base, buffer.iov_len, offset);
        self.buf = buffer_index;
        self.user_data = user_data;
    }

    /// Open the file whose nul-terminated path, relative to the directory `fd`, lies at
    /// `path`.
    pub fn prep_openat(&mut self, user_data: u64, fd: i32, path: u64, flags: u32, mode: u32)
        ensures
            *final(self) == (Sqe {
                opcode: IoringOp::Openat,
                fd,
                addr_or_splice_off_in: path,
                len: mode,
                off_or_addr2: 0,
                op_flags: flags,
                user_data,
                ..*old(self)
            }),
    {
        self.opcode = IoringOp::Openat;
        self.fd = fd;
        self.set_buf(path, mode as usize, 0);
        self.op_flags = flags;
        self.user_data = user_data;
    }

    /// Close `fd`, which should not be used after.
    pub fn prep_close(&mut self, user_data: u64, fd: i32)
        ensures
            *final(self) == (Sqe {
                opcode: IoringOp::Close,
                fd,
                user_data,
                ..*old(self)
            }),
    {
        self.opcode = IoringOp::Close;
        self.fd = fd;
        self.user_data = user_data;
    }

    /// Receive from `fd` again and again, each time into a buffer that the kernel picks
    /// from the buffer group `bgid`.
    pub fn prep_multishot_recv(&mut self, user_data: u64, fd: i32, bgid: u16)
        ensures
            *final(self) == (Sqe {
                opcode: IoringOp::Recv,
                fd,
                flags: old(self).flags | IOSQE_BUFFER_SELECT,
                ioprio: IORING_RECV_MULTISHOT,
                buf: bgid,
                user_data,
                addr_or_splice_off_in: 0,
                len: 0,
                off_or_addr2: 0,
                ..*old(self)
            }),
    {
        self.opcode = IoringOp::Recv;
        self.fd = fd;
        self.flags = sqe_flags_set(self.flags, IOSQE_BUFFER_SELECT);
        self.ioprio = IORING_RECV_MULTISHOT;
        self.buf = bgid;
        self.user_data = user_data;
        self.set_buf(0, 0, 0);
    }

    /// Accept connections on `fd` again and again.
    pub fn prep_multishot_accept(&mut self, user_data: u64, fd: i32)
        ensures
            *final(self) == (Sqe {
                opcode: IoringOp::Accept,
                fd,
                ioprio: IORING_ACCEPT_MULTISHOT,
                user_data,
                addr_or_splice_off_in: 0,
                off_or_addr2: 0,
                len: 0,
                ..*old(self)
            }),
    {
        self.opcode = IoringOp::Accept;
        self.fd = fd;
        self.ioprio = IORING_ACCEPT_MULTISHOT;
        self.user_data = user_data;
        self.addr_or_splice_off_in = 0;
        self.off_or_addr2 = 0;
        self.set_len(0);
    }

    /// Receive at most `buf_len` bytes from `fd` into a buffer that the kernel picks from
    /// the buffer group `bgid`.
    pub fn prep_recv_provided(
        &mut self,
        user_data: u64,
        fd: i32,
        bgid: u16,
        buf_len: usize,
        flags: u32,
    )
        requires
            buf_len <= u32::MAX,
        ensures
            *final(self) == (Sqe {
                opcode: IoringOp::Recv,
                fd,
                addr_or_splice_off_in: 0,
                len: buf_len as u32,
                buf: bgid,
                flags: old(self).flags | IOSQE_BUFFER_SELECT,
                op_flags: flags,
                user_data,
                ..*old(self)
            }),
    {
        self.opcode = IoringOp::Recv;
        self.fd = fd;
        self.addr_or_splice_off_in = 0;
        self.set_len(buf_len);
        self.buf = bgid;
        self.flags = sqe_flags_set(self.flags, IOSQE_BUFFER_SELECT);
        self.op_flags = flags;
        self.user_data = user_data;
    }
}

} // verus!
