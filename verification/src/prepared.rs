//! What the operations of an entry leave in it, and how they relate.
//!
//! As in [`crate::effects`], the laws speak of calls and of fields.
use crate::entry::{iovec, IoringOp, Region, Sqe};
use crate::flags::{
    IORING_ACCEPT_MULTISHOT, IORING_RECV_MULTISHOT, IOSQE_BUFFER_SELECT, IOSQE_FIXED_FILE,
};
use vstd::prelude::*;

verus! {

/// The memory that is set is the memory that is read back: the whole address, the
/// length and the offset, and no other field changes.
pub proof fn law_memory_is_kept(
    sqe: &mut Sqe,
    addr: u64,
    len: usize,
    offset: u64,
    addr_read: u64,
    off_read: u64,
    short: &mut Sqe,
)
    requires
        len <= u32::MAX,
        call_ensures(Sqe::set_buf, (sqe, addr, len, offset), ()),
        call_ensures(Sqe::addr, (&*final(sqe),), addr_read),
        call_ensures(Sqe::off, (&*final(sqe),), off_read),
        call_ensures(Sqe::set_len, (short, len), ()),
    ensures
        call_requires(Sqe::set_buf, (sqe, addr, len, offset)),
        call_requires(Sqe::set_len, (short, len)),
        addr_read == addr,
        off_read == offset,
        final(sqe).addr_or_splice_off_in == addr,
        final(sqe).off_or_addr2 == offset,
        final(sqe).len as int == len as int,
        *final(sqe) == (Sqe {
            addr_or_splice_off_in: final(sqe).addr_or_splice_off_in,
            off_or_addr2: final(sqe).off_or_addr2,
            len: final(sqe).len,
            ..*old(sqe)
        }),
        final(short).len as int == len as int,
        *final(short) == (Sqe { len: final(short).len, ..*old(short) }),
{
}

/// Reads and writes, vectored or not, differ in nothing but their name. They name
/// the file, the whole address and the number of elements there, and the offset.
/// Whatever else the entry holds stays.
pub proof fn law_transfers_differ_in_name_only(
    read: &mut Sqe,
    readv: &mut Sqe,
    write: &mut Sqe,
    writev: &mut Sqe,
    user_data: u64,
    fd: i32,
    region: Region,
    offset: u64,
)
    requires
        region.len <= u32::MAX,
        *old(readv) == *old(read),
        *old(write) == *old(read),
        *old(writev) == *old(read),
        call_ensures(Sqe::prep_read, (read, user_data, fd, region, offset), ()),
        call_ensures(Sqe::prep_readv, (readv, user_data, fd, region, offset), ()),
        call_ensures(Sqe::prep_write, (write, user_data, fd, region, offset), ()),
        call_ensures(Sqe::prep_writev, (writev, user_data, fd, region, offset), ()),
    ensures
        call_requires(Sqe::prep_read, (read, user_data, fd, region, offset)),
        call_requires(Sqe::prep_readv, (readv, user_data, fd, region, offset)),
        call_requires(Sqe::prep_write, (write, user_data, fd, region, offset)),
        call_requires(Sqe::prep_writev, (writev, user_data, fd, region, offset)),
        final(read).opcode == IoringOp::Read,
        final(read).user_data == user_data,
        final(read).fd == fd,
        final(read).addr_or_splice_off_in == region.addr,
        final(read).len as int == region.len as int,
        final(read).off_or_addr2 == offset,
        *old(read) == (Sqe {
            opcode: old(read).opcode,
            user_data: old(read).user_data,
            fd: old(read).fd,
            addr_or_splice_off_in: old(read).addr_or_splice_off_in,
            len: old(read).len,
            off_or_addr2: old(read).off_or_addr2,
            ..*final(read)
        }),
        *final(readv) == (Sqe { opcode: IoringOp::Readv, ..*final(read) }),
        *final(write) == (Sqe { opcode: IoringOp::Write, ..*final(read) }),
        *final(writev) == (Sqe { opcode: IoringOp::Writev, ..*final(read) }),
{
}

/// A transfer with something that was registered is the plain one, with the
/// registered thing named by its index: a file in place of the descriptor and by a
/// flag that is added to the others, a buffer in a field of its own.
pub proof fn law_fixed_transfers_name_the_index(
    plain: &mut Sqe,
    file: &mut Sqe,
    file_index: usize,
    read: &mut Sqe,
    source: &mut iovec,
    write: &mut Sqe,
    target: iovec,
    user_data: u64,
    fd: i32,
    region: Region,
    offset: u64,
    buffer_index: u16,
)
    requires
        region.len <= u32::MAX,
        file_index <= i32::MAX,
        *old(file) == *old(plain),
        *old(read) == *old(plain),
        *old(write) == *old(plain),
        *old(source) == (iovec { iov_base: region.addr, iov_len: region.len }),
        target == *old(source),
        call_ensures(Sqe::prep_readv, (plain, user_data, fd, region, offset), ()),
        call_ensures(Sqe::prep_readv_fixed, (file, user_data, file_index, region, offset), ()),
        call_ensures(
            Sqe::prep_read_fixed,
            (read, user_data, fd, source, offset, buffer_index),
            (),
        ),
        call_ensures(
            Sqe::prep_write_fixed,
            (write, user_data, fd, &target, offset, buffer_index),
            (),
        ),
    ensures
        final(file).fd as int == file_index as int,
        final(file).flags & IOSQE_FIXED_FILE != 0,
        final(file).flags & !IOSQE_FIXED_FILE == old(plain).flags & !IOSQE_FIXED_FILE,
        *final(file) == (Sqe {
            fd: final(file).fd,
            flags: final(file).flags,
            ..*final(plain)
        }),
        *final(read) == (Sqe {
            opcode: IoringOp::ReadFixed,
            buf: buffer_index,
            ..*final(plain)
        }),
        *final(write) == (Sqe {
            opcode: IoringOp::WriteFixed,
            buf: buffer_index,
            ..*final(plain)
        }),
        *final(source) == *old(source),
{
    let flags = old(plain).flags;
    assert((flags | 1) & 1 != 0 && (flags | 1) & !1u8 == flags & !1u8) by (bit_vector);
}

/// Sending and receiving differ in nothing but their name. They name the socket,
/// the whole address and the number of bytes there, and the flags of the call.
/// Receiving into a provided buffer leaves the address empty and names the group
/// from which the kernel picks, by a flag that is added to the others.
pub proof fn law_messages_name_their_memory(
    send: &mut Sqe,
    recv: &mut Sqe,
    provided: &mut Sqe,
    user_data: u64,
    fd: i32,
    region: Region,
    bgid: u16,
    flags: u32,
)
    requires
        region.len <= u32::MAX,
        *old(recv) == *old(send),
        *old(provided) == *old(send),
        call_ensures(Sqe::prep_send, (send, user_data, fd, region, flags), ()),
        call_ensures(Sqe::prep_recv, (recv, user_data, fd, region, flags), ()),
        call_ensures(
            Sqe::prep_recv_provided,
            (provided, user_data, fd, bgid, region.len, flags),
            (),
        ),
    ensures
        call_requires(Sqe::prep_send, (send, user_data, fd, region, flags)),
        call_requires(Sqe::prep_recv, (recv, user_data, fd, region, flags)),
        final(send).opcode == IoringOp::Send,
        final(send).user_data == user_data,
        final(send).fd == fd,
        final(send).addr_or_splice_off_in == region.addr,
        final(send).len as int == region.len as int,
        final(send).op_flags == flags,
        *old(send) == (Sqe {
            opcode: old(send).opcode,
            user_data: old(send).user_data,
            fd: old(send).fd,
            addr_or_splice_off_in: old(send).addr_or_splice_off_in,
            len: old(send).len,
            op_flags: old(send).op_flags,
            ..*final(send)
        }),
        *final(recv) == (Sqe { opcode: IoringOp::Recv, ..*final(send) }),
        final(provided).flags & IOSQE_BUFFER_SELECT != 0,
        final(provided).flags & !IOSQE_BUFFER_SELECT == old(send).flags & !IOSQE_BUFFER_SELECT,
        *final(provided) == (Sqe {
            addr_or_splice_off_in: 0,
            buf: bgid,
            flags: final(provided).flags,
            ..*final(recv)
        }),
{
    let held = old(send).flags;
    assert((held | 32) & 32 != 0 && (held | 32) & !32u8 == held & !32u8) by (bit_vector);
}

/// Accepting leaves room for the peer, connecting names it: the whole addresses go
/// where the kernel reads them. Accepting again and again leaves no room, says so
/// in a field of its own, and keeps the flags of the entry.
pub proof fn law_connections_name_the_peer(
    accept: &mut Sqe,
    connect: &mut Sqe,
    again: &mut Sqe,
    user_data: u64,
    fd: i32,
    addr: u64,
    addr_len_at: u64,
    addr_len: u32,
    flags: u32,
)
    requires
        call_ensures(Sqe::prep_accept, (accept, user_data, fd, addr, addr_len_at, flags), ()),
        call_ensures(Sqe::prep_connect, (connect, user_data, fd, addr, addr_len), ()),
        call_ensures(Sqe::prep_multishot_accept, (again, user_data, fd), ()),
    ensures
        final(accept).opcode == IoringOp::Accept,
        final(accept).user_data == user_data,
        final(accept).fd == fd,
        final(accept).addr_or_splice_off_in == addr,
        final(accept).off_or_addr2 == addr_len_at,
        final(accept).op_flags == flags,
        *old(accept) == (Sqe {
            opcode: old(accept).opcode,
            user_data: old(accept).user_data,
            fd: old(accept).fd,
            addr_or_splice_off_in: old(accept).addr_or_splice_off_in,
            off_or_addr2: old(accept).off_or_addr2,
            op_flags: old(accept).op_flags,
            ..*final(accept)
        }),
        final(connect).opcode == IoringOp::Connect,
        final(connect).user_data == user_data,
        final(connect).fd == fd,
        final(connect).addr_or_splice_off_in == addr,
        final(connect).off_or_addr2 as int == addr_len as int,
        *old(connect) == (Sqe {
            opcode: old(connect).opcode,
            user_data: old(connect).user_data,
            fd: old(connect).fd,
            addr_or_splice_off_in: old(connect).addr_or_splice_off_in,
            off_or_addr2: old(connect).off_or_addr2,
            ..*final(connect)
        }),
        final(again).opcode == IoringOp::Accept,
        final(again).user_data == user_data,
        final(again).fd == fd,
        final(again).ioprio == IORING_ACCEPT_MULTISHOT,
        final(again).addr_or_splice_off_in == 0,
        final(again).off_or_addr2 == 0,
        final(again).len == 0,
        *old(again) == (Sqe {
            opcode: old(again).opcode,
            user_data: old(again).user_data,
            fd: old(again).fd,
            ioprio: old(again).ioprio,
            addr_or_splice_off_in: old(again).addr_or_splice_off_in,
            off_or_addr2: old(again).off_or_addr2,
            len: old(again).len,
            ..*final(again)
        }),
{
}

/// Receiving again and again names the group from which the kernel picks a buffer
/// each time, and no memory of its own.
pub proof fn law_receiving_again_names_the_group(
    sqe: &mut Sqe,
    user_data: u64,
    fd: i32,
    bgid: u16,
)
    requires
        call_ensures(Sqe::prep_multishot_recv, (sqe, user_data, fd, bgid), ()),
    ensures
        final(sqe).opcode == IoringOp::Recv,
        final(sqe).user_data == user_data,
        final(sqe).fd == fd,
        final(sqe).flags & IOSQE_BUFFER_SELECT != 0,
        final(sqe).flags & !IOSQE_BUFFER_SELECT == old(sqe).flags & !IOSQE_BUFFER_SELECT,
        final(sqe).ioprio == IORING_RECV_MULTISHOT,
        final(sqe).buf == bgid,
        final(sqe).addr_or_splice_off_in == 0,
        final(sqe).len == 0,
        final(sqe).off_or_addr2 == 0,
        *old(sqe) == (Sqe {
            opcode: old(sqe).opcode,
            user_data: old(sqe).user_data,
            fd: old(sqe).fd,
            flags: old(sqe).flags,
            ioprio: old(sqe).ioprio,
            buf: old(sqe).buf,
            addr_or_splice_off_in: old(sqe).addr_or_splice_off_in,
            len: old(sqe).len,
            off_or_addr2: old(sqe).off_or_addr2,
            ..*final(sqe)
        }),
{
    let held = old(sqe).flags;
    assert((held | 32) & 32 != 0 && (held | 32) & !32u8 == held & !32u8) by (bit_vector);
}

/// Splicing keeps the two ends apart: where the bytes come from and where they go
/// each have a descriptor and an offset of their own.
pub proof fn law_splice_keeps_its_ends_apart(
    sqe: &mut Sqe,
    user_data: u64,
    fd_in: i32,
    off_in: u64,
    fd_out: i32,
    off_out: u64,
    len: usize,
)
    requires
        len <= u32::MAX,
        call_ensures(Sqe::prep_splice, (sqe, user_data, fd_in, off_in, fd_out, off_out, len), ()),
    ensures
        call_requires(Sqe::prep_splice, (sqe, user_data, fd_in, off_in, fd_out, off_out, len)),
        final(sqe).opcode == IoringOp::Splice,
        final(sqe).user_data == user_data,
        final(sqe).splice_fd_in_or_file_index_or_addr_len == fd_in,
        final(sqe).addr_or_splice_off_in == off_in,
        final(sqe).fd == fd_out,
        final(sqe).off_or_addr2 == off_out,
        final(sqe).len as int == len as int,
        *old(sqe) == (Sqe {
            opcode: old(sqe).opcode,
            user_data: old(sqe).user_data,
            splice_fd_in_or_file_index_or_addr_len: old(
                sqe,
            ).splice_fd_in_or_file_index_or_addr_len,
            addr_or_splice_off_in: old(sqe).addr_or_splice_off_in,
            fd: old(sqe).fd,
            off_or_addr2: old(sqe).off_or_addr2,
            len: old(sqe).len,
            ..*final(sqe)
        }),
{
}

/// Opening a file names the directory, the whole address of the path, the flags
/// and the mode; flushing one names its descriptor and the flags; closing one
/// names its descriptor; and an operation that does nothing names nothing but
/// itself.
pub proof fn law_file_operations_name_their_file(
    open: &mut Sqe,
    fsync: &mut Sqe,
    close: &mut Sqe,
    nop: &mut Sqe,
    user_data: u64,
    fd: i32,
    path: u64,
    flags: u32,
    mode: u32,
)
    requires
        call_ensures(Sqe::prep_openat, (open, user_data, fd, path, flags, mode), ()),
        call_ensures(Sqe::prep_fsync, (fsync, user_data, fd, flags), ()),
        call_ensures(Sqe::prep_close, (close, user_data, fd), ()),
        call_ensures(Sqe::prep_nop, (nop, user_data), ()),
    ensures
        final(open).opcode == IoringOp::Openat,
        final(open).user_data == user_data,
        final(open).fd == fd,
        final(open).addr_or_splice_off_in == path,
        final(open).op_flags == flags,
        final(open).len == mode,
        final(open).off_or_addr2 == 0,
        *old(open) == (Sqe {
            opcode: old(open).opcode,
            user_data: old(open).user_data,
            fd: old(open).fd,
            addr_or_splice_off_in: old(open).addr_or_splice_off_in,
            op_flags: old(open).op_flags,
            len: old(open).len,
            off_or_addr2: old(open).off_or_addr2,
            ..*final(open)
        }),
        final(fsync).opcode == IoringOp::Fsync,
        final(fsync).user_data == user_data,
        final(fsync).fd == fd,
        final(fsync).op_flags == flags,
        *old(fsync) == (Sqe {
            opcode: old(fsync).opcode,
            user_data: old(fsync).user_data,
            fd: old(fsync).fd,
            op_flags: old(fsync).op_flags,
            ..*final(fsync)
        }),
        final(close).opcode == IoringOp::Close,
        final(close).user_data == user_data,
        final(close).fd == fd,
        *old(close) == (Sqe {
            opcode: old(close).opcode,
            user_data: old(close).user_data,
            fd: old(close).fd,
            ..*final(close)
        }),
        final(nop).opcode == IoringOp::Nop,
        final(nop).user_data == user_data,
        *old(nop) == (Sqe {
            opcode: old(nop).opcode,
            user_data: old(nop).user_data,
            ..*final(nop)
        }),
{
}

} // verus!
