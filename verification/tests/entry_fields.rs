//! Which fields each operation sets, and that it leaves the others alone.
use hringas::entry::{addr3_struct, iovec, IoringOp, Region, Sqe};
use hringas::flags::{
    IORING_ACCEPT_MULTISHOT, IORING_RECV_MULTISHOT, IOSQE_BUFFER_SELECT, IOSQE_FIXED_FILE,
    IOSQE_IO_DRAIN, IOSQE_IO_LINK,
};

/// An entry with something in every field.
fn used() -> Sqe {
    Sqe {
        opcode: IoringOp::Listen,
        flags: IOSQE_IO_LINK,
        ioprio: 1001,
        fd: 1002,
        off_or_addr2: 1003,
        addr_or_splice_off_in: 1004,
        len: 1005,
        op_flags: 1006,
        user_data: 1007,
        buf: 1008,
        personality: 1009,
        splice_fd_in_or_file_index_or_addr_len: 1010,
        addr3_or_cmd: addr3_struct { addr3: 1011, pad2: 1012 },
    }
}

#[test]
fn default_entry_is_zeroed() {
    let sqe = Sqe::default();
    assert_eq!(sqe.opcode, IoringOp::Nop);
    assert_eq!(sqe.flags, 0);
    assert_eq!(sqe.addr3_or_cmd, addr3_struct { addr3: 0, pad2: 0 });
}

#[test]
fn nop_and_fsync() {
    let mut sqe = used();
    sqe.prep_nop(1);
    assert_eq!(sqe, Sqe { opcode: IoringOp::Nop, user_data: 1, ..used() });
    let mut sqe = used();
    sqe.prep_fsync(1, 2, 3);
    assert_eq!(sqe, Sqe { opcode: IoringOp::Fsync, fd: 2, op_flags: 3, user_data: 1, ..used() });
}

#[test]
fn reads_and_writes() {
    let region = Region { addr: 3, len: 4 };
    let expected = |opcode| Sqe {
        opcode,
        fd: 2,
        addr_or_splice_off_in: 3,
        len: 4,
        off_or_addr2: 5,
        user_data: 1,
        ..used()
    };
    let mut sqe = used();
    sqe.prep_read(1, 2, region, 5);
    assert_eq!(sqe, expected(IoringOp::Read));
    let mut sqe = used();
    sqe.prep_readv(1, 2, region, 5);
    assert_eq!(sqe, expected(IoringOp::Readv));
    let mut sqe = used();
    sqe.prep_write(1, 2, region, 5);
    assert_eq!(sqe, expected(IoringOp::Write));
    let mut sqe = used();
    sqe.prep_writev(1, 2, region, 5);
    assert_eq!(sqe, expected(IoringOp::Writev));
    let mut sqe = used();
    sqe.prep_readv_fixed(1, 2, region, 5);
    let flags = IOSQE_IO_LINK | IOSQE_FIXED_FILE;
    assert_eq!(sqe, Sqe { flags, ..expected(IoringOp::Readv) });
}

#[test]
fn registered_buffers() {
    let mut buffer = iovec { iov_base: 3, iov_len: 4 };
    let expected = |opcode| Sqe {
        opcode,
        fd: 2,
        addr_or_splice_off_in: 3,
        len: 4,
        off_or_addr2: 5,
        buf: 6,
        user_data: 1,
        ..used()
    };
    let mut sqe = used();
    sqe.prep_write_fixed(1, 2, &buffer, 5, 6);
    assert_eq!(sqe, expected(IoringOp::WriteFixed));
    let mut sqe = used();
    sqe.prep_read_fixed(1, 2, &mut buffer, 5, 6);
    assert_eq!(sqe, expected(IoringOp::ReadFixed));
    assert_eq!(buffer, iovec { iov_base: 3, iov_len: 4 });
}

#[test]
fn splice_sets_both_ends() {
    let mut sqe = used();
    sqe.prep_splice(1, 2, 3, 4, 5, 6);
    assert_eq!(
        sqe,
        Sqe {
            opcode: IoringOp::Splice,
            fd: 4,
            len: 6,
            off_or_addr2: 5,
            addr_or_splice_off_in: 3,
            splice_fd_in_or_file_index_or_addr_len: 2,
            user_data: 1,
            ..used()
        }
    );
}

#[test]
fn sockets() {
    let mut sqe = used();
    sqe.prep_accept(1, 2, 3, 4, 5);
    assert_eq!(
        sqe,
        Sqe {
            opcode: IoringOp::Accept,
            fd: 2,
            addr_or_splice_off_in: 3,
            off_or_addr2: 4,
            op_flags: 5,
            user_data: 1,
            ..used()
        }
    );
    let mut sqe = used();
    sqe.prep_connect(1, 2, 3, u32::MAX);
    assert_eq!(
        sqe,
        Sqe {
            opcode: IoringOp::Connect,
            fd: 2,
            addr_or_splice_off_in: 3,
            off_or_addr2: 0xffff_ffff,
            user_data: 1,
            ..used()
        }
    );
    let expected = |opcode| Sqe {
        opcode,
        fd: 2,
        addr_or_splice_off_in: 3,
        len: 4,
        op_flags: 5,
        user_data: 1,
        ..used()
    };
    let mut sqe = used();
    sqe.prep_send(1, 2, Region { addr: 3, len: 4 }, 5);
    assert_eq!(sqe, expected(IoringOp::Send));
    let mut sqe = used();
    sqe.prep_recv(1, 2, Region { addr: 3, len: 4 }, 5);
    assert_eq!(sqe, expected(IoringOp::Recv));
}

#[test]
fn open_and_close() {
    let mut sqe = used();
    sqe.prep_openat(1, 2, 3, 4, 0o644);
    assert_eq!(
        sqe,
        Sqe {
            opcode: IoringOp::Openat,
            fd: 2,
            addr_or_splice_off_in: 3,
            len: 0o644,
            off_or_addr2: 0,
            op_flags: 4,
            user_data: 1,
            ..used()
        }
    );
    let mut sqe = used();
    sqe.prep_close(1, 2);
    assert_eq!(sqe, Sqe { opcode: IoringOp::Close, fd: 2, user_data: 1, ..used() });
}

#[test]
fn multishot_operations() {
    let mut sqe = used();
    sqe.flags = IOSQE_IO_DRAIN;
    sqe.prep_multishot_recv(1, 2, 3);
    assert_eq!(
        sqe,
        Sqe {
            opcode: IoringOp::Recv,
            flags: IOSQE_IO_DRAIN | IOSQE_BUFFER_SELECT,
            ioprio: IORING_RECV_MULTISHOT,
            fd: 2,
            addr_or_splice_off_in: 0,
            len: 0,
            off_or_addr2: 0,
            buf: 3,
            user_data: 1,
            ..used()
        }
    );
    let mut sqe = used();
    sqe.prep_multishot_accept(1, 2);
    assert_eq!(
        sqe,
        Sqe {
            opcode: IoringOp::Accept,
            ioprio: IORING_ACCEPT_MULTISHOT,
            fd: 2,
            addr_or_splice_off_in: 0,
            len: 0,
            off_or_addr2: 0,
            user_data: 1,
            ..used()
        }
    );
}

#[test]
fn provided_buffer_receive() {
    let mut sqe = used();
    sqe.prep_recv_provided(1, 2, 3, 4, 5);
    assert_eq!(
        sqe,
        Sqe {
            opcode: IoringOp::Recv,
            flags: IOSQE_IO_LINK | IOSQE_BUFFER_SELECT,
            fd: 2,
            addr_or_splice_off_in: 0,
            len: 4,
            op_flags: 5,
            buf: 3,
            user_data: 1,
            ..used()
        }
    );
}

#[test]
fn lengths_and_buffers() {
    let mut sqe = used();
    sqe.set_len(0xffff_ffff);
    assert_eq!(sqe, Sqe { len: u32::MAX, ..used() });
    sqe.set_buf(7, 8, 9);
    assert_eq!(sqe.addr(), 7);
    assert_eq!(sqe.len, 8);
    assert_eq!(sqe.off(), 9);
}
