//! The ring against a kernel that is played by the test: it reads the entries
//! that the ring announces, performs them on files and memory of its own, and
//! posts the completions.
use hringas::entry::{iovec, Cqe, IoringOp, Region, Sqe};
use hringas::err::{GetSqe, Init};
use hringas::flags::{
    IORING_FEAT_SINGLE_MMAP, IORING_SETUP_CQE32, IOSQE_FIXED_FILE, IOSQE_IO_DRAIN, IOSQE_IO_LINK,
};
use hringas::request::{CopyCqe, Enter, IoringRegisterOp, Register, RegisterArg, Submit};
use hringas::setup::{io_uring_params, RingMasks, SetupReply, SetupRequest};
use hringas::IoUring;
use rustix::io::Errno;
use std::collections::HashMap;

const RING_FD: i32 = 3;

enum File {
    Zero,
    Data(Vec<u8>),
    Pipe(i32),
    Socket(Option<i32>),
    Directory,
}

struct Kernel {
    files: HashMap<i32, File>,
    /// What arrived at a descriptor and was not read yet.
    arrived: HashMap<i32, Vec<u8>>,
    memory: HashMap<u64, Vec<u8>>,
    vectors: HashMap<u64, Vec<iovec>>,
    fd_arrays: HashMap<u64, Vec<i32>>,
    fixed_files: Vec<i32>,
    fixed_buffers: Vec<iovec>,
    /// Entries that wait for something to arrive.
    waiting: Vec<Sqe>,
}

impl Kernel {
    fn new() -> Self {
        Kernel {
            files: HashMap::new(),
            arrived: HashMap::new(),
            memory: HashMap::new(),
            vectors: HashMap::new(),
            fd_arrays: HashMap::new(),
            fixed_files: Vec::new(),
            fixed_buffers: Vec::new(),
            waiting: Vec::new(),
        }
    }

    fn file(&mut self, fd: i32, file: File) -> i32 {
        self.files.insert(fd, file);
        fd
    }

    fn buffer(&mut self, addr: u64, bytes: Vec<u8>) -> Region {
        let len = bytes.len();
        self.memory.insert(addr, bytes);
        Region { addr, len }
    }

    fn vector(&mut self, addr: u64, iovecs: Vec<iovec>) -> Region {
        let len = iovecs.len();
        self.vectors.insert(addr, iovecs);
        Region { addr, len }
    }

    fn setup(&self, request: SetupRequest) -> SetupReply {
        let mut params = request.params;
        params.sq_entries = request.entries;
        params.cq_entries = 2 * request.entries;
        params.features = IORING_FEAT_SINGLE_MMAP;
        SetupReply { fd: RING_FD, params }
    }

    fn register(&mut self, register: Register) -> Result<u32, Errno> {
        assert_eq!(register.fd, RING_FD);
        match (register.opcode, register.arg) {
            (IoringRegisterOp::RegisterFiles, RegisterArg::Address(addr)) => {
                self.fixed_files = self.fd_arrays[&addr].clone();
                assert_eq!(self.fixed_files.len(), register.nr_args as usize);
                Ok(0)
            }
            (IoringRegisterOp::UnregisterFiles, RegisterArg::Null) => {
                assert_eq!(register.nr_args, 0);
                self.fixed_files.clear();
                Ok(0)
            }
            (IoringRegisterOp::RegisterBuffers, RegisterArg::Address(addr)) => {
                self.fixed_buffers = self.vectors[&addr].clone();
                assert_eq!(self.fixed_buffers.len(), register.nr_args as usize);
                Ok(0)
            }
            _ => Err(Errno::INVAL),
        }
    }

    fn read_file(&mut self, fd: i32, addr: u64, len: usize, off: u64) -> i32 {
        let target = self.memory.get_mut(&addr).unwrap();
        match self.files.get(&fd) {
            Some(File::Zero) => {
                target[..len].fill(0);
                len as i32
            }
            Some(File::Data(bytes)) => {
                let start = (off as usize).min(bytes.len());
                let n = len.min(bytes.len() - start);
                target[..n].copy_from_slice(&bytes[start..start + n]);
                n as i32
            }
            _ => -Errno::BADF.raw_os_error(),
        }
    }

    fn write_file(&mut self, fd: i32, bytes: &[u8], off: u64) -> i32 {
        match self.files.get_mut(&fd) {
            Some(File::Data(file)) => {
                let end = off as usize + bytes.len();
                if file.len() < end {
                    file.resize(end, 0);
                }
                file[off as usize..end].copy_from_slice(bytes);
                bytes.len() as i32
            }
            _ => -Errno::BADF.raw_os_error(),
        }
    }

    /// The result of an entry, or nothing if it has to wait.
    fn perform(&mut self, sqe: &Sqe) -> Option<i32> {
        let fd = if sqe.flags & IOSQE_FIXED_FILE != 0 {
            self.fixed_files[sqe.fd as usize]
        } else {
            sqe.fd
        };
        let len = sqe.len as usize;
        Some(match sqe.opcode {
            IoringOp::Nop => 0,
            IoringOp::Fsync => 0,
            IoringOp::Read => self.read_file(fd, sqe.addr(), len, sqe.off()),
            IoringOp::ReadFixed => {
                let buffer = self.fixed_buffers[sqe.buf as usize];
                assert_eq!(buffer.iov_base, sqe.addr());
                assert_eq!(buffer.iov_len, len);
                self.read_file(fd, sqe.addr(), len, sqe.off())
            }
            IoringOp::Write => {
                let bytes = self.memory[&sqe.addr()][..len].to_vec();
                self.write_file(fd, &bytes, sqe.off())
            }
            IoringOp::WriteFixed => {
                let buffer = self.fixed_buffers[sqe.buf as usize];
                assert_eq!(buffer.iov_base, sqe.addr());
                let bytes = self.memory[&sqe.addr()][..len].to_vec();
                self.write_file(fd, &bytes, sqe.off())
            }
            IoringOp::Readv => {
                let mut total = 0;
                for v in self.vectors[&sqe.addr()][..len].to_vec() {
                    let off = sqe.off() + total as u64;
                    total += self.read_file(fd, v.iov_base, v.iov_len, off);
                }
                total
            }
            IoringOp::Writev => {
                let mut total = 0;
                for v in self.vectors[&sqe.addr()][..len].to_vec() {
                    let off = sqe.off() + total as u64;
                    let bytes = self.memory[&v.iov_base][..v.iov_len].to_vec();
                    total += self.write_file(fd, &bytes, off);
                }
                total
            }
            IoringOp::Splice => {
                let from = sqe.splice_fd_in_or_file_index_or_addr_len;
                let off_in = sqe.addr_or_splice_off_in;
                let bytes = match &self.files[&from] {
                    File::Data(bytes) => {
                        bytes[off_in as usize..off_in as usize + len].to_vec()
                    }
                    File::Pipe(_) => {
                        assert_eq!(off_in, u64::MAX);
                        self.arrived.remove(&from).unwrap()
                    }
                    _ => panic!("not a file or a pipe"),
                };
                match self.files[&fd] {
                    File::Pipe(other) => {
                        assert_eq!(sqe.off(), u64::MAX);
                        let n = bytes.len() as i32;
                        self.arrived.insert(other, bytes);
                        n
                    }
                    _ => self.write_file(fd, &bytes, sqe.off()),
                }
            }
            IoringOp::Openat => {
                assert!(matches!(self.files[&fd], File::Directory));
                assert!(self.memory.contains_key(&sqe.addr()));
                let new = *self.files.keys().max().unwrap() + 1;
                self.file(new, File::Data(Vec::new()))
            }
            IoringOp::Close => match self.files.remove(&fd) {
                Some(_) => 0,
                None => -Errno::BADF.raw_os_error(),
            },
            // No socket listens, and no socket exists to connect to.
            IoringOp::Accept => -Errno::INVAL.raw_os_error(),
            IoringOp::Connect => {
                assert!(self.memory.contains_key(&sqe.addr()));
                -Errno::NOENT.raw_os_error()
            }
            IoringOp::Send => match self.files[&fd] {
                File::Socket(Some(peer)) => {
                    let bytes = self.memory[&sqe.addr()][..len].to_vec();
                    self.arrived.insert(peer, bytes);
                    len as i32
                }
                _ => -Errno::NOTCONN.raw_os_error(),
            },
            IoringOp::Recv => match self.arrived.remove(&fd) {
                Some(bytes) => {
                    let target = self.memory.get_mut(&sqe.addr()).unwrap();
                    let n = len.min(bytes.len());
                    target[..n].copy_from_slice(&bytes[..n]);
                    n as i32
                }
                None => return None,
            },
            _ => -Errno::INVAL.raw_os_error(),
        })
    }

    fn complete(&mut self, ring: &mut IoUring, sqe: &Sqe) -> bool {
        match self.perform(sqe) {
            Some(res) => {
                ring.kernel_posted(Cqe { user_data: sqe.user_data, res, flags: 0 });
                true
            }
            None => false,
        }
    }

    fn enter(&mut self, ring: &mut IoUring, enter: Enter) -> Result<u32, Errno> {
        assert_eq!(enter.fd, RING_FD);
        for i in 0..enter.to_submit {
            let position = ring.shared.sq_head().wrapping_add(i);
            let slot = (position & ring.sq.mask) as usize;
            let sqe = ring.sq.sqes[ring.shared.sq_array[slot] as usize];
            if !self.complete(ring, &sqe) {
                self.waiting.push(sqe);
            }
            let waiting: Vec<Sqe> = self.waiting.drain(..).collect();
            for sqe in waiting {
                if !self.complete(ring, &sqe) {
                    self.waiting.push(sqe);
                }
            }
        }
        let head = ring.shared.sq_head().wrapping_add(enter.to_submit);
        ring.kernel_consumed(head);
        assert!(ring.cq_ready() >= enter.min_complete);
        Ok(enter.to_submit)
    }

    fn submit_and_wait(&mut self, ring: &mut IoUring, wait_nr: u32) -> Result<u32, Errno> {
        let submit = ring.submit_and_wait(wait_nr);
        let entered = match submit {
            Submit::Enter(enter) => self.enter(ring, enter),
            Submit::Submitted(_) => Err(Errno::NOSYS),
        };
        submit.finish(entered)
    }

    fn submit(&mut self, ring: &mut IoUring) -> Result<u32, Errno> {
        let submit = ring.submit();
        let entered = match submit {
            Submit::Enter(enter) => self.enter(ring, enter),
            Submit::Submitted(_) => Err(Errno::NOSYS),
        };
        submit.finish(entered)
    }

    fn copy_cqe(&mut self, ring: &mut IoUring) -> Result<Cqe, Errno> {
        loop {
            match ring.copy_cqe() {
                CopyCqe::Ready(cqe) => return Ok(cqe),
                CopyCqe::Enter(enter) => {
                    let entered = self.enter(ring, enter);
                    if let Some(cqe) = ring.copy_cqe_entered(entered)? {
                        return Ok(cqe);
                    }
                }
            }
        }
    }
}

fn new_ring(kernel: &Kernel, entries: u32) -> IoUring {
    let request = IoUring::new(entries).unwrap();
    let setup = request.replied(Ok(kernel.setup(request))).unwrap();
    let masks = RingMasks { sq: setup.params.sq_entries - 1, cq: setup.params.cq_entries - 1 };
    setup.mapped(Ok(masks)).unwrap()
}

fn assert_ring_clean(ring: &mut IoUring) {
    assert_eq!(ring.sq_ready(), 0, "Submission queue has pending SQEs");
    assert_eq!(ring.cq_ready(), 0, "Completion queue has pending CQEs");
    assert_eq!(ring.sq.sqe_head, ring.sq.sqe_tail, "SQE head/tail mismatch");
}

#[test]
fn panics_on_cqe_c32_setup_flag() {
    let kernel = Kernel::new();
    let mut params = io_uring_params::default();
    params.flags |= IORING_SETUP_CQE32;

    let request = IoUring::new_with_params(2, &mut params).unwrap();
    let ring = request.replied(Ok(kernel.setup(request)));

    assert!(
        matches!(ring, Err(Init::CQE32Unsupported)),
        "attempt to construct ring with CQE32 flag not caught"
    );
}

#[test]
fn entries() {
    assert_eq!(Init::EntriesZero, IoUring::new(0).unwrap_err());
    assert_eq!(Init::EntriesNotPowerOfTwo, IoUring::new(3).unwrap_err());
}

#[test]
fn nop() {
    let mut kernel = Kernel::new();
    let mut ring = new_ring(&kernel, 1);
    let sqe = ring.get_sqe().unwrap();
    sqe.prep_nop(0xaaaaaaaa);

    assert_eq!(sqe.opcode, IoringOp::Nop);
    assert_eq!(sqe.flags, 0);
    assert_eq!(sqe.ioprio, 0);
    assert_eq!(sqe.fd, 0);
    assert_eq!(sqe.off(), 0);
    assert_eq!(sqe.addr(), 0);
    assert_eq!(sqe.len, 0);
    assert_eq!(sqe.op_flags, 0);
    assert_eq!(sqe.user_data, 0xaaaaaaaa);
    assert_eq!(sqe.buf, 0);
    assert_eq!(sqe.personality, 0);
    assert_eq!(sqe.splice_fd_in_or_file_index_or_addr_len, 0);
    assert_eq!(sqe.addr3_or_cmd.addr3, 0);

    assert_eq!(ring.sq.sqe_head, 0);
    assert_eq!(ring.sq.sqe_tail, 1);
    assert_eq!(ring.shared.sq_tail(), 0);
    assert_eq!(ring.shared.cq_head() & ring.cq.mask, 0);
    assert_eq!(ring.sq_ready(), 1);
    assert_eq!(ring.cq_ready(), 0);

    assert_eq!(kernel.submit(&mut ring), Ok(1));
    assert_eq!(ring.sq.sqe_head, 1);
    assert_eq!(ring.sq.sqe_tail, 1);
    assert_eq!(ring.shared.sq_tail(), 1);
    assert_eq!(ring.shared.cq_head(), 0);
    assert_eq!(ring.sq_ready(), 0);

    let cqe = kernel.copy_cqe(&mut ring).unwrap();
    assert_eq!(cqe.user_data, 0xaaaaaaaa);
    assert_eq!(cqe.res, 0);
    assert_eq!(cqe.flags, 0);
    assert_eq!(ring.shared.cq_head(), 1);
    assert_eq!(ring.cq_ready(), 0);

    let sqe_barrier = ring.get_sqe().unwrap();
    sqe_barrier.prep_nop(0xbbbbbbbb);
    sqe_barrier.flags |= IOSQE_IO_DRAIN;
    assert_eq!(kernel.submit(&mut ring), Ok(1));
    let cqe = kernel.copy_cqe(&mut ring).unwrap();
    assert_eq!(cqe.user_data, 0xbbbbbbbb);
    assert_eq!(cqe.res, 0);
    assert_eq!(cqe.flags, 0);
    assert_eq!(ring.sq.sqe_head, 2);
    assert_eq!(ring.sq.sqe_tail, 2);
    assert_eq!(ring.shared.sq_tail(), 2);
    assert_eq!(ring.shared.cq_head(), 2);

    assert_ring_clean(&mut ring);
}

#[test]
fn readv() {
    let mut kernel = Kernel::new();
    let mut ring = new_ring(&kernel, 1);
    let fd = kernel.file(5, File::Zero);

    kernel.fd_arrays.insert(0x500, vec![fd]);
    let fd_index = 0;
    let registered = kernel.register(ring.register_files(Region { addr: 0x500, len: 1 })).unwrap();

    let buffer = kernel.buffer(0x1000, vec![42u8; 128]);
    let iovecs = kernel.vector(0x600, vec![iovec { iov_base: buffer.addr, iov_len: buffer.len }]);
    let sqe = ring.get_sqe().unwrap();
    sqe.prep_readv_fixed(0xcccccccc, fd_index, iovecs, 0);
    assert_eq!(sqe.opcode, IoringOp::Readv);
    assert!(sqe.flags & IOSQE_FIXED_FILE == IOSQE_FIXED_FILE);

    assert!(
        matches!(ring.get_sqe(), Err(GetSqe::SubmissionQueueFull)),
        "expected submission queue to be full"
    );
    assert_eq!(kernel.submit(&mut ring), Ok(1));
    let cqe = kernel.copy_cqe(&mut ring).unwrap();
    assert_eq!(cqe.user_data, 0xcccccccc);
    assert_eq!(cqe.res, 128);
    assert_eq!(cqe.flags, 0);
    assert!(kernel.memory[&buffer.addr].iter().all(|&n| n == 0));

    let unregistered = kernel.register(ring.unregister_files()).unwrap();
    assert_eq!(registered, unregistered);
    assert_ring_clean(&mut ring);
}

#[test]
fn writev_fsync_readv() {
    let mut kernel = Kernel::new();
    let mut ring = new_ring(&kernel, 4);

    let fd = kernel.file(5, File::Data(Vec::new()));

    let write = kernel.buffer(0x1000, vec![42u8; 128]);
    let iovecs_write =
        kernel.vector(0x600, vec![iovec { iov_base: write.addr, iov_len: write.len }]);

    let read = kernel.buffer(0x2000, vec![0u8; 128]);
    let iovecs_read = kernel.vector(0x700, vec![iovec { iov_base: read.addr, iov_len: read.len }]);

    {
        let sqe = ring.get_sqe().unwrap();
        sqe.prep_writev(0xdddddddd, fd, iovecs_write, 17);
        assert_eq!(sqe.opcode, IoringOp::Writev);
        assert_eq!(sqe.off(), 17);
        sqe.flags |= IOSQE_IO_LINK;
    }
    {
        let sqe = ring.get_sqe().unwrap();
        sqe.prep_fsync(0xeeeeeeee, fd, 0);
        assert_eq!(sqe.opcode, IoringOp::Fsync);
        assert_eq!(sqe.fd, fd);
        sqe.flags |= IOSQE_IO_LINK;
    }
    {
        let sqe = ring.get_sqe().unwrap();
        sqe.prep_readv(0xffffffff, fd, iovecs_read, 17);
        assert_eq!(sqe.opcode, IoringOp::Readv);
        assert_eq!(sqe.off(), 17);
    }

    assert_eq!(ring.sq_ready(), 3);
    assert_eq!(kernel.submit_and_wait(&mut ring, 3), Ok(3));
    assert_eq!(ring.sq_ready(), 0);
    assert_eq!(ring.cq_ready(), 3);

    let cqe = kernel.copy_cqe(&mut ring).unwrap();
    assert_eq!(cqe.user_data, 0xdddddddd);
    assert_eq!(cqe.res, 128);
    assert_eq!(cqe.flags, 0);
    assert_eq!(ring.cq_ready(), 2);

    let cqe = kernel.copy_cqe(&mut ring).unwrap();
    assert_eq!(cqe.user_data, 0xeeeeeeee);
    assert_eq!(cqe.res, 0);
    assert_eq!(cqe.flags, 0);
    assert_eq!(ring.cq_ready(), 1);

    let cqe = kernel.copy_cqe(&mut ring).unwrap();
    assert_eq!(cqe.user_data, 0xffffffff);
    assert_eq!(cqe.res, 128);
    assert_eq!(cqe.flags, 0);
    assert_eq!(ring.cq_ready(), 0);

    assert_eq!(kernel.memory[&write.addr], kernel.memory[&read.addr]);
    assert_ring_clean(&mut ring);
}

#[test]
fn write_read() {
    let mut kernel = Kernel::new();
    let mut ring = new_ring(&kernel, 2);
    let fd = kernel.file(5, File::Data(Vec::new()));

    let buffer_write = kernel.buffer(0x1000, vec![97u8; 20]);
    let buffer_read = kernel.buffer(0x2000, vec![98u8; 20]);

    let sqe_write = ring.get_sqe().unwrap();
    sqe_write.prep_write(0x11111111, fd, buffer_write, 10);
    assert_eq!(sqe_write.opcode, IoringOp::Write);
    assert_eq!(sqe_write.off(), 10);
    sqe_write.flags |= IOSQE_IO_LINK;

    let sqe_read = ring.get_sqe().unwrap();
    sqe_read.prep_read(0x22222222, fd, buffer_read, 10);
    assert_eq!(sqe_read.opcode, IoringOp::Read);
    assert_eq!(sqe_read.off(), 10);

    assert_eq!(kernel.submit(&mut ring), Ok(2));

    let cqe_write = kernel.copy_cqe(&mut ring).unwrap();
    let cqe_read = kernel.copy_cqe(&mut ring).unwrap();

    assert_eq!(cqe_write.user_data, 0x11111111);
    assert_eq!(cqe_write.res, 20);
    assert_eq!(cqe_write.flags, 0);

    assert_eq!(cqe_read.user_data, 0x22222222);
    assert_eq!(cqe_read.res, 20);
    assert_eq!(cqe_read.flags, 0);

    assert_eq!(kernel.memory[&buffer_write.addr], kernel.memory[&buffer_read.addr]);
    assert_ring_clean(&mut ring);
}

#[test]
fn splice_read() {
    let mut kernel = Kernel::new();
    let mut ring = new_ring(&kernel, 4);

    let fd_src = kernel.file(5, File::Data(vec![97u8; 20]));
    let fd_dst = kernel.file(6, File::Data(Vec::new()));

    let buffer_write = vec![97u8; 20];
    let buffer_read = kernel.buffer(0x2000, vec![98u8; 20]);

    let reading_fd_pipe = kernel.file(7, File::Pipe(8));
    let writing_fd_pipe = kernel.file(8, File::Pipe(7));
    let pipe_offset = u64::MAX;

    {
        let sqe = ring.get_sqe().unwrap();
        sqe.prep_splice(0x11111111, fd_src, 0, writing_fd_pipe, pipe_offset, buffer_write.len());
        assert_eq!(sqe.opcode, IoringOp::Splice);
        assert_eq!(sqe.addr(), 0);
        assert_eq!(sqe.off(), pipe_offset);
        sqe.flags |= IOSQE_IO_LINK;
    }
    {
        let sqe = ring.get_sqe().unwrap();
        sqe.prep_splice(0x22222222, reading_fd_pipe, pipe_offset, fd_dst, 10, buffer_write.len());
        assert_eq!(sqe.opcode, IoringOp::Splice);
        assert_eq!(sqe.addr_or_splice_off_in, pipe_offset);
        assert_eq!(sqe.off(), 10);
        sqe.flags |= IOSQE_IO_LINK;
    }
    {
        let sqe = ring.get_sqe().unwrap();
        sqe.prep_read(0x33333333, fd_dst, buffer_read, 10);
        assert_eq!(sqe.opcode, IoringOp::Read);
        assert_eq!(sqe.off(), 10);
    }

    assert_eq!(kernel.submit(&mut ring), Ok(3));

    let cqe_splice_to_pipe = kernel.copy_cqe(&mut ring).unwrap();
    let cqe_splice_from_pipe = kernel.copy_cqe(&mut ring).unwrap();
    let cqe_read = kernel.copy_cqe(&mut ring).unwrap();

    assert_eq!(cqe_splice_to_pipe.user_data, 0x11111111);
    assert_eq!(cqe_splice_to_pipe.res, buffer_write.len() as i32);
    assert_eq!(cqe_splice_to_pipe.flags, 0);

    assert_eq!(cqe_splice_from_pipe.user_data, 0x22222222);
    assert_eq!(cqe_splice_from_pipe.res, buffer_write.len() as i32);
    assert_eq!(cqe_splice_from_pipe.flags, 0);

    assert_eq!(cqe_read.user_data, 0x33333333);
    assert_eq!(cqe_read.res, 20);
    assert_eq!(cqe_read.flags, 0);

    assert_eq!(buffer_write, kernel.memory[&buffer_read.addr]);
    assert_ring_clean(&mut ring);
}

#[test]
fn write_fixed_read_fixed() {
    let mut kernel = Kernel::new();
    let mut ring = new_ring(&kernel, 2);

    let fd = kernel.file(5, File::Data(Vec::new()));

    // First buffer will be written to the file.
    let first = kernel.buffer(0x1000, b"foobarzzzzz".to_vec());
    let second = kernel.buffer(0x2000, vec![0u8; 11]);
    let mut buffers = [
        iovec { iov_base: first.addr, iov_len: first.len },
        iovec { iov_base: second.addr, iov_len: second.len },
    ];
    let array = kernel.vector(0x600, buffers.to_vec());

    kernel.register(ring.register_buffers(array)).unwrap();

    let sqe_write = ring.get_sqe().unwrap();
    sqe_write.prep_write_fixed(0x45454545, fd, &buffers[0], 3, 0);
    assert_eq!(sqe_write.opcode, IoringOp::WriteFixed);
    assert_eq!(sqe_write.off(), 3);
    sqe_write.flags |= IOSQE_IO_LINK;

    let sqe_read = ring.get_sqe().unwrap();
    sqe_read.prep_read_fixed(0x12121212, fd, &mut buffers[1], 0, 1);
    assert_eq!(sqe_read.opcode, IoringOp::ReadFixed);
    assert_eq!(sqe_read.off(), 0);

    assert_eq!(kernel.submit(&mut ring), Ok(2));

    let cqe_write = kernel.copy_cqe(&mut ring).unwrap();
    let cqe_read = kernel.copy_cqe(&mut ring).unwrap();

    assert_eq!(cqe_write.user_data, 0x45454545);
    assert_eq!(cqe_write.res, buffers[0].iov_len as i32);
    assert_eq!(cqe_write.flags, 0);

    assert_eq!(cqe_read.user_data, 0x12121212);
    assert_eq!(cqe_read.res, buffers[1].iov_len as i32);
    assert_eq!(cqe_read.flags, 0);

    let copy = &kernel.memory[&buffers[1].iov_base];

    assert_eq!(&copy[0..3], b"\x00\x00\x00");
    assert_eq!(&copy[3..9], b"foobar");
    assert_eq!(&copy[9..11], b"zz");

    assert_ring_clean(&mut ring);
}

#[test]
fn openat() {
    let mut kernel = Kernel::new();
    let mut ring = new_ring(&kernel, 1);
    let tmp = kernel.file(5, File::Directory);

    let path = kernel.buffer(0x1000, b"test_io_uring_openat\0".to_vec());

    let flags = (rustix::fs::OFlags::CLOEXEC
        | rustix::fs::OFlags::RDWR
        | rustix::fs::OFlags::CREATE)
        .bits();
    let mode = 0o666;

    let sqe = ring.get_sqe().unwrap();
    sqe.prep_openat(0x33333333, tmp, path.addr, flags, mode);
    assert_eq!(sqe.opcode, IoringOp::Openat);
    assert_eq!(sqe.flags, 0);
    assert_eq!(sqe.ioprio, 0);
    assert_eq!(sqe.fd, tmp);
    assert_eq!(sqe.off(), 0);
    assert_eq!(sqe.addr(), path.addr);
    assert_eq!(sqe.len, mode);
    assert_eq!(sqe.op_flags, flags);
    assert_eq!(sqe.user_data, 0x33333333);
    assert_eq!(sqe.buf, 0);
    assert_eq!(sqe.personality, 0);
    assert_eq!(sqe.splice_fd_in_or_file_index_or_addr_len, 0);
    assert_eq!(sqe.addr3_or_cmd.addr3, 0);

    assert_eq!(kernel.submit(&mut ring), Ok(1));

    let cqe = kernel.copy_cqe(&mut ring).unwrap();
    assert_eq!(cqe.user_data, 0x33333333);
    assert!(cqe.res > 0);
    assert_eq!(cqe.flags, 0);

    assert_ring_clean(&mut ring);
}

#[test]
fn close() {
    let mut kernel = Kernel::new();
    let mut ring = new_ring(&kernel, 1);

    let raw_fd = kernel.file(5, File::Data(Vec::new()));

    let sqe = ring.get_sqe().unwrap();
    sqe.prep_close(0x44444444, raw_fd);
    assert_eq!(sqe.opcode, IoringOp::Close);
    assert_eq!(sqe.fd, raw_fd);
    assert_eq!(kernel.submit(&mut ring), Ok(1));

    let cqe = kernel.copy_cqe(&mut ring).unwrap();
    assert_eq!(
        cqe.res,
        0,
        "Close failed: {:?}",
        cqe.res.checked_neg().map(Errno::from_raw_os_error)
    );
    assert_eq!(cqe.user_data, 0x44444444);
    assert!(cqe.flags == 0);
    assert!(!kernel.files.contains_key(&raw_fd));

    assert_ring_clean(&mut ring);
}

#[test]
fn accept_connect() {
    let mut kernel = Kernel::new();
    let mut ring = new_ring(&kernel, 2);

    let accept_sock = kernel.file(5, File::Socket(None));
    let connect_sock = kernel.file(6, File::Socket(None));
    let connect_addr = kernel.buffer(0x1000, b"hringas_accept_connect_no_such.sock".to_vec());
    let connect_len = connect_addr.len as u32;

    let peer_storage = 0x2000;
    let peer_len = 0x3000;
    let cloexec = rustix::net::SocketFlags::CLOEXEC.bits();

    {
        let sqe_accept = ring.get_sqe().unwrap();
        sqe_accept.prep_accept(0x11111111, accept_sock, peer_storage, peer_len, cloexec);

        assert_eq!(sqe_accept.opcode, IoringOp::Accept);
        assert_eq!(sqe_accept.flags, 0);
        assert_eq!(sqe_accept.fd, accept_sock);
        assert_eq!(sqe_accept.addr(), peer_storage);
        assert_eq!(sqe_accept.off_or_addr2, peer_len);
        assert_eq!(sqe_accept.op_flags, cloexec);
        assert_eq!(sqe_accept.user_data, 0x11111111);
    }

    {
        let sqe_connect = ring.get_sqe().unwrap();
        sqe_connect.prep_connect(0x22222222, connect_sock, connect_addr.addr, connect_len);

        assert_eq!(sqe_connect.opcode, IoringOp::Connect);
        assert_eq!(sqe_connect.flags, 0);
        assert_eq!(sqe_connect.fd, connect_sock);
        assert_eq!(sqe_connect.addr(), connect_addr.addr);
        assert_eq!(sqe_connect.off(), connect_len as u64);
        assert_eq!(sqe_connect.user_data, 0x22222222);
    }

    assert_eq!(kernel.submit(&mut ring), Ok(2));

    let cqe1 = kernel.copy_cqe(&mut ring).unwrap();
    let cqe2 = kernel.copy_cqe(&mut ring).unwrap();

    let (cqe_accept, cqe_connect) =
        if cqe1.user_data == 0x11111111 { (cqe1, cqe2) } else { (cqe2, cqe1) };

    assert_eq!(cqe_connect.user_data, 0x22222222);
    assert_eq!(
        cqe_connect.res.checked_neg().map(Errno::from_raw_os_error),
        Some(Errno::NOENT)
    );
    assert_eq!(cqe_connect.flags, 0);

    assert_eq!(cqe_accept.user_data, 0x11111111);
    assert_eq!(
        cqe_accept.res.checked_neg().map(Errno::from_raw_os_error),
        Some(Errno::INVAL)
    );
    assert_eq!(cqe_accept.flags, 0);

    assert_ring_clean(&mut ring);
}

#[test]
fn send_recv() {
    let mut kernel = Kernel::new();
    let mut ring = new_ring(&kernel, 2);

    let sock_a = kernel.file(5, File::Socket(Some(6)));
    let sock_b = kernel.file(6, File::Socket(Some(5)));

    let send_buf = kernel.buffer(0x1000, b"hello".to_vec());
    let recv_buf = kernel.buffer(0x2000, vec![0u8; 5]);

    let sqe_recv = ring.get_sqe().unwrap();
    sqe_recv.prep_recv(0x12121212, sock_a, recv_buf, 0);
    assert_eq!(sqe_recv.opcode, IoringOp::Recv);
    assert_eq!(sqe_recv.fd, sock_a);
    assert_eq!(sqe_recv.addr(), recv_buf.addr);
    assert_eq!(sqe_recv.len, recv_buf.len as u32);
    assert_eq!(sqe_recv.op_flags, 0);
    assert_eq!(sqe_recv.user_data, 0x12121212);

    let sqe_send = ring.get_sqe().unwrap();
    sqe_send.prep_send(0x34343434, sock_b, send_buf, 0);
    assert_eq!(sqe_send.opcode, IoringOp::Send);
    assert_eq!(sqe_send.fd, sock_b);
    assert_eq!(sqe_send.addr(), send_buf.addr);
    assert_eq!(sqe_send.len, send_buf.len as u32);
    assert_eq!(sqe_send.op_flags, 0);
    assert_eq!(sqe_send.user_data, 0x34343434);

    assert_eq!(kernel.submit(&mut ring), Ok(2));

    let cqe1 = kernel.copy_cqe(&mut ring).unwrap();
    let cqe2 = kernel.copy_cqe(&mut ring).unwrap();

    let (cqe_send, cqe_recv) =
        if cqe1.user_data == 0x34343434 { (cqe1, cqe2) } else { (cqe2, cqe1) };

    assert_eq!(cqe_send.user_data, 0x34343434);
    assert_eq!(cqe_send.res, send_buf.len as i32);
    assert_eq!(cqe_send.flags, 0);

    assert_eq!(cqe_recv.user_data, 0x12121212);
    assert_eq!(cqe_recv.res, recv_buf.len as i32);
    assert_eq!(cqe_recv.flags, 0);

    assert_eq!(kernel.memory[&recv_buf.addr], b"hello".to_vec());
    assert_ring_clean(&mut ring);
}
