//! Provided buffers: buffers that the application hands to the kernel in
//! advance, for the kernel to pick from.
use crate::index::{lemma_power_of_two_exponent, power_of_two};
use vstd::arithmetic::power2::*;
use vstd::bits::*;
use vstd::prelude::*;

verus! {

/// One slot of a buffer ring.
///
/// The tail of the ring overlays the reserved field of the first slot.
#[allow(non_camel_case_types)]
#[derive(Clone, Copy, PartialEq, Eq, Debug)]
pub struct io_uring_buf {
    pub addr: u64,
    pub len: u32,
    pub bid: u16,
    pub resv: u16,
}

/// The description of a buffer ring that the kernel registers.
#[allow(non_camel_case_types)]
#[derive(Clone, Copy, PartialEq, Eq, Debug)]
pub struct io_uring_buf_reg {
    pub ring_addr: u64,
    pub ring_entries: u32,
    pub bgid: u16,
    pub flags: u16,
    pub resv: [u64; 3],
}

/// A provided buffer ring for io_uring.
///
/// `bufs` is what the memory at `ring_addr` holds. Whoever owns that memory
/// carries the slots that were written over to it.
#[derive(Debug)]
pub struct BufRing {
    pub bgid: u16,
    pub ring_entries_mask: u16,
    pub ring_addr: u64,
    pub bufs: Vec<io_uring_buf>,
    pub local_tail: u16,
}

/// The size in bytes of one slot.
///
/// `core::mem::size_of` of `rustix::io_uring::io_uring_buf`: an address of
/// eight bytes, a length of four, and two numbers of two bytes each.
#[verifier::external_body]
fn buf_size() -> (res: usize)
    ensures
        res == 16,
{
    core::mem::size_of::<rustix::io_uring::io_uring_buf>()
}

/// The description whose every field is zero.
///
/// `rustix::io_uring::io_uring_buf_reg::default`: every number is zero and the
/// address is null.
#[verifier::external_body]
pub(crate) fn buf_reg_default() -> (res: io_uring_buf_reg)
    ensures
        res == (io_uring_buf_reg {
            ring_addr: 0,
            ring_entries: 0,
            bgid: 0,
            flags: 0,
            resv: [0, 0, 0],
        }),
{
    let reg = rustix::io_uring::io_uring_buf_reg::default();
    io_uring_buf_reg {
        ring_addr: reg.ring_addr.ptr as u64,
        ring_entries: reg.ring_entries,
        bgid: reg.bgid,
        flags: reg.flags,
        resv: reg.resv,
    }
}

/// The tail `n` steps after `tail`.
pub open spec fn tail_after(tail: u16, n: int) -> u16 {
    ((tail + n) % 0x1_0000) as u16
}

impl BufRing {
    /// The number of slots.
    pub open spec fn entries(&self) -> int {
        self.ring_entries_mask + 1
    }

    /// The ring has a power of two as its size, and the memory that belongs to
    /// it.
    pub open spec fn wf(&self) -> bool {
        &&& power_of_two(self.entries())
        &&& self.ring_entries_mask < 0x8000
        &&& self.bufs@.len() == self.entries()
    }

    /// The slot that the buffer `n` steps after `tail` falls into.
    pub open spec fn slot(&self, tail: u16, n: int) -> int {
        (tail + n) % self.entries()
    }

    /// The tail that the kernel sees.
    pub open spec fn published_tail(&self) -> u16 {
        self.bufs@[0].resv
    }

    /// The `n` buffers from the position `from` on, each with its address, its
    /// length and its number.
    pub open spec fn provided(&self, from: u16, n: nat) -> Seq<(u64, u32, u16)> {
        Seq::new(
            n,
            |i: int|
                {
                    let buf = self.bufs@[self.slot(from, i)];
                    (buf.addr, buf.len, buf.bid)
                },
        )
    }

    /// The size in bytes of the memory of a ring of `ring_entries` slots.
    pub fn mem_len(ring_entries: u16) -> (res: usize)
        ensures
            res == 16 * ring_entries,
    {
        buf_size() * ring_entries as usize
    }

    /// A ring of `ring_entries` slots for the buffer group `bgid`, in zeroed
    /// memory at `ring_addr`.
    pub fn new(bgid: u16, ring_entries: u16, ring_addr: u64) -> (res: Self)
        requires
            power_of_two(ring_entries as int),
        ensures
            res.wf(),
            res.entries() == ring_entries,
            res.bgid == bgid,
            res.ring_addr == ring_addr,
            res.local_tail == 0,
            res.bufs@ == Seq::new(
                ring_entries as nat,
                |i: int| io_uring_buf { addr: 0, len: 0, bid: 0, resv: 0 },
            ),
    {
        proof {
            lemma2_to64();
            lemma_power_of_two_exponent(ring_entries as int, 16);
        }
        let zeroed = io_uring_buf { addr: 0, len: 0, bid: 0, resv: 0 };
        let mut bufs: Vec<io_uring_buf> = Vec::new();
        let mut i: u16 = 0;
        while i < ring_entries
            invariant
                0 <= i <= ring_entries,
                bufs@ == Seq::new(i as nat, |k: int| zeroed),
            decreases ring_entries - i,
        {
            bufs.push(zeroed);
            i = i + 1;
        }
        BufRing { bgid, ring_entries_mask: ring_entries - 1, ring_addr, bufs, local_tail: 0 }
    }

    /// `post` is this ring after a buffer was added.
    pub open spec fn pushed(self, post: BufRing, addr: u64, len: u32, bid: u16) -> bool {
        let vacant = self.slot(self.local_tail, 0);
        &&& post.bufs@ == self.bufs@.update(
            vacant,
            io_uring_buf { addr, len, bid, ..self.bufs@[vacant] },
        )
        &&& post == (BufRing {
            bufs: post.bufs,
            local_tail: tail_after(self.local_tail, 1),
            ..self
        })
    }

    /// Adds the buffer of `len` bytes at `addr`, under the number `bid`. The
    /// kernel does not see it before [`Self::sync`]. Returns the slot that was
    /// written.
    pub fn push(&mut self, addr: u64, len: u32, bid: u16) -> (res: u16)
        requires
            old(self).wf(),
        ensures
            final(self).wf(),
            old(self).pushed(*final(self), addr, len, bid),
            res == old(self).slot(old(self).local_tail, 0),
            final(self).published_tail() == old(self).published_tail(),
    {
        let tail = self.local_tail;
        proof {
            lemma_tail_mask_is_slot(tail, self.ring_entries_mask);
        }
        let index = tail & self.ring_entries_mask;
        let resv = self.bufs[index as usize].resv;
        self.bufs[index as usize] = io_uring_buf { addr, len, bid, resv };
        self.local_tail = tail.wrapping_add(1);
        index
    }

    /// `post` is this ring after its tail was published.
    pub open spec fn synced(self, post: BufRing) -> bool {
        &&& post.bufs@ == self.bufs@.update(
            0,
            io_uring_buf { resv: self.local_tail, ..self.bufs@[0] },
        )
        &&& post == (BufRing { bufs: post.bufs, ..self })
    }

    /// Lets the kernel see every buffer that was added.
    pub fn sync(&mut self)
        requires
            old(self).wf(),
        ensures
            final(self).wf(),
            old(self).synced(*final(self)),
    {
        let first = self.bufs[0];
        self.bufs[0] = io_uring_buf { resv: self.local_tail, ..first };
    }

    /// The tail that the kernel sees.
    pub fn shared_tail(&self) -> (res: u16)
        requires
            self.wf(),
        ensures
            res == self.published_tail(),
    {
        self.bufs[0].resv
    }

    /// The group, the address and the size of this ring.
    pub open spec fn description(&self) -> io_uring_buf_reg {
        io_uring_buf_reg {
            ring_addr: self.ring_addr,
            ring_entries: self.entries() as u32,
            bgid: self.bgid,
            flags: 0,
            resv: [0, 0, 0],
        }
    }

    /// The description of this ring for the kernel.
    pub fn args(&self) -> (res: io_uring_buf_reg)
        requires
            self.wf(),
        ensures
            res == self.description(),
    {
        let mut reg = buf_reg_default();
        reg.bgid = self.bgid;
        reg.ring_addr = self.ring_addr;
        reg.ring_entries = (self.ring_entries_mask + 1) as u32;
        reg
    }
}

/// Masking reduces a tail to its slot.
proof fn lemma_tail_mask_is_slot(tail: u16, mask: u16)
    requires
        power_of_two(mask + 1),
        mask < 0x8000,
    ensures
        tail & mask == tail as int % (mask + 1),
        0 <= tail as int % (mask + 1) < mask + 1,
{
    lemma2_to64();
    let k = lemma_power_of_two_exponent(mask + 1, 16);
    lemma_u16_low_bits_mask_is_mod(tail, k);
}

} // verus!
