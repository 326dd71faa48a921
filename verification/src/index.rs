//! Positions in a ring.
//!
//! A ring index is a free-running 32-bit counter: it wraps around every four
//! billion operations and is never reduced to the size of the ring. The slot
//! that a position falls into is found by masking, and how far one position
//! lies behind another by wrapping subtraction.
use vstd::arithmetic::div_mod::*;
use vstd::arithmetic::power2::*;
use vstd::bits::*;
use vstd::prelude::*;

verus! {

/// How many values an index takes before it wraps around.
pub open spec fn index_range() -> int {
    0x1_0000_0000
}

/// The number of steps that lead from position `from` to position `to`.
pub open spec fn distance(from: u32, to: u32) -> nat {
    ((to - from) % index_range()) as nat
}

/// The position that lies `n` steps after `from`.
pub open spec fn advance(from: u32, n: int) -> u32 {
    ((from + n) % index_range()) as u32
}

/// Whether `n` is two to the power of some natural number.
pub open spec fn power_of_two(n: int) -> bool {
    exists|k: nat| n == #[trigger] pow2(k)
}

/// The slot that the position `n` steps after `from` falls into, in a ring of
/// `entries` slots.
pub open spec fn slot(from: u32, n: int, entries: int) -> int {
    (from + n) % entries
}

/// Whether `n` is a power of two.
pub fn is_power_of_two(n: u32) -> (res: bool)
    ensures
        res == power_of_two(n as int),
{
    if n == 0 {
        proof {
            assert forall|k: nat| #[trigger] pow2(k) != 0 by {
                lemma_pow2_pos(k);
            }
        }
        return false;
    }
    proof {
        lemma_power_of_two_bits(n);
    }
    n & (n - 1) == 0
}

/// A non-zero number is a power of two exactly if clearing its lowest set bit
/// leaves nothing.
pub proof fn lemma_power_of_two_bits(n: u32)
    requires
        n != 0,
    ensures
        (n & ((n - 1) as u32)) == 0 <==> power_of_two(n as int),
    decreases n,
{
    let m = (n - 1) as u32;
    if n == 1 {
        assert(1u32 & 0u32 == 0) by (bit_vector);
        lemma2_to64();
        assert(pow2(0) == n);
    } else {
        let h = n / 2;
        let g = (h - 1) as u32;
        lemma_power_of_two_bits(h);
        assert((n & m) == 0 <==> (n % 2 == 0 && (h & g) == 0)) by (bit_vector)
            requires
                n > 1,
                m == n - 1,
                h == n / 2,
                g == h - 1,
        ;
        if power_of_two(n as int) {
            let k = choose|k: nat| n == #[trigger] pow2(k);
            lemma2_to64();
            assert(k != 0);
            lemma_pow2_unfold(k);
            assert(h == pow2((k - 1) as nat));
        }
        if n % 2 == 0 && power_of_two(h as int) {
            let k = choose|k: nat| h == #[trigger] pow2(k);
            lemma_pow2_unfold(k + 1);
            assert(n == pow2(k + 1));
        }
    }
}

/// A power of two below `2 ^ bits` has an exponent below `bits`, and is at most
/// half as large.
pub proof fn lemma_power_of_two_exponent(n: int, bits: nat) -> (k: nat)
    requires
        power_of_two(n),
        n < pow2(bits),
    ensures
        k < bits,
        n == pow2(k),
        0 < n <= pow2((bits - 1) as nat),
{
    let k = choose|k: nat| n == #[trigger] pow2(k);
    lemma_pow2_pos(k);
    if k > bits {
        lemma_pow2_strictly_increases(bits, k);
    }
    if k < bits - 1 {
        lemma_pow2_strictly_increases(k, (bits - 1) as nat);
    }
    k
}

/// A power of two divides every larger one, so that a counter of `bits` bits
/// that wraps around leaves every slot of a smaller ring where it is.
pub proof fn lemma_wrap_keeps_slot(x: int, entries: int, bits: nat)
    requires
        power_of_two(entries),
        entries <= pow2(bits),
    ensures
        entries > 0,
        (x % (pow2(bits) as int)) % entries == x % entries,
{
    lemma_pow2_strictly_increases(bits, bits + 1);
    let k = lemma_power_of_two_exponent(entries, bits + 1);
    let rest = (bits - k) as nat;
    lemma_pow2_adds(k, rest);
    lemma_pow2_pos(rest);
    lemma_mod_mod(x, entries, pow2(rest) as int);
}

/// The same of an index.
pub proof fn lemma_index_keeps_slot(x: int, entries: u32)
    requires
        power_of_two(entries as int),
    ensures
        entries > 0,
        (x % index_range()) % (entries as int) == x % (entries as int),
{
    lemma2_to64();
    lemma_wrap_keeps_slot(x, entries as int, 32);
}

/// Masking with one less than the size of the ring reduces a position to its
/// slot.
pub proof fn lemma_mask_is_slot(pos: u32, entries: u32)
    requires
        power_of_two(entries as int),
    ensures
        entries > 0,
        pos & ((entries - 1) as u32) == slot(pos, 0, entries as int),
        0 <= slot(pos, 0, entries as int) < entries,
{
    lemma2_to64();
    let k = lemma_power_of_two_exponent(entries as int, 32);
    lemma_u32_low_bits_mask_is_mod(pos, k);
}

/// Every slot lies within the ring.
pub proof fn lemma_slot_in_ring(from: u32, n: int, entries: u32)
    requires
        power_of_two(entries as int),
    ensures
        0 <= slot(from, n, entries as int) < entries,
{
    lemma_index_keeps_slot(from + n, entries);
}

/// Steps add up, whether or not the index wraps around between them.
pub proof fn lemma_slot_advance(from: u32, n: int, m: int, entries: u32)
    requires
        power_of_two(entries as int),
    ensures
        slot(advance(from, n), m, entries as int) == slot(from, n + m, entries as int),
{
    lemma_index_keeps_slot(from + n, entries);
    lemma_add_mod_noop((from + n) % index_range(), m, entries as int);
    lemma_add_mod_noop(from + n, m, entries as int);
}

/// Where the steps lead that start at the slot of a position and pass the end of
/// the ring at most once.
pub proof fn lemma_slot_from_slot(from: u32, n: int, entries: int)
    requires
        entries > 0,
        0 <= n,
        slot(from, 0, entries) + n < 2 * entries,
    ensures
        slot(from, n, entries) == if slot(from, 0, entries) + n < entries {
            slot(from, 0, entries) + n
        } else {
            slot(from, 0, entries) + n - entries
        },
{
    let s = slot(from, 0, entries);
    lemma_mod_bound(from as int, entries);
    lemma_add_mod_noop(from as int, n, entries);
    lemma_add_mod_noop(s, n, entries);
    lemma_mod_twice(from as int, entries);
    if s + n < entries {
        lemma_small_mod((s + n) as nat, entries as nat);
    } else {
        lemma_small_mod((s + n - entries) as nat, entries as nat);
        lemma_mod_add_multiples_vanish(s + n - entries, entries);
    }
}

/// Positions that lie less than the size of the ring apart fall into different
/// slots.
pub proof fn lemma_slots_differ(from: u32, i: int, j: int, entries: u32)
    requires
        power_of_two(entries as int),
        i < j < i + entries,
    ensures
        slot(from, i, entries as int) != slot(from, j, entries as int),
{
    let e = entries as int;
    lemma_index_keeps_slot(from + i, entries);
    if slot(from, i, e) == slot(from, j, e) {
        lemma_fundamental_div_mod(from + i, e);
        lemma_fundamental_div_mod(from + j, e);
        let a = (from + i) / e;
        let b = (from + j) / e;
        assert(j - i == e * b - e * a);
        assert(false) by (nonlinear_arith)
            requires
                j - i == e * b - e * a,
                0 < j - i < e,
        ;
    }
}

/// Wrapping addition is a number of steps forward.
pub proof fn lemma_wrapping_add(a: u32, n: u32)
    ensures
        a.wrapping_add(n) == advance(a, n as int),
{
}

/// Wrapping subtraction is a distance.
pub proof fn lemma_wrapping_sub(to: u32, from: u32)
    ensures
        to.wrapping_sub(from) == distance(from, to),
{
}

/// What moving on does to the distance to a position that is not passed.
pub proof fn lemma_distance_from_advanced(from: u32, to: u32, n: int)
    requires
        0 <= n <= distance(from, to),
    ensures
        distance(advance(from, n), to) == distance(from, to) - n,
{
}

/// What moving the far end on does to a distance.
pub proof fn lemma_distance_to_advanced(from: u32, to: u32, n: int)
    requires
        0 <= n,
        distance(from, to) + n < index_range(),
    ensures
        distance(from, advance(to, n)) == distance(from, to) + n,
{
}

/// The distance to a position is the number of steps that lead there.
pub proof fn lemma_advance_distance(from: u32, to: u32)
    ensures
        advance(from, distance(from, to) as int) == to,
{
}

} // verus!
