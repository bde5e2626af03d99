//! Subnet masks as 32-bit values: building a contiguous mask from a CIDR
//! prefix length, counting set bits, and locating the prefix/host boundary.

use vstd::prelude::*;

verus! {

/// The contiguous mask with the top `p` bits set: all zero for `p == 0`,
/// all ones for `p == 32`.
pub open spec fn mask_of_prefix(p: u32) -> u32
    recommends
        p <= 32,
{
    if p == 0 {
        0u32
    } else {
        (u32::MAX << ((32 - p) as u32)) as u32
    }
}

/// Number of set bits of `v` among the low `n` bit positions.
pub open spec fn count_ones_below(v: u32, n: nat) -> int
    recommends
        n <= 32,
    decreases n,
{
    if n == 0 {
        0
    } else {
        count_ones_below(v, (n - 1) as nat) + if (v >> ((n - 1) as u32)) & 1 == 1 {
            1int
        } else {
            0int
        }
    }
}

/// Number of set bits of `v`.
pub open spec fn count_ones32(v: u32) -> int {
    count_ones_below(v, 32)
}

/// Index of the first zero bit of `v` at position `i` or later, positions
/// counted from the most significant bit; 32 when every bit from `i` on is one.
pub open spec fn first_zero_from(v: u32, i: int) -> int
    recommends
        0 <= i <= 32,
    decreases 32 - i,
{
    if i < 0 || i >= 32 {
        32
    } else if (v >> ((31 - i) as u32)) & 1 == 0 {
        i
    } else {
        first_zero_from(v, i + 1)
    }
}

/// The prefix/host boundary of a mask: the index of its first zero bit,
/// scanning from the most significant bit — except that the all-ones mask
/// reports 0 rather than 32.
pub open spec fn boundary_of(v: u32) -> int {
    if first_zero_from(v, 0) == 32 {
        0
    } else {
        first_zero_from(v, 0)
    }
}

/// Builds the mask whose top `p` bits are set.
pub fn prefix_to_mask(p: u8) -> (m: u32)
    requires
        p <= 32,
    ensures
        m == mask_of_prefix(p as u32),
{
    if p == 0 {
        0
    } else {
        u32::MAX << ((32 - p) as u32)
    }
}

/// Total number of 1-bits in a mask, its CIDR prefix length when the mask is
/// contiguous; a non-contiguous mask still yields its plain bit count.
pub fn count_set_bits(mask: u32) -> (p: u8)
    ensures
        p as int == count_ones32(mask),
        p <= 32,
{
    let mut acc: u8 = 0;
    let mut i: u32 = 0;
    while i < 32
        invariant
            i <= 32,
            acc as int == count_ones_below(mask, i as nat),
            acc <= i,
        decreases 32 - i,
    {
        let b = (mask >> i) & 1;
        assert((mask >> i) & 1 <= 1) by (bit_vector);
        acc = acc + (b as u8);
        i = i + 1;
    }
    acc
}

/// Index of the first zero bit scanning from the most significant bit, with
/// the all-ones mask reporting 0 rather than 32.
pub fn count_leading_zeros_boundary(mask: u32) -> (b: u8)
    ensures
        b as int == boundary_of(mask),
        b <= 31,
{
    let mut i: u32 = 0;
    while i < 32
        invariant
            i <= 32,
            first_zero_from(mask, 0) == first_zero_from(mask, i as int),
        decreases 32 - i,
    {
        if (mask >> (31 - i)) & 1 == 0 {
            return i as u8;
        }
        i = i + 1;
    }
    0
}

/// Bit `k` (counting from the least significant bit) of the mask with prefix
/// length `p` is set exactly when `k + p >= 32`.
proof fn lemma_mask_bit(p: u32, k: u32)
    by (bit_vector)
    requires
        p <= 32,
        k < 32,
    ensures
        (mask_of_prefix(p) >> k) & 1 == if k + p >= 32 {
            1u32
        } else {
            0u32
        },
{
}

proof fn lemma_count_below_mask(p: u32, n: nat)
    requires
        p <= 32,
        n <= 32,
    ensures
        count_ones_below(mask_of_prefix(p), n) == if n + p <= 32 {
            0int
        } else {
            n + p - 32
        },
    decreases n,
{
    if n > 0 {
        lemma_count_below_mask(p, (n - 1) as nat);
        lemma_mask_bit(p, (n - 1) as u32);
    }
}

/// Building a mask from a prefix length and counting its set bits round-trips:
/// the mask with the top `p` bits set has exactly `p` set bits.
pub proof fn lemma_prefix_mask_set_bits(p: u32)
    requires
        p <= 32,
    ensures
        count_ones32(mask_of_prefix(p)) == p,
{
    lemma_count_below_mask(p, 32);
}

proof fn lemma_first_zero_contiguous(p: u32, i: int)
    requires
        p < 32,
        0 <= i <= p,
    ensures
        first_zero_from(mask_of_prefix(p), i) == p,
    decreases p - i,
{
    lemma_mask_bit(p, (31 - i) as u32);
    if i < p {
        lemma_first_zero_contiguous(p, i + 1);
    }
}

proof fn lemma_first_zero_all_ones(i: int)
    requires
        0 <= i <= 32,
    ensures
        first_zero_from(mask_of_prefix(32), i) == 32,
    decreases 32 - i,
{
    if i < 32 {
        lemma_mask_bit(32, (31 - i) as u32);
        lemma_first_zero_all_ones(i + 1);
    }
}

/// On a contiguous mask the boundary scan agrees with the prefix length,
/// except for the all-ones mask, whose boundary is reported as 0.
pub proof fn lemma_boundary_of_prefix_mask(p: u32)
    requires
        p <= 32,
    ensures
        boundary_of(mask_of_prefix(p)) == if p == 32 {
            0int
        } else {
            p as int
        },
{
    if p == 32 {
        lemma_first_zero_all_ones(0);
    } else {
        lemma_first_zero_contiguous(p, 0);
    }
}

} // verus!
