//! Deriving a subnet's addresses: network, broadcast, first and last usable
//! host, and the usable host count.

use vstd::prelude::*;
use crate::mask::mask_of_prefix;
use crate::mask::prefix_to_mask;
use vstd::arithmetic::power2::pow2;

verus! {

/// The mask of the host bits: the low `32 - p` bits set.
pub open spec fn host_mask_of_prefix(p: u32) -> u32
    recommends
        p <= 32,
{
    if p == 32 {
        0u32
    } else {
        (u32::MAX >> p) as u32
    }
}

/// The network address: `address` with everything below the top `boundary`
/// bits zeroed.
pub open spec fn network_of(address: u32, boundary: u32) -> u32
    recommends
        boundary <= 32,
{
    address & mask_of_prefix(boundary)
}

/// The broadcast address: `network` with every host bit set.
pub open spec fn broadcast_of(network: u32, p: u32) -> u32
    recommends
        p <= 32,
{
    network | host_mask_of_prefix(p)
}

/// Keeps the top `boundary` bits of `address` and zeroes the rest.
pub fn compute_network(address: u32, boundary: u8) -> (n: u32)
    requires
        boundary <= 32,
    ensures
        n == network_of(address, boundary as u32),
{
    address & prefix_to_mask(boundary)
}

/// Sets every bit in the low `32 - prefix_length` positions of `network`.
pub fn compute_broadcast(network: u32, prefix_length: u8) -> (b: u32)
    requires
        prefix_length <= 32,
    ensures
        b == broadcast_of(network, prefix_length as u32),
{
    if prefix_length == 32 {
        proof {
            assert(network | 0u32 == network) by (bit_vector);
        }
        network
    } else {
        network | (u32::MAX >> (prefix_length as u32))
    }
}

/// The first and last usable host address: one above the network address and
/// one below the broadcast address.
pub fn compute_host_range(network: u32, broadcast: u32) -> (r: (u32, u32))
    requires
        network < broadcast,
    ensures
        r.0 == network + 1,
        r.1 == broadcast - 1,
{
    (network + 1, broadcast - 1)
}

/// The number of usable hosts at the given prefix length:
/// `2^(32 - prefix_length) - 2`, which is 0 at prefix length 31.
pub fn compute_usable_host_count(prefix_length: u8) -> (c: u64)
    requires
        prefix_length < 32,
    ensures
        c as int == pow2((32 - prefix_length) as nat) - 2,
{
    let shift: u64 = (32 - prefix_length) as u64;
    proof {
        vstd::arithmetic::power2::lemma2_to64();
        if shift < 32 {
            vstd::arithmetic::power2::lemma_pow2_strictly_increases(shift as nat, 32);
        }
        vstd::arithmetic::power2::lemma_pow2_strictly_increases(0, shift as nat);
        vstd::bits::lemma_u64_shl_is_mul(1u64, shift);
    }
    (1u64 << shift) - 2
}

/// A network address built with a boundary of at most 31 lies strictly below
/// the broadcast address built from it with a prefix length of at most 31:
/// its lowest bit is zero, while the broadcast's lowest bit is one.
pub proof fn lemma_network_below_broadcast(address: u32, boundary: u32, p: u32)
    by (bit_vector)
    requires
        boundary <= 31,
        p <= 31,
    ensures
        network_of(address, boundary) < broadcast_of(network_of(address, boundary), p),
{
}

/// Masking with the full /32 boundary keeps any address unchanged; masking
/// with the /0 boundary yields address 0.
pub proof fn lemma_network_roundtrip(address: u32)
    ensures
        network_of(address, 32) == address,
        network_of(address, 0) == 0,
{
    assert(network_of(address, 32) == address) by (bit_vector);
    assert(network_of(address, 0) == 0) by (bit_vector);
}

} // verus!
