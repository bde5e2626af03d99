//! The whole calculation: from an address token and a mask token to the
//! subnet report with network, broadcast, host range and usable host count.

use vstd::prelude::*;
use crate::mask::boundary_of;
use crate::mask::count_leading_zeros_boundary;
use crate::mask::count_ones32;
use crate::mask::count_set_bits;
use crate::parse::ParseError;
use crate::parse::parse_address;
use crate::parse::parse_mask_or_prefix;
use crate::parse::parsed_address;
use crate::parse::parsed_mask;
use crate::subnet::broadcast_of;
use crate::subnet::compute_broadcast;
use crate::subnet::compute_host_range;
use crate::subnet::compute_network;
use crate::subnet::compute_usable_host_count;
use crate::subnet::lemma_network_below_broadcast;
use crate::subnet::network_of;
use vstd::arithmetic::power2::pow2;

verus! {

/// Everything the calculator derives from one address and one mask.
pub struct SubnetReport {
    /// The parsed address value.
    pub address: u32,
    /// The parsed mask value.
    pub mask: u32,
    /// The count of set bits of the mask.
    pub prefix_length: u8,
    /// The prefix/host boundary position of the mask.
    pub boundary: u8,
    /// The network address; absent at prefix length 32.
    pub network: Option<u32>,
    /// The broadcast address; absent at prefix length 32.
    pub broadcast: Option<u32>,
    /// The usable host count; absent at prefix length 32.
    pub usable_hosts: Option<u64>,
    /// The first usable host; absent at prefix lengths 31 and 32.
    pub host_min: Option<u32>,
    /// The last usable host; absent at prefix lengths 31 and 32.
    pub host_max: Option<u32>,
}

/// What a report derived from `address` and `mask` holds, field by field.
pub open spec fn report_consistent(r: SubnetReport, address: u32, mask: u32) -> bool {
    let p = count_ones32(mask);
    let b = boundary_of(mask);
    let net = network_of(address, b as u32);
    let bc = broadcast_of(net, p as u32);
    &&& r.address == address
    &&& r.mask == mask
    &&& r.prefix_length as int == p
    &&& r.boundary as int == b
    &&& (p == 32 ==> r.network is None && r.broadcast is None && r.usable_hosts is None)
    &&& (p < 32 ==> r.network == Some(net) && r.broadcast == Some(bc) && r.usable_hosts == Some(
        (pow2((32 - p) as nat) - 2) as u64,
    ))
    &&& (p <= 30 ==> r.host_min == Some((net + 1) as u32) && r.host_max == Some((bc - 1) as u32))
    &&& (p > 30 ==> r.host_min is None && r.host_max is None)
}

/// Runs the whole calculation on the two trimmed input tokens. Fails exactly
/// when one of them does not parse, with that token's error; on success the
/// report's fields are the derived subnet values, with the network, broadcast
/// and host fields left out at the prefix lengths where they are meaningless.
pub fn evaluate(address_text: &str, mask_text: &str) -> (r: Result<SubnetReport, ParseError>)
    ensures
        match r {
            Ok(rep) => {
                &&& parsed_address(address_text@) == Some(rep.address)
                &&& parsed_mask(mask_text@) == Ok::<u32, ParseError>(rep.mask)
                &&& report_consistent(rep, rep.address, rep.mask)
            },
            Err(e) => {
                &&& (parsed_address(address_text@) is None ==> e == ParseError::InvalidAddress)
                &&& (parsed_address(address_text@) is Some ==> parsed_mask(mask_text@) == Err::<
                    u32,
                    ParseError,
                >(e))
                &&& (parsed_address(address_text@) is None || parsed_mask(mask_text@) is Err)
            },
        },
{
    let address = match parse_address(address_text) {
        Ok(v) => v,
        Err(e) => {
            return Err(e);
        },
    };
    let mask = match parse_mask_or_prefix(mask_text) {
        Ok(v) => v,
        Err(e) => {
            return Err(e);
        },
    };
    let boundary = count_leading_zeros_boundary(mask);
    let prefix_length = count_set_bits(mask);
    if prefix_length == 32 {
        return Ok(
            SubnetReport {
                address,
                mask,
                prefix_length,
                boundary,
                network: None,
                broadcast: None,
                usable_hosts: None,
                host_min: None,
                host_max: None,
            },
        );
    }
    let network = compute_network(address, boundary);
    let broadcast = compute_broadcast(network, prefix_length);
    let usable = compute_usable_host_count(prefix_length);
    if prefix_length <= 30 {
        proof {
            lemma_network_below_broadcast(address, boundary as u32, prefix_length as u32);
        }
        let (host_min, host_max) = compute_host_range(network, broadcast);
        Ok(
            SubnetReport {
                address,
                mask,
                prefix_length,
                boundary,
                network: Some(network),
                broadcast: Some(broadcast),
                usable_hosts: Some(usable),
                host_min: Some(host_min),
                host_max: Some(host_max),
            },
        )
    } else {
        Ok(
            SubnetReport {
                address,
                mask,
                prefix_length,
                boundary,
                network: Some(network),
                broadcast: Some(broadcast),
                usable_hosts: Some(usable),
                host_min: None,
                host_max: None,
            },
        )
    }
}

} // verus!
