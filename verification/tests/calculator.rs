use subnet_calc::mask::count_leading_zeros_boundary;
use subnet_calc::mask::count_set_bits;
use subnet_calc::mask::prefix_to_mask;
use subnet_calc::parse::parse_address;
use subnet_calc::parse::parse_mask_or_prefix;
use subnet_calc::parse::ParseError;
use subnet_calc::render::dotted;
use subnet_calc::render::render;
use subnet_calc::report::evaluate;
use subnet_calc::subnet::compute_broadcast;
use subnet_calc::subnet::compute_host_range;
use subnet_calc::subnet::compute_network;
use subnet_calc::subnet::compute_usable_host_count;

#[test]
fn prefix_mask_bit_count_round_trip() {
    for p in 0..=32u8 {
        assert_eq!(count_set_bits(prefix_to_mask(p)), p);
    }
}

#[test]
fn boundary_of_all_ones_mask_is_zero() {
    assert_eq!(count_leading_zeros_boundary(u32::MAX), 0);
}

#[test]
fn boundary_of_common_masks() {
    assert_eq!(count_leading_zeros_boundary(0), 0);
    assert_eq!(count_leading_zeros_boundary(0xFFFF_FF00), 24);
    assert_eq!(count_leading_zeros_boundary(0x8000_0000), 1);
    assert_eq!(count_leading_zeros_boundary(0xFF00_FF00), 8);
}

#[test]
fn set_bit_count_ignores_contiguity() {
    assert_eq!(count_set_bits(0xFF00_FF00), 16);
    assert_eq!(count_set_bits(0), 0);
    assert_eq!(count_set_bits(u32::MAX), 32);
}

#[test]
fn render_keeps_binary_expansion() {
    let s = render(0xC0A8_0101, 24);
    let stripped: String = s.chars().filter(|c| *c != '|' && *c != ' ' && *c != '.').collect();
    assert_eq!(stripped, "11000000101010000000000100000001");
}

#[test]
fn render_places_marker_and_separators() {
    assert_eq!(render(0xC0A8_0101, 24), "11000000.10101000.00000001| .00000001");
    assert_eq!(render(0xFFFF_FF00, 24), "11111111.11111111.11111111| .00000000");
    assert_eq!(render(0xFFFF_FFFF, 12), "11111111.1111| 1111.11111111.11111111");
}

#[test]
fn render_suppresses_marker_at_boundary_zero() {
    assert_eq!(render(0, 0), "00000000.00000000.00000000.00000000");
    assert_eq!(render(u32::MAX, 0), "11111111.11111111.11111111.11111111");
}

#[test]
fn network_round_trip_at_extreme_boundaries() {
    assert_eq!(compute_network(0x1234_5678, 32), 0x1234_5678);
    assert_eq!(compute_network(0x1234_5678, 0), 0);
    assert_eq!(compute_network(0xC0A8_0101, 24), 0xC0A8_0100);
}

#[test]
fn broadcast_of_slash_24() {
    assert_eq!(compute_broadcast(0xC0A8_0100, 24), 0xC0A8_01FF);
}

#[test]
fn host_range_is_between_network_and_broadcast() {
    assert_eq!(compute_host_range(0xC0A8_0100, 0xC0A8_01FF), (0xC0A8_0101, 0xC0A8_01FE));
}

#[test]
fn usable_host_counts() {
    assert_eq!(compute_usable_host_count(24), 254);
    assert_eq!(compute_usable_host_count(31), 0);
    assert_eq!(compute_usable_host_count(30), 2);
    assert_eq!(compute_usable_host_count(0), 4_294_967_294);
}

#[test]
fn parse_address_accepts_well_formed_tokens() {
    assert_eq!(parse_address("0.0.0.0"), Ok(0));
    assert_eq!(parse_address("255.255.255.255"), Ok(u32::MAX));
    assert_eq!(parse_address("192.168.1.1"), Ok(0xC0A8_0101));
    assert_eq!(parse_address("10.0.0.5"), Ok(0x0A00_0005));
}

#[test]
fn parse_address_rejects_malformed_tokens() {
    assert_eq!(parse_address(""), Err(ParseError::InvalidAddress));
    assert_eq!(parse_address("1.2.3"), Err(ParseError::InvalidAddress));
    assert_eq!(parse_address("1.2.3.4.5"), Err(ParseError::InvalidAddress));
    assert_eq!(parse_address("256.1.1.1"), Err(ParseError::InvalidAddress));
    assert_eq!(parse_address("01.2.3.4"), Err(ParseError::InvalidAddress));
    assert_eq!(parse_address("1..2.3"), Err(ParseError::InvalidAddress));
    assert_eq!(parse_address("1.2.3.x"), Err(ParseError::InvalidAddress));
    assert_eq!(parse_address("1.2.3.4 "), Err(ParseError::InvalidAddress));
}

#[test]
fn parse_mask_accepts_prefix_lengths() {
    assert_eq!(parse_mask_or_prefix("0"), Ok(0));
    assert_eq!(parse_mask_or_prefix("24"), Ok(0xFFFF_FF00));
    assert_eq!(parse_mask_or_prefix("32"), Ok(u32::MAX));
    assert_eq!(parse_mask_or_prefix("024"), Ok(0xFFFF_FF00));
    // A single leading plus sign is part of a numeric token.
    assert_eq!(parse_mask_or_prefix("+24"), Ok(0xFFFF_FF00));
}

#[test]
fn parse_mask_accepts_dotted_masks() {
    assert_eq!(parse_mask_or_prefix("255.255.255.0"), Ok(0xFFFF_FF00));
    // A non-contiguous mask parses: contiguity is not checked.
    assert_eq!(parse_mask_or_prefix("255.0.255.0"), Ok(0xFF00_FF00));
}

#[test]
fn parse_mask_rejects_out_of_range_prefix() {
    assert_eq!(parse_mask_or_prefix("33"), Err(ParseError::InvalidPrefixLength));
    assert_eq!(parse_mask_or_prefix("300"), Err(ParseError::InvalidPrefixLength));
    assert_eq!(
        parse_mask_or_prefix("99999999999999999999"),
        Err(ParseError::InvalidPrefixLength)
    );
}

#[test]
fn parse_mask_rejects_malformed_tokens() {
    assert_eq!(parse_mask_or_prefix(""), Err(ParseError::InvalidMask));
    assert_eq!(parse_mask_or_prefix("abc"), Err(ParseError::InvalidMask));
    assert_eq!(parse_mask_or_prefix("255.255.255"), Err(ParseError::InvalidMask));
    assert_eq!(parse_mask_or_prefix("-1"), Err(ParseError::InvalidMask));
    assert_eq!(parse_mask_or_prefix("+"), Err(ParseError::InvalidMask));
    assert_eq!(parse_mask_or_prefix("++1"), Err(ParseError::InvalidMask));
    assert_eq!(parse_mask_or_prefix("+33"), Err(ParseError::InvalidPrefixLength));
}

#[test]
fn scenario_dotted_mask_slash_24() {
    let rep = evaluate("192.168.1.1", "255.255.255.0").unwrap();
    assert_eq!(rep.prefix_length, 24);
    assert_eq!(rep.boundary, 24);
    assert_eq!(dotted(rep.network.unwrap()), "192.168.1.0");
    assert_eq!(dotted(rep.broadcast.unwrap()), "192.168.1.255");
    assert_eq!(rep.usable_hosts, Some(254));
    assert_eq!(dotted(rep.host_min.unwrap()), "192.168.1.1");
    assert_eq!(dotted(rep.host_max.unwrap()), "192.168.1.254");
}

#[test]
fn scenario_prefix_mask_slash_30() {
    let rep = evaluate("10.0.0.5", "30").unwrap();
    assert_eq!(rep.prefix_length, 30);
    assert_eq!(dotted(rep.network.unwrap()), "10.0.0.4");
    assert_eq!(dotted(rep.broadcast.unwrap()), "10.0.0.7");
    assert_eq!(rep.usable_hosts, Some(2));
    assert_eq!(dotted(rep.host_min.unwrap()), "10.0.0.5");
    assert_eq!(dotted(rep.host_max.unwrap()), "10.0.0.6");
}

#[test]
fn scenario_slash_32_stops_after_headers() {
    let rep = evaluate("192.168.1.1", "32").unwrap();
    assert_eq!(rep.prefix_length, 32);
    assert_eq!(rep.boundary, 0);
    assert_eq!(rep.network, None);
    assert_eq!(rep.broadcast, None);
    assert_eq!(rep.usable_hosts, None);
    assert_eq!(rep.host_min, None);
    assert_eq!(rep.host_max, None);
}

#[test]
fn scenario_slash_31_prints_zero_hosts_without_range() {
    let rep = evaluate("192.168.1.1", "31").unwrap();
    assert_eq!(rep.prefix_length, 31);
    assert_eq!(rep.usable_hosts, Some(0));
    assert!(rep.network.is_some());
    assert!(rep.broadcast.is_some());
    assert_eq!(rep.host_min, None);
    assert_eq!(rep.host_max, None);
}

#[test]
fn scenario_invalid_address_stops_with_error() {
    assert!(matches!(
        evaluate("999.1.1.1", "255.255.255.0"),
        Err(ParseError::InvalidAddress)
    ));
}

#[test]
fn scenario_invalid_mask_errors() {
    assert!(matches!(
        evaluate("192.168.1.1", "nonsense"),
        Err(ParseError::InvalidMask)
    ));
    assert!(matches!(
        evaluate("192.168.1.1", "40"),
        Err(ParseError::InvalidPrefixLength)
    ));
}

#[test]
fn dotted_renders_each_octet_in_decimal() {
    assert_eq!(dotted(0), "0.0.0.0");
    assert_eq!(dotted(u32::MAX), "255.255.255.255");
    assert_eq!(dotted(0xC0A8_0101), "192.168.1.1");
    assert_eq!(dotted(0x0A00_0005), "10.0.0.5");
    assert_eq!(dotted(0x7F00_0001), "127.0.0.1");
}
