use mushroom::parse::{parse_ipv4, parse_ipv6};

#[test]
fn ipv4_exact_values() {
    assert_eq!(parse_ipv4("10.0.0.1"), Some(0x0a00_0001));
    assert_eq!(parse_ipv4("8.8.8.8"), Some(0x0808_0808));
    assert_eq!(parse_ipv4("0.0.0.0"), Some(0));
    assert_eq!(parse_ipv4("255.255.255.255"), Some(u32::MAX));
    assert_eq!(parse_ipv4("192.168.1.254"), Some(0xc0a8_01fe));
}

#[test]
fn ipv4_rejects_malformed() {
    for text in [
        "", "garbage", "1.2.3", "1.2.3.4.5", "1.2.3.", ".1.2.3", "1..2.3", "256.1.1.1",
        "1.2.3.256", "01.2.3.4", "1.2.3.04", "1.2.3.4 ", " 1.2.3.4", "1.2.3.4a", "+1.2.3.4",
        "1.2.3.-4", "0x1.2.3.4", "1234.1.1.1", "1.2.3.4:53", "::1", "١.٢.٣.٤", "1.2.3.00",
    ] {
        assert_eq!(parse_ipv4(text), None, "{text:?}");
    }
}

#[test]
fn ipv4_single_zero_octets_are_accepted() {
    assert_eq!(parse_ipv4("0.10.0.200"), Some(0x000a_00c8));
}

#[test]
fn ipv6_exact_values() {
    assert_eq!(parse_ipv6("::"), Some(0));
    assert_eq!(parse_ipv6("::1"), Some(1));
    assert_eq!(parse_ipv6("1::"), Some(1u128 << 112));
    assert_eq!(
        parse_ipv6("2001:4860:4860::8888"),
        Some(0x2001_4860_4860_0000_0000_0000_0000_8888)
    );
    assert_eq!(
        parse_ipv6("1:2:3:4:5:6:7:8"),
        Some(0x0001_0002_0003_0004_0005_0006_0007_0008)
    );
    assert_eq!(
        parse_ipv6("FE80::AbCd:0001"),
        Some(0xfe80_0000_0000_0000_0000_0000_abcd_0001)
    );
    assert_eq!(parse_ipv6("::ffff:10.0.0.1"), Some(0xffff_0a00_0001));
    assert_eq!(
        parse_ipv6("1:2:3:4:5:6:1.2.3.4"),
        Some(0x0001_0002_0003_0004_0005_0006_0102_0304)
    );
    assert_eq!(
        parse_ipv6("1:2:3:4:5:6:7::"),
        Some(0x0001_0002_0003_0004_0005_0006_0007_0000)
    );
    assert_eq!(
        parse_ipv6("::2:3:4:5:6:7:8"),
        Some(0x0000_0002_0003_0004_0005_0006_0007_0008)
    );
}

#[test]
fn ipv6_rejects_malformed() {
    for text in [
        "", "garbage", ":", ":::", "1", "1:2:3:4:5:6:7", "1:2:3:4:5:6:7:8:9", "1::2::3",
        "1:::2", ":1::2", "1::2:", "12345::", "::g", "1:2:3:4:5:6:7:1.2.3.4", "1.2.3.4::",
        "::1.2.3", "::1.2.3.4.5", "::1.2.3.04", "1:2:3:4:5:6::1.2.3.4", "1::2:3:4:5:6:7:8",
        "::1%eth0", "[::1]", "::1 ", "10.0.0.1", "1:2:3:1.2.3.4", "::1.2.3.4:5",
    ] {
        assert_eq!(parse_ipv6(text), None, "{text:?}");
    }
}

#[test]
fn ipv4_literal_is_no_ipv6_literal_and_the_other_way_round() {
    assert_eq!(parse_ipv6("10.0.0.1"), None);
    assert_eq!(parse_ipv4("::ffff:10.0.0.1"), None);
    assert_eq!(parse_ipv4("2001:4860:4860::8888"), None);
}

#[test]
fn ipv6_embedded_quad_counts_as_two_groups() {
    assert_eq!(parse_ipv6("1:2:3:4:5::1.2.3.4"), Some(0x0001_0002_0003_0004_0005_0000_0102_0304));
    assert_eq!(parse_ipv6("::1.2.3.4"), Some(0x0102_0304));
    assert_eq!(parse_ipv6("::1:2:3:4:5:1.2.3.4"), Some(0x0000_0001_0002_0003_0004_0005_0102_0304));
    assert_eq!(parse_ipv6("::1:2:3:4:5:6:1.2.3.4"), None);
}

#[test]
fn ipv6_groups_take_up_to_four_digits_with_leading_zeros() {
    assert_eq!(parse_ipv6("0000::0000"), Some(0));
    assert_eq!(parse_ipv6("0001::"), Some(1u128 << 112));
    assert_eq!(parse_ipv6("00000::"), None);
    assert_eq!(
        parse_ipv6("abcd:ef01:2345:6789:abcd:ef01:2345:6789"),
        Some(0xabcd_ef01_2345_6789_abcd_ef01_2345_6789)
    );
    assert_eq!(parse_ipv6("2620:fe::fe:9"), Some(0x2620_00fe_0000_0000_0000_0000_00fe_0009));
}
