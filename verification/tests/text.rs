use mushroom::address::IpAddress;
use mushroom::dedup::{deduplicate, extend_with_new};
use mushroom::endpoint::{contains_endpoint, push_unique, NameserverEndpoint, Transport};
use mushroom::parse::{
    find_gap_in, pack_groups, parse_dotted, parse_groups, parse_hex_group, parse_ipv4_in,
    parse_ipv6_in, parse_last_groups, parse_octet,
};
use mushroom::routing::suffix_matches;
use mushroom::text::{char_is_space, chars_of, find_in, to_lower, token_bounds};

fn chars(text: &str) -> Vec<char> {
    text.chars().collect()
}

fn e(n: u32) -> NameserverEndpoint {
    NameserverEndpoint { address: IpAddress::V4(n), port: 53, transport: Transport::Udp }
}

#[test]
fn chars_of_a_string() {
    assert_eq!(chars_of(""), Vec::<char>::new());
    assert_eq!(chars_of("a.ä·"), vec!['a', '.', 'ä', '·']);
}

#[test]
fn ascii_whitespace() {
    for c in [' ', '\t', '\n', '\r', '\x0c'] {
        assert!(char_is_space(c));
    }
    for c in ['a', '0', '.', ':', '\x0b', '\u{a0}', '\u{2003}', '\0'] {
        assert!(!char_is_space(c));
    }
}

#[test]
fn lower_casing_is_ascii_only() {
    assert_eq!(to_lower('A'), 'a');
    assert_eq!(to_lower('Z'), 'z');
    assert_eq!(to_lower('m'), 'm');
    assert_eq!(to_lower('@'), '@');
    assert_eq!(to_lower('['), '[');
    assert_eq!(to_lower('0'), '0');
    assert_eq!(to_lower('Ä'), 'Ä');
}

#[test]
fn find_in_a_range() {
    let text = chars("ab.cd.ef");
    assert_eq!(find_in(&text, 0, 8, '.'), 2);
    assert_eq!(find_in(&text, 3, 8, '.'), 5);
    assert_eq!(find_in(&text, 6, 8, '.'), 8);
    assert_eq!(find_in(&text, 0, 2, '.'), 2);
    assert_eq!(find_in(&text, 2, 2, '.'), 2);
    assert_eq!(find_in(&text, 2, 3, '.'), 2);
}

#[test]
fn token_bounds_are_the_maximal_runs() {
    assert_eq!(token_bounds(&chars("")), vec![]);
    assert_eq!(token_bounds(&chars("   ")), vec![]);
    assert_eq!(token_bounds(&chars("a")), vec![(0, 1)]);
    assert_eq!(token_bounds(&chars("ab  cd e")), vec![(0, 2), (4, 6), (7, 8)]);
    assert_eq!(token_bounds(&chars(" \tab\n")), vec![(2, 4)]);
}

#[test]
fn octets() {
    let text = chars("0 7 42 255 256 007 1a 1000");
    assert_eq!(parse_octet(&text, 0, 1), Some(0));
    assert_eq!(parse_octet(&text, 2, 3), Some(7));
    assert_eq!(parse_octet(&text, 4, 6), Some(42));
    assert_eq!(parse_octet(&text, 7, 10), Some(255));
    assert_eq!(parse_octet(&text, 11, 14), None);
    assert_eq!(parse_octet(&text, 15, 18), None);
    assert_eq!(parse_octet(&text, 19, 21), None);
    assert_eq!(parse_octet(&text, 22, 26), None);
    assert_eq!(parse_octet(&text, 3, 3), None);
}

#[test]
fn hex_groups() {
    let text = chars("0 ffff FFFF 0001 12345 g1 aB9");
    assert_eq!(parse_hex_group(&text, 0, 1), Some(0));
    assert_eq!(parse_hex_group(&text, 2, 6), Some(0xffff));
    assert_eq!(parse_hex_group(&text, 7, 11), Some(0xffff));
    assert_eq!(parse_hex_group(&text, 12, 16), Some(1));
    assert_eq!(parse_hex_group(&text, 17, 22), None);
    assert_eq!(parse_hex_group(&text, 23, 25), None);
    assert_eq!(parse_hex_group(&text, 26, 29), Some(0xab9));
    assert_eq!(parse_hex_group(&text, 1, 1), None);
}

#[test]
fn dotted_lists() {
    let text = chars("1.2.3.4.5");
    assert_eq!(parse_dotted(&text, 0, 9), Some(vec![1, 2, 3, 4, 5]));
    assert_eq!(parse_dotted(&text, 0, 7), Some(vec![1, 2, 3, 4]));
    assert_eq!(parse_dotted(&text, 0, 1), Some(vec![1]));
    assert_eq!(parse_dotted(&text, 0, 2), None);
    assert_eq!(parse_dotted(&text, 1, 3), None);
    assert_eq!(parse_dotted(&text, 0, 0), None);
    assert_eq!(parse_ipv4_in(&text, 0, 7), Some(0x0102_0304));
    assert_eq!(parse_ipv4_in(&text, 2, 9), Some(0x0203_0405));
    assert_eq!(parse_ipv4_in(&text, 0, 9), None);
    assert_eq!(parse_ipv4_in(&text, 0, 5), None);
}

#[test]
fn group_lists_and_gaps() {
    let text = chars("1:2::3:1.2.3.4");
    assert_eq!(find_gap_in(&text, 0, 14), 3);
    assert_eq!(find_gap_in(&text, 4, 14), 14);
    assert_eq!(find_gap_in(&text, 0, 4), 4);
    assert_eq!(find_gap_in(&text, 3, 5), 3);
    assert_eq!(parse_groups(&text, 0, 3, false), Some(vec![1, 2]));
    assert_eq!(parse_groups(&text, 5, 14, true), Some(vec![3, 0x0102, 0x0304]));
    assert_eq!(parse_groups(&text, 5, 14, false), None);
    assert_eq!(parse_groups(&text, 0, 6, true), None);
    assert_eq!(parse_groups(&text, 0, 0, true), None);
    assert_eq!(parse_last_groups(&text, 7, 14, true), Some(vec![0x0102, 0x0304]));
    assert_eq!(parse_last_groups(&text, 7, 14, false), None);
    assert_eq!(parse_last_groups(&text, 5, 6, false), Some(vec![3]));
    assert_eq!(parse_ipv6_in(&text, 0, 14), Some(0x0001_0002_0000_0000_0000_0003_0102_0304));
    assert_eq!(parse_ipv6_in(&text, 3, 6), Some(3));
    assert_eq!(parse_ipv6_in(&text, 0, 3), None);
}

#[test]
fn groups_are_packed_highest_first() {
    assert_eq!(
        pack_groups(&vec![1, 2, 3, 4, 5, 6, 7, 8]),
        0x0001_0002_0003_0004_0005_0006_0007_0008
    );
    assert_eq!(pack_groups(&vec![0xffff; 8]), u128::MAX);
    assert_eq!(pack_groups(&vec![0; 8]), 0);
}

#[test]
fn suffix_matching_on_characters() {
    assert!(suffix_matches(&chars("Foo.Example."), &chars("example")));
    assert!(suffix_matches(&chars("foo.example"), &chars("EXAMPLE.")));
    assert!(suffix_matches(&chars("example"), &chars("example.")));
    assert!(suffix_matches(&chars("x"), &chars("")));
    assert!(suffix_matches(&chars(""), &chars(".")));
    assert!(!suffix_matches(&chars("ample."), &chars("example.")));
    assert!(!suffix_matches(&chars("example.org."), &chars("example.")));
}

#[test]
fn endpoint_lists_without_repetitions() {
    let mut list = vec![e(1), e(2)];
    assert!(contains_endpoint(&list, &e(2)));
    assert!(!contains_endpoint(&list, &e(3)));
    push_unique(&mut list, e(2));
    assert_eq!(list, vec![e(1), e(2)]);
    push_unique(&mut list, e(3));
    assert_eq!(list, vec![e(1), e(2), e(3)]);
    extend_with_new(&mut list, &vec![e(3), e(4), e(1), e(4), e(5)]);
    assert_eq!(list, vec![e(1), e(2), e(3), e(4), e(5)]);
    assert_eq!(deduplicate(&vec![e(2), e(1), e(2), e(2), e(3), e(1)]), vec![e(2), e(1), e(3)]);
    assert_eq!(deduplicate(&Vec::new()), Vec::new());
    let once = deduplicate(&vec![e(9), e(8), e(9)]);
    assert_eq!(deduplicate(&once), once);
}

#[test]
fn endpoints_are_equal_when_all_three_parts_are() {
    let base = NameserverEndpoint::new(IpAddress::V4(1), 53, Transport::Udp);
    assert_eq!(base, e(1));
    assert_eq!(NameserverEndpoint::from_lease(IpAddress::V4(1)), e(1));
    assert_ne!(base, NameserverEndpoint::new(IpAddress::V4(2), 53, Transport::Udp));
    assert_ne!(base, NameserverEndpoint::new(IpAddress::V4(1), 54, Transport::Udp));
    assert_ne!(base, NameserverEndpoint::new(IpAddress::V4(1), 53, Transport::Tcp));
    assert_ne!(base, NameserverEndpoint::new(IpAddress::V6(1), 53, Transport::Udp));
    assert!(base.is_ipv4());
    assert!(!NameserverEndpoint::from_lease(IpAddress::V6(1)).is_ipv4());
}
