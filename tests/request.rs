use dyndns::chars::chars_of;
use dyndns::ip::{ip_literal, ipv4_literal, ipv6_literal};
use dyndns::request::{parse_host_from_query_string, parse_ip_from_query_string};

#[test]
fn valid_host() {
    assert_eq!("test", parse_host_from_query_string("host=test&ip=192.168.100.1&extraparam=garbage"));
}

#[test]
fn valid_ipv4() {
    assert_eq!("192.168.100.1", parse_ip_from_query_string("host=test&ip=192.168.100.1&extraparam=garbage"));
}

#[test]
fn valid_ipv6() {
    assert_eq!("fc00::1", parse_ip_from_query_string("host=test&ip=fc00::1&extraparam=garbage"));
}

#[test]
fn invalid_host() {
    assert_ne!("test123.invalid", parse_host_from_query_string("host=test123.invalid"));
}

#[test]
fn invalid_ipv4() {
    assert_eq!("", parse_ip_from_query_string("ip=999.168.100.1"));
}

#[test]
fn invalid_ipv6() {
    assert_eq!("", parse_ip_from_query_string("ip=fc00:1.1.1.1:1"));
}

#[test]
fn no_host() {
    assert_eq!("", parse_host_from_query_string("ip=1.1.1.1"));
}

#[test]
fn no_ip() {
    assert_eq!("", parse_ip_from_query_string("host=test"));
}

#[test]
fn ipv6_without_trailing_field() {
    assert_eq!("fc00::1", parse_ip_from_query_string("host=test&ip=fc00::1"));
}

#[test]
fn host_stops_at_dot() {
    assert_eq!("test123", parse_host_from_query_string("host=test123.invalid"));
}

#[test]
fn host_of_longest_label() {
    let label = "a".repeat(63);
    let q = format!("host={}&ip=1.2.3.4", label);
    assert_eq!(label, parse_host_from_query_string(&q));
}

#[test]
fn host_over_label_length_is_empty() {
    let q = format!("host={}", "a".repeat(64));
    assert_eq!("", parse_host_from_query_string(&q));
}

#[test]
fn host_skips_empty_field() {
    assert_eq!("b_2", parse_host_from_query_string("host=&host=b_2"));
}

#[test]
fn empty_query_gives_nothing() {
    assert_eq!("", parse_host_from_query_string(""));
    assert_eq!("", parse_ip_from_query_string(""));
}

#[test]
fn address_over_length_is_empty() {
    let q = format!("ip=1.2.3.4{}", ":".repeat(42));
    assert_eq!("", parse_ip_from_query_string(&q));
}

#[test]
fn embedded_ipv4_in_ipv6() {
    assert_eq!("::ffff:10.0.0.1", parse_ip_from_query_string("ip=::ffff:10.0.0.1"));
}

fn lit(s: &str) -> bool {
    ip_literal(&chars_of(s))
}

#[test]
fn ipv4_literals() {
    assert!(ipv4_literal(&chars_of("0.0.0.0")));
    assert!(ipv4_literal(&chars_of("255.255.255.255")));
    assert!(!ipv4_literal(&chars_of("256.1.1.1")));
    assert!(!ipv4_literal(&chars_of("01.1.1.1")));
    assert!(!ipv4_literal(&chars_of("1.1.1")));
    assert!(!ipv4_literal(&chars_of("1.1.1.1.1")));
    assert!(!ipv4_literal(&chars_of("1..1.1")));
}

#[test]
fn ipv6_literals() {
    assert!(ipv6_literal(&chars_of("::")));
    assert!(ipv6_literal(&chars_of("1:2:3:4:5:6:7:8")));
    assert!(ipv6_literal(&chars_of("1:2:3:4:5:6:7::")));
    assert!(ipv6_literal(&chars_of("1:2:3:4:5:6:1.2.3.4")));
    assert!(ipv6_literal(&chars_of("1:2:3:4:5::1.2.3.4")));
    assert!(ipv6_literal(&chars_of("ABCD:ef01::0001")));
    assert!(!ipv6_literal(&chars_of("1:2:3:4:5:6:7::8")));
    assert!(!ipv6_literal(&chars_of("1:2:3:4:5:6::1.2.3.4")));
    assert!(!ipv6_literal(&chars_of("1.2.3.4::")));
    assert!(!ipv6_literal(&chars_of("1::2::3")));
    assert!(!ipv6_literal(&chars_of(":::")));
    assert!(!ipv6_literal(&chars_of("12345::")));
    assert!(!ipv6_literal(&chars_of("1:2:3:4:5:6:7")));
}

#[test]
fn mixed_literals() {
    assert!(lit("1.2.3.4"));
    assert!(lit("::1"));
    assert!(lit("0:0::0:0"));
    assert!(!lit(""));
    assert!(!lit(":"));
    assert!(!lit("1.2.3.04"));
    assert!(!lit("::1.2.3"));
    assert!(!lit("1:2:3:4:5:6:7:8:9"));
}

#[test]
fn host_of_unicode_label() {
    assert_eq!("münchen", parse_host_from_query_string("host=münchen&ip=1.2.3.4"));
    assert_eq!("é", parse_host_from_query_string("host=é&rest"));
    assert_eq!("é", parse_host_from_query_string("host=é"));
}

#[test]
fn unicode_label_length_counts_characters() {
    let label = "é".repeat(63);
    assert_eq!(label, parse_host_from_query_string(&format!("host={}", label)));
    assert_eq!("", parse_host_from_query_string(&format!("host={}", "é".repeat(64))));
}

#[test]
fn host_stops_at_non_word_character() {
    assert_eq!("a", parse_host_from_query_string("host=a-b"));
    assert_eq!("", parse_host_from_query_string("host=-b"));
}
