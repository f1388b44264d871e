//! Texts, addresses, packets and announcements.

use cncnet_server::addr::{is_invalid_source, IpAddr, SocketAddr};
use cncnet_server::announce::{announced_name, byte_length};
use cncnet_server::clock::{saturate, unix_ms, unix_secs, MonotonicClock};
use cncnet_server::digest::is_digest;
use cncnet_server::http::Response;
use cncnet_server::net::tunnel_v2::{TunnelV2, TunnelV2Config};
use cncnet_server::packet::{copy_of, first_bytes, read_be_i16, read_le_u32};
use cncnet_server::stun::{stamp, write_address};
use cncnet_server::table::Table;
use cncnet_server::text::{
    chars_of, has_prefix, parse_unsigned, push_decimal, push_signed_decimal, remove_char,
    same_chars, same_text, split_chars, string_of, tail_of, trim_chars,
};

fn chars(text: &str) -> Vec<char> {
    text.chars().collect()
}

fn heartbeat(name: &str, url: &str) -> Option<String> {
    let mut service = TunnelV2::with_config(TunnelV2Config {
        name: name.to_string(),
        master_server_url: url.to_string(),
        ..TunnelV2Config::default()
    });
    service.send_heartbeat_at(&mut Table::new(), 0)
}

#[test]
fn texts_and_characters() {
    assert_eq!(chars_of("aé€😀"), vec!['a', 'é', '€', '😀']);
    assert_eq!(string_of(&['x', 'é']), "xé");
    assert!(same_text("abc", "abc") && !same_text("abc", "abd") && !same_text("abc", "ab"));
    assert!(same_chars(&['a'], &['a']) && !same_chars(&['a'], &[]));
    assert!(has_prefix(&chars("/maintenance/x"), &chars("/maintenance/")));
    assert!(!has_prefix(&chars("/main"), &chars("/maintenance/")));
    assert_eq!(tail_of(&chars("clients=4"), 8), vec!['4']);
    assert_eq!(remove_char(&chars("a;b;;c"), ';'), chars("abc"));
}

#[test]
fn trimming() {
    for text in ["", " ", "a", " a ", "\t\na b\r\n", "\u{a0}x\u{2003}", "\u{3000}"] {
        assert_eq!(string_of(&trim_chars(&chars(text))), text.trim());
    }
}

#[test]
fn decimal_numbers() {
    let mut text = String::new();
    push_decimal(&mut text, 0);
    text.push(' ');
    push_decimal(&mut text, u64::MAX);
    text.push(' ');
    push_signed_decimal(&mut text, i16::MIN);
    text.push(' ');
    push_signed_decimal(&mut text, 7);
    assert_eq!(text, "0 18446744073709551615 -32768 7");
}

#[test]
fn numbers_are_parsed_as_std_does() {
    for text in ["", "0", "7", "+7", "-7", "+", "007", "18446744073709551615", "18446744073709551616",
        "1 ", " 1", "1x", "++1", "٣", "99999999999999999999999999"] {
        assert_eq!(parse_unsigned(&chars(text), u64::MAX), text.parse::<u64>().ok(), "{}", text);
    }
    assert_eq!(parse_unsigned(&chars("256"), 255), None);
    assert_eq!(parse_unsigned(&chars("255"), 255), Some(255));
}

#[test]
fn splitting_is_as_in_std() {
    for text in ["", "/", "a/b", "/maintenance/pw", "a//b/"] {
        let fields: Vec<String> =
            split_chars(&chars(text), '/').iter().map(|field| string_of(field)).collect();
        let expected: Vec<String> = text.split('/').map(|field| field.to_string()).collect();
        assert_eq!(fields, expected);
    }
}

#[test]
fn packets_are_read() {
    assert_eq!(read_be_i16(0x66, 0x96), 26262);
    assert_eq!(read_be_i16(0xff, 0xfe), -2);
    assert_eq!(read_le_u32(1, 2, 3, 4), 0x04030201);
    assert_eq!(first_bytes(&[1, 2, 3], 2), vec![1, 2]);
    assert_eq!(first_bytes(&[1, 2, 3], 5), vec![1, 2, 3]);
    assert_eq!(copy_of(&[1, 2, 3]), vec![1, 2, 3]);
}

#[test]
fn replies_are_stamped_and_masked() {
    let mut buffer = stamp([0xaa; 40]);
    assert_eq!(buffer[5..9], [0xaa, 0x66, 0x96, 0xaa]);
    write_address(&mut buffer, (1, 2, 3, 0xff), 0x2021);
    assert_eq!(buffer[..9], [0x21, 0x22, 0x23, 0xdf, 0x00, 0x01, 0x66, 0x96, 0xaa]);
}

#[test]
fn addresses_have_keys() {
    for ip in [IpAddr::V4(1, 2, 3, 4), IpAddr::V6(5), IpAddr::V6(u128::MAX)] {
        assert_eq!(IpAddr::from_key(ip.key()), ip);
    }
    assert_ne!(IpAddr::V4(0, 0, 0, 5).key(), IpAddr::V6(5).key());
    assert!(IpAddr::V4(127, 9, 9, 9).is_loopback() && IpAddr::V6(1).is_loopback());
    assert!(IpAddr::V4(0, 0, 0, 0).is_unspecified() && IpAddr::V6(0).is_unspecified());
    assert!(is_invalid_source(&SocketAddr::v4(1, 2, 3, 4, 0)));
    assert!(!is_invalid_source(&SocketAddr::v4(1, 2, 3, 4, 5)));
}

#[test]
fn names_are_cut_at_characters() {
    assert_eq!(announced_name("short"), "short");
    let long = "é".repeat(60);
    assert_eq!(announced_name(&long), "é".repeat(50));
    let uneven = format!("a{}", long);
    assert_eq!(announced_name(&uneven), format!("a{}", "é".repeat(49)));
    assert_eq!(byte_length("aé€😀"), 10);
}

#[test]
fn everything_but_letters_and_digits_is_escaped() {
    assert_eq!(
        heartbeat("a-b.c~é/1", "http://m").unwrap(),
        "http://m?version=2&name=a%2Db%2Ec%7E%C3%A9%2F1&port=50000&clients=0&maxclients=200\
         &masterpw=&maintenance=0"
    );
}

#[test]
fn addresses_that_are_too_long_are_not_requested() {
    assert!(heartbeat("n", &"u".repeat(1900)).is_some());
    assert!(heartbeat("n", &"u".repeat(2001)).is_none());
}

#[test]
fn digests_are_compared() {
    assert!(is_digest(&[4; 20], &[4; 20]));
    assert!(!is_digest(&[4; 19], &[4; 20]));
    assert!(!is_digest(&[5; 20], &[4; 20]));
}

#[test]
fn responses() {
    let empty = Response::empty(404);
    assert_eq!((empty.status, empty.body.as_str()), (404, ""));
    assert!(empty.header.is_none());
    assert_eq!(Response::text(200, "OK").body, "OK");
}

#[test]
fn clocks_move_on() {
    let clock = MonotonicClock::start();
    let before = clock.now_ms();
    assert!(clock.now_ms() >= before);
    assert!(unix_ms() / 1000 <= unix_secs());
    assert!(unix_secs() > 1_600_000_000);
    assert_eq!(saturate(u128::MAX), u64::MAX);
    assert_eq!(saturate(5), 5);
}
