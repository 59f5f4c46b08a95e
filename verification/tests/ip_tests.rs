use tls_harden::ip::{IpAddr, parse_ip};

fn v4(s: &str) -> Option<[u8; 4]> {
    match parse_ip(s.as_bytes()) {
        Some(IpAddr::V4(a)) => Some(a),
        _ => None,
    }
}

fn v6(s: &str) -> Option<[u8; 16]> {
    match parse_ip(s.as_bytes()) {
        Some(IpAddr::V6(a)) => Some(a),
        _ => None,
    }
}

#[test]
fn parses_plain_v4() {
    assert_eq!(v4("127.0.0.1"), Some([127, 0, 0, 1]));
    assert_eq!(v4("0.0.0.0"), Some([0, 0, 0, 0]));
    assert_eq!(v4("255.255.255.255"), Some([255, 255, 255, 255]));
    assert_eq!(v4("10.0.0.1"), Some([10, 0, 0, 1]));
}

#[test]
fn rejects_malformed_v4() {
    assert!(parse_ip(b"256.0.0.1").is_none());
    assert!(parse_ip(b"01.2.3.4").is_none());
    assert!(parse_ip(b"1.2.3").is_none());
    assert!(parse_ip(b"1.2.3.4.5").is_none());
    assert!(parse_ip(b"1.2.3.4 ").is_none());
    assert!(parse_ip(b"1..3.4").is_none());
    assert!(parse_ip(b"1234.0.0.1").is_none());
    assert!(parse_ip(b"").is_none());
    assert!(parse_ip(b"example.com").is_none());
}

#[test]
fn parses_loopback_v6() {
    assert_eq!(v6("::1"), Some([0, 0, 0, 0, 0, 0, 0, 0, 0, 0, 0, 0, 0, 0, 0, 1]));
    assert_eq!(v6("::"), Some([0; 16]));
}

#[test]
fn parses_full_and_compressed_v6() {
    assert_eq!(
        v6("1:2:3:4:5:6:7:8"),
        Some([0, 1, 0, 2, 0, 3, 0, 4, 0, 5, 0, 6, 0, 7, 0, 8])
    );
    assert_eq!(
        v6("2001:db8::8a2e:370:7334"),
        Some([0x20, 0x01, 0x0d, 0xb8, 0, 0, 0, 0, 0, 0, 0x8a, 0x2e, 0x03, 0x70, 0x73, 0x34])
    );
    assert_eq!(
        v6("1:2:3:4:5:6:7::"),
        Some([0, 1, 0, 2, 0, 3, 0, 4, 0, 5, 0, 6, 0, 7, 0, 0])
    );
    assert_eq!(
        v6("::2:3:4:5:6:7:8"),
        Some([0, 0, 0, 2, 0, 3, 0, 4, 0, 5, 0, 6, 0, 7, 0, 8])
    );
    assert_eq!(
        v6("ABCD:ef01::1"),
        Some([0xab, 0xcd, 0xef, 0x01, 0, 0, 0, 0, 0, 0, 0, 0, 0, 0, 0, 1])
    );
}

#[test]
fn parses_v6_with_embedded_v4() {
    assert_eq!(
        v6("::ffff:192.168.0.1"),
        Some([0, 0, 0, 0, 0, 0, 0, 0, 0, 0, 0xff, 0xff, 192, 168, 0, 1])
    );
    assert_eq!(
        v6("1:2:3:4:5:6:77.77.88.88"),
        Some([0, 1, 0, 2, 0, 3, 0, 4, 0, 5, 0, 6, 77, 77, 88, 88])
    );
}

#[test]
fn rejects_malformed_v6() {
    assert!(parse_ip(b"1::2::3").is_none());
    assert!(parse_ip(b":::").is_none());
    assert!(parse_ip(b":1:2:3:4:5:6:7").is_none());
    assert!(parse_ip(b"1:2:3:4:5:6:7:8:9").is_none());
    assert!(parse_ip(b"1:2:3:4:5:6:7:8::").is_none());
    assert!(parse_ip(b"12345::").is_none());
    assert!(parse_ip(b"1:2:3:4:5:6:7").is_none());
    assert!(parse_ip(b"::ffff:192.168.0.1.2").is_none());
    assert!(parse_ip(b"g::1").is_none());
}

#[test]
fn v4_reading_wins_over_v6() {
    // Dotted-decimal text is classified as v4, never as v6.
    assert!(matches!(parse_ip(b"192.168.0.1"), Some(IpAddr::V4(_))));
}

#[test]
fn octets_round_trip() {
    let ip = parse_ip(b"10.20.30.40").unwrap();
    assert_eq!(ip.to_octets(), vec![10u8, 20, 30, 40]);
    let ip6 = parse_ip(b"ff02::5").unwrap();
    assert_eq!(
        ip6.to_octets(),
        vec![0xffu8, 0x02, 0, 0, 0, 0, 0, 0, 0, 0, 0, 0, 0, 0, 0, 5]
    );
}
