use tls_harden::matcher::{matches_dns, matches_ip, matches_wildcard};
use tls_harden::ip::IpAddr;

#[test]
fn wildcard_matches_single_label() {
    assert_eq!(matches_wildcard(b"*.example.com", b"foo.example.com"), Some(true));
}

#[test]
fn wildcard_rejects_two_labels() {
    assert_eq!(matches_wildcard(b"*.example.com", b"foo.bar.example.com"), Some(false));
}

#[test]
fn wildcard_not_in_first_label_is_inapplicable() {
    assert_eq!(matches_wildcard(b"foo.*.example.com", b"foo.bar.example.com"), None);
}

#[test]
fn wildcard_needs_two_dots() {
    assert_eq!(matches_wildcard(b"*.com", b"example.com"), None);
}

#[test]
fn wildcard_never_applies_to_ace_labels() {
    assert_eq!(matches_wildcard(b"xn--*.example.com", b"xn--a.example.com"), None);
}

#[test]
fn wildcard_with_literal_prefix_and_suffix() {
    assert_eq!(matches_wildcard(b"f*o.example.com", b"foo.example.com"), Some(true));
    assert_eq!(matches_wildcard(b"f*o.example.com", b"fo.example.com"), Some(true));
    assert_eq!(matches_wildcard(b"f*o.example.com", b"bar.example.com"), Some(false));
    assert_eq!(matches_wildcard(b"f*o.example.com", b"fox.example.com"), Some(false));
}

#[test]
fn wildcard_needs_label_boundary_in_hostname() {
    assert_eq!(matches_wildcard(b"*.example.com", b"localhost"), None);
}

#[test]
fn wildcard_pattern_without_star_is_inapplicable() {
    assert_eq!(matches_wildcard(b"www.example.com", b"www.example.com"), None);
}

#[test]
fn dns_trailing_dot_is_stripped_on_both_sides() {
    assert!(matches_dns(b"example.com.", b"example.com"));
    assert!(matches_dns(b"example.com", b"example.com."));
    assert!(matches_dns(b"example.com.", b"example.com."));
}

#[test]
fn dns_exact_fallback_is_case_sensitive() {
    assert!(matches_dns(b"example.com", b"example.com"));
    assert!(!matches_dns(b"EXAMPLE.com", b"example.com"));
}

#[test]
fn dns_wildcard_does_not_match_bare_base_domain() {
    assert!(!matches_dns(b"*.example.com", b"example.com"));
    assert!(matches_dns(b"*.example.com", b"www.example.com"));
}

#[test]
fn dns_wildcard_verdict_beats_exact_comparison() {
    // Applicable wildcard patterns never fall back to exact comparison.
    assert!(!matches_dns(b"*.example.com", b"*.example.com.extra.example.com"));
}

#[test]
fn ip_comparison_is_byte_exact() {
    let v4 = IpAddr::V4([10, 0, 0, 1]);
    assert!(matches_ip(&v4, &[10, 0, 0, 1]));
    assert!(!matches_ip(&v4, &[10, 0, 0, 2]));
    assert!(!matches_ip(&v4, &[10, 0, 0]));
    let v6 = IpAddr::V6([0, 0, 0, 0, 0, 0, 0, 0, 0, 0, 0, 0, 0, 0, 0, 1]);
    assert!(matches_ip(&v6, &[0, 0, 0, 0, 0, 0, 0, 0, 0, 0, 0, 0, 0, 0, 0, 1]));
    assert!(!matches_ip(&v6, &[10, 0, 0, 1]));
}
