use tls_harden::cert::{Certificate, GeneralName, NameEntry};
use tls_harden::verify::{verify_hostname, verify_subject_alt_names, verify_subject_name};

fn cert_with_san(names: Vec<GeneralName>) -> Certificate {
    Certificate { san: Some(names), subject: vec![] }
}

fn cert_with_cn(cn: &[u8]) -> Certificate {
    Certificate {
        san: None,
        subject: vec![
            NameEntry { common_name: false, data: b"Example Org".to_vec() },
            NameEntry { common_name: true, data: cn.to_vec() },
        ],
    }
}

#[test]
fn san_ip_entry_accepts_matching_ip_domain() {
    let cert = cert_with_san(vec![
        GeneralName::Dns(b"10.0.0.1".to_vec()),
        GeneralName::Ip(vec![10, 0, 0, 1]),
    ]);
    assert!(verify_hostname(b"10.0.0.1", &cert));
}

#[test]
fn san_dns_entries_never_satisfy_ip_domains() {
    // Even a DNS entry spelling the same address text does not count.
    let cert = cert_with_san(vec![GeneralName::Dns(b"10.0.0.1".to_vec())]);
    assert!(!verify_hostname(b"10.0.0.1", &cert));
}

#[test]
fn san_ip_entries_never_satisfy_dns_domains() {
    let cert = cert_with_san(vec![GeneralName::Ip(vec![10, 0, 0, 1])]);
    assert!(!verify_hostname(b"example.com", &cert));
}

#[test]
fn san_ip_comparison_is_canonical_octets() {
    let cert = cert_with_san(vec![GeneralName::Ip(vec![0, 0, 0, 0, 0, 0, 0, 0, 0, 0, 0, 0, 0, 0, 0, 1])]);
    assert!(verify_hostname(b"::1", &cert));
    assert!(verify_hostname(b"0:0:0:0:0:0:0:1", &cert));
    assert!(!verify_hostname(b"::2", &cert));
}

#[test]
fn san_dns_entry_with_wildcard_matches() {
    let cert = cert_with_san(vec![GeneralName::Dns(b"*.example.com".to_vec())]);
    assert!(verify_hostname(b"www.example.com", &cert));
    assert!(!verify_hostname(b"example.com", &cert));
}

#[test]
fn san_is_scanned_in_order_until_a_match() {
    let cert = cert_with_san(vec![
        GeneralName::Other,
        GeneralName::Dns(b"other.test".to_vec()),
        GeneralName::Dns(b"www.example.com".to_vec()),
    ]);
    assert!(verify_hostname(b"www.example.com", &cert));
    assert!(!verify_hostname(b"www.other.test", &cert));
}

#[test]
fn empty_san_never_falls_back_to_cn() {
    // A SAN extension with zero entries still overrides the common name.
    let mut cert = cert_with_cn(b"www.example.com");
    assert!(verify_hostname(b"www.example.com", &cert));
    cert.san = Some(vec![]);
    assert!(!verify_hostname(b"www.example.com", &cert));
}

#[test]
fn san_with_only_unusable_entries_never_falls_back_to_cn() {
    let cert = Certificate {
        san: Some(vec![GeneralName::Other]),
        subject: vec![NameEntry { common_name: true, data: b"www.example.com".to_vec() }],
    };
    assert!(!verify_hostname(b"www.example.com", &cert));
}

#[test]
fn cn_fallback_applies_dns_matching() {
    let cert = cert_with_cn(b"*.example.com");
    assert!(verify_hostname(b"www.example.com", &cert));
    assert!(!verify_hostname(b"example.com", &cert));
}

#[test]
fn cn_fallback_requires_exact_ip_equality() {
    let cert = cert_with_cn(b"10.0.0.1");
    assert!(verify_hostname(b"10.0.0.1", &cert));
    assert!(!verify_hostname(b"10.0.0.2", &cert));
    // No wildcard logic is ever applied to IP text.
    let wild = cert_with_cn(b"*.0.0.1");
    assert!(!verify_hostname(b"10.0.0.1", &wild));
}

#[test]
fn cn_that_is_not_utf8_gives_no_identity() {
    let cert = cert_with_cn(&[0xff, 0xfe, b'a']);
    assert!(!verify_hostname(b"example.com", &cert));
}

#[test]
fn cn_with_valid_utf8_is_matched_bytewise() {
    assert!(verify_subject_name(b"example.com", b"example.com"));
    assert!(!verify_subject_name(b"example.com", b"other.com"));
}

#[test]
fn certificate_without_any_identity_is_rejected() {
    let cert = Certificate { san: None, subject: vec![] };
    assert!(!verify_hostname(b"example.com", &cert));
    let no_cn = Certificate {
        san: None,
        subject: vec![NameEntry { common_name: false, data: b"x".to_vec() }],
    };
    assert!(!verify_hostname(b"example.com", &no_cn));
}

#[test]
fn first_common_name_decides() {
    let cert = Certificate {
        san: None,
        subject: vec![
            NameEntry { common_name: true, data: b"first.test".to_vec() },
            NameEntry { common_name: true, data: b"second.test".to_vec() },
        ],
    };
    assert!(verify_hostname(b"first.test", &cert));
    assert!(!verify_hostname(b"second.test", &cert));
}

#[test]
fn san_scan_helper_agrees_with_whole_verifier() {
    let names = vec![GeneralName::Dns(b"*.example.com".to_vec())];
    assert!(verify_subject_alt_names(b"foo.example.com", &names));
    assert!(!verify_subject_alt_names(b"foo.bar.example.com", &names));
}

#[test]
fn multibyte_utf8_cn_is_accepted_and_matched_bytewise() {
    // "ex\u{e4}mple.com" as UTF-8 bytes.
    let cn = "ex\u{e4}mple.com".as_bytes();
    assert!(verify_subject_name(cn, cn));
    assert!(!verify_subject_name(b"example.com", cn));
}

#[test]
fn surrogate_range_utf8_cn_is_rejected() {
    let cert = Certificate {
        san: None,
        subject: vec![NameEntry { common_name: true, data: vec![0xED, 0xA0, 0x80] }],
    };
    assert!(!verify_hostname(b"example.com", &cert));
}

#[test]
fn overlong_utf8_cn_is_rejected() {
    let cert = Certificate {
        san: None,
        subject: vec![NameEntry { common_name: true, data: vec![0xC0, 0xAF] }],
    };
    assert!(!verify_hostname(b"example.com", &cert));
}

#[test]
fn truncated_utf8_cn_is_rejected() {
    let cert = Certificate {
        san: None,
        subject: vec![NameEntry { common_name: true, data: vec![b'a', 0xC3] }],
    };
    assert!(!verify_hostname(b"example.com", &cert));
}
