//! The hostname verifier: decides whether a certificate's identity set
//! satisfies an expected domain.
//!
//! The domain is classified first (an IP reading is attempted before treating
//! it as a DNS name). A SAN sequence is scanned in order: IP domains are
//! compared byte-for-byte against IP entries only, DNS domains against
//! DNS-name entries only — entries of the other kind never count. Without a
//! SAN extension the subject's first common name is the single fallback
//! identity; it must decode as UTF-8, and no wildcard logic is ever applied
//! to IP text.

use vstd::prelude::*;

use crate::bytes::bytes_eq;
use crate::cert::{Certificate, GeneralName, first_cn, is_utf8, utf8_valid};
use crate::ip::{spec_parse_ip, parse_ip};
use crate::matcher::{matches_dns, matches_ip, spec_matches_dns};

verus! {

/// Whether one SAN entry satisfies an IP domain with the given canonical
/// octets.
pub open spec fn entry_matches_ip(e: GeneralName, octets: Seq<u8>) -> bool {
    match e {
        GeneralName::Ip(b) => b@ == octets,
        _ => false,
    }
}

/// Whether one SAN entry satisfies a DNS domain.
pub open spec fn entry_matches_dns(e: GeneralName, domain: Seq<u8>) -> bool {
    match e {
        GeneralName::Dns(p) => spec_matches_dns(p@, domain),
        _ => false,
    }
}

/// Whether a SAN sequence satisfies the domain: some entry of the domain's
/// own address family matches. IP entries are never compared against DNS
/// domains and vice versa.
pub open spec fn san_satisfies(domain: Seq<u8>, names: Seq<GeneralName>) -> bool {
    match spec_parse_ip(domain) {
        Some(octets) => exists|i: int|
            0 <= i < names.len() && entry_matches_ip(names[i], octets),
        None => exists|i: int| 0 <= i < names.len() && entry_matches_dns(names[i], domain),
    }
}

/// Whether the common-name fallback satisfies the domain: the name must be
/// UTF-8; an IP domain requires the name to spell exactly the same address,
/// a DNS domain goes through DNS matching.
pub open spec fn cn_satisfies(domain: Seq<u8>, cn: Seq<u8>) -> bool {
    &&& is_utf8(cn)
    &&& match spec_parse_ip(domain) {
        Some(octets) => spec_parse_ip(cn) == Some(octets),
        None => spec_matches_dns(cn, domain),
    }
}

/// The whole verification policy over the identity model: the SAN sequence
/// decides when the extension is present — even with zero usable entries —
/// and the first common name is consulted only when it is absent; with no
/// identity at all, verification rejects.
pub open spec fn spec_verify_hostname(domain: Seq<u8>, cert: Certificate) -> bool {
    match cert.san {
        Some(names) => san_satisfies(domain, names@),
        None => match first_cn(cert.subject@) {
            Some(cn) => cn_satisfies(domain, cn),
            None => false,
        },
    }
}

/// Scans a SAN sequence for an entry that satisfies the domain, as
/// `san_satisfies` states it.
pub fn verify_subject_alt_names(domain: &[u8], names: &Vec<GeneralName>) -> (r: bool)
    ensures
        r == san_satisfies(domain@, names@),
{
    let ip = parse_ip(domain);
    let n: usize = names.len();
    let mut i: usize = 0;
    while i < n
        invariant
            0 <= i <= n,
            n == names@.len(),
            match ip {
                Some(a) => spec_parse_ip(domain@) == Some(a.octets()),
                None => spec_parse_ip(domain@) is None,
            },
            match spec_parse_ip(domain@) {
                Some(octets) => forall|j: int|
                    0 <= j < i ==> !entry_matches_ip(names@[j], octets),
                None => forall|j: int| 0 <= j < i ==> !entry_matches_dns(names@[j], domain@),
            },
        decreases n - i,
    {
        match &ip {
            Some(addr) => {
                match &names[i] {
                    GeneralName::Ip(actual) => {
                        if matches_ip(addr, actual.as_slice()) {
                            return true;
                        }
                    },
                    _ => {},
                }
            },
            None => {
                match &names[i] {
                    GeneralName::Dns(pattern) => {
                        if matches_dns(pattern.as_slice(), domain) {
                            return true;
                        }
                    },
                    _ => {},
                }
            },
        }
        i = i + 1;
    }
    false
}

/// Applies the common-name fallback, as `cn_satisfies` states it: undecodable
/// text yields no identity, an IP domain requires exact address equality, and
/// DNS matching applies otherwise.
pub fn verify_subject_name(domain: &[u8], cn: &[u8]) -> (r: bool)
    ensures
        r == cn_satisfies(domain@, cn@),
{
    if !utf8_valid(cn) {
        return false;
    }
    match parse_ip(domain) {
        Some(addr) => {
            match parse_ip(cn) {
                Some(pattern) => {
                    let a = addr.to_octets();
                    let b = pattern.to_octets();
                    bytes_eq(a.as_slice(), b.as_slice())
                },
                None => false,
            }
        },
        None => matches_dns(cn, domain),
    }
}

/// Decides whether the certificate's identity set satisfies the domain, as
/// `spec_verify_hostname` states it.
pub fn verify_hostname(domain: &[u8], cert: &Certificate) -> (r: bool)
    ensures
        r == spec_verify_hostname(domain@, *cert),
{
    match cert.subject_alt_names() {
        Some(names) => verify_subject_alt_names(domain, names),
        None => match cert.subject_common_name() {
            Some(cn) => verify_subject_name(domain, cn.as_slice()),
            None => false,
        },
    }
}

/// An IP domain is decided by SAN IP entries alone: a byte-equal IP entry
/// always satisfies it, and without one the whole SAN sequence rejects, no
/// matter which DNS-name entries are present.
pub proof fn lemma_ip_domain_uses_ip_entries_only(
    domain: Seq<u8>,
    cert: Certificate,
    octets: Seq<u8>,
)
    requires
        spec_parse_ip(domain) == Some(octets),
        cert.san is Some,
    ensures
        (exists|i: int|
            0 <= i < cert.san->Some_0@.len() && entry_matches_ip(cert.san->Some_0@[i], octets))
            ==> spec_verify_hostname(domain, cert),
        (forall|i: int|
            0 <= i < cert.san->Some_0@.len() && cert.san->Some_0@[i] is Ip
                ==> cert.san->Some_0@[i]->Ip_0@ != octets) ==> !spec_verify_hostname(domain, cert),
{
    let names = cert.san->Some_0@;
    if forall|i: int| 0 <= i < names.len() && names[i] is Ip ==> names[i]->Ip_0@ != octets {
        assert forall|i: int| 0 <= i < names.len() implies !entry_matches_ip(names[i], octets) by {
            if names[i] is Ip {
                assert(names[i]->Ip_0@ != octets);
            }
        }
    }
}

/// A certificate carrying any SAN extension — even one with zero usable
/// entries — never falls back to the common name: the verification result
/// depends only on the SAN sequence, whatever the subject holds.
pub proof fn lemma_san_overrides_cn(domain: Seq<u8>, a: Certificate, b: Certificate)
    requires
        a.san is Some,
        b.san is Some,
        a.san->Some_0@ == b.san->Some_0@,
    ensures
        spec_verify_hostname(domain, a) == spec_verify_hostname(domain, b),
{
}

/// Verification is a pure decision over the domain and the identity model:
/// two certificates with the same identity data are accepted and rejected
/// alike, whichever contexts they are presented through.
pub proof fn lemma_verification_deterministic(domain: Seq<u8>, a: Certificate, b: Certificate)
    requires
        match (a.san, b.san) {
            (Some(x), Some(y)) => x@ == y@,
            (None, None) => a.subject@ == b.subject@,
            _ => false,
        },
    ensures
        spec_verify_hostname(domain, a) == spec_verify_hostname(domain, b),
{
}

} // verus!
