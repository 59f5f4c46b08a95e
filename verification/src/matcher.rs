//! The identity matcher: DNS wildcard matching, exact DNS comparison with
//! trailing-dot normalization, and byte-exact IP comparison.
//!
//! Matching is byte-level and case-sensitive: no case folding is performed,
//! which is a deliberate tightening compared to some TLS stacks.

use vstd::prelude::*;

use crate::bytes::{bytes_eq, contains_byte, ends_with, find_byte, first_index, lemma_first_index, starts_with};
use crate::ip::IpAddr;

verus! {

/// The dot that separates DNS labels.
pub const DOT: u8 = 46;

/// The wildcard character.
pub const STAR: u8 = 42;

/// The ACE prefix "xn--" that marks an internationalized label.
pub open spec fn ace_prefix() -> Seq<u8> {
    seq![120u8, 110u8, 45u8, 45u8]
}

/// A name with one trailing dot stripped; other names are unchanged.
pub open spec fn strip_trailing_dot(s: Seq<u8>) -> Seq<u8> {
    if s.len() > 0 && s[s.len() - 1] == DOT {
        s.drop_last()
    } else {
        s
    }
}

/// Stripping a trailing dot is idempotent on any name that does not end in
/// two dots: a second pass changes nothing.
pub proof fn lemma_strip_trailing_dot_idempotent(s: Seq<u8>)
    requires
        !(s.len() >= 2 && s[s.len() - 1] == DOT && s[s.len() - 2] == DOT),
    ensures
        strip_trailing_dot(strip_trailing_dot(s)) == strip_trailing_dot(s),
{
    let t = strip_trailing_dot(s);
    if t.len() > 0 && t[t.len() - 1] == DOT {
        assert(s.len() > 0);
        if s[s.len() - 1] == DOT {
            assert(t == s.drop_last());
            assert(t[t.len() - 1] == s[s.len() - 2]);
        }
    }
}

/// Wildcard matching applies only when: the pattern is not an internationalized
/// label, it holds a `*`, it has at least two dots, the `*` sits in its first
/// label, and the hostname has a label boundary of its own.
pub open spec fn wildcard_applicable(p: Seq<u8>, h: Seq<u8>) -> bool {
    &&& !ace_prefix().is_prefix_of(p)
    &&& contains_byte(p, STAR)
    &&& contains_byte(p, DOT)
    &&& contains_byte(p.skip(first_index(p, DOT) + 1), DOT)
    &&& first_index(p, STAR) < first_index(p, DOT)
    &&& contains_byte(h, DOT)
}

/// The wildcard rule itself, for an applicable pattern: the suffixes from the
/// first dot onward agree exactly, and the hostname's first label carries the
/// pattern's literal prefix and suffix around the `*`.
pub open spec fn wildcard_matched(p: Seq<u8>, h: Seq<u8>) -> bool {
    let wloc = first_index(p, STAR);
    let wend = first_index(p, DOT);
    let hend = first_index(h, DOT);
    let prefix = p.subrange(0, wloc);
    let suffix = p.subrange(wloc + 1, wend);
    let hlabel = h.subrange(0, hend);
    &&& p.skip(wend) == h.skip(hend)
    &&& prefix.is_prefix_of(hlabel)
    &&& suffix.is_suffix_of(hlabel.skip(prefix.len() as int))
}

/// What `matches_wildcard` returns: `None` when the wildcard rule is
/// inapplicable (the caller falls back to exact comparison), otherwise the
/// verdict of the wildcard rule.
pub open spec fn spec_matches_wildcard(p: Seq<u8>, h: Seq<u8>) -> Option<bool> {
    if wildcard_applicable(p, h) {
        Some(wildcard_matched(p, h))
    } else {
        None
    }
}

/// What `matches_dns` returns: both names are normalized by stripping one
/// trailing dot, then the wildcard rule decides, falling back to exact
/// byte-for-byte comparison when it is inapplicable.
pub open spec fn spec_matches_dns(p: Seq<u8>, h: Seq<u8>) -> bool {
    match spec_matches_wildcard(strip_trailing_dot(p), strip_trailing_dot(h)) {
        Some(b) => b,
        None => strip_trailing_dot(p) == strip_trailing_dot(h),
    }
}

/// What `matches_ip` returns: the entry's bytes equal the address's canonical
/// octets (4 for v4, 16 for v6); no prefix or CIDR matching.
pub open spec fn spec_matches_ip(expected: IpAddr, actual: Seq<u8>) -> bool {
    actual == expected.octets()
}

/// Applies the wildcard rule of RFC 6125 as this crate states it, returning
/// `None` when the rule is inapplicable and the caller must fall back to an
/// exact comparison.
pub fn matches_wildcard(pattern: &[u8], hostname: &[u8]) -> (r: Option<bool>)
    ensures
        r == spec_matches_wildcard(pattern@, hostname@),
{
    // Internationalized labels are never wildcard-matched.
    let ace: [u8; 4] = [120, 110, 45, 45];
    if starts_with(pattern, ace.as_slice()) {
        proof {
            assert(ace@ =~= ace_prefix());
        }
        return None;
    }
    proof {
        assert(ace@ =~= ace_prefix());
    }

    let wildcard_location = match find_byte(pattern, STAR) {
        Some(l) => l,
        None => {
            return None;
        },
    };

    let wildcard_end = match find_byte(pattern, DOT) {
        Some(l) => l,
        None => {
            return None;
        },
    };
    proof {
        lemma_first_index(pattern@, STAR);
        lemma_first_index(pattern@, DOT);
    }
    let plen: usize = pattern.len();
    proof {
        assert(wildcard_end < plen);
    }

    // A wildcard pattern needs at least two dots: `*.com` never matches.
    let after_first_dot = vstd::slice::slice_subrange(pattern, wildcard_end + 1, plen);
    if find_byte(after_first_dot, DOT).is_none() {
        return None;
    }

    // The wildcard may only sit in the first label.
    if wildcard_location > wildcard_end {
        return None;
    }

    // A hostname without a label boundary is never wildcard-matched.
    let hostname_label_end = match find_byte(hostname, DOT) {
        Some(l) => l,
        None => {
            return None;
        },
    };
    proof {
        lemma_first_index(hostname@, DOT);
    }

    // The parts from the first dot onward must agree exactly.
    let pattern_suffix = vstd::slice::slice_subrange(pattern, wildcard_end, pattern.len());
    let hostname_suffix = vstd::slice::slice_subrange(hostname, hostname_label_end, hostname.len());
    if !bytes_eq(pattern_suffix, hostname_suffix) {
        return Some(false);
    }

    let wildcard_prefix = vstd::slice::slice_subrange(pattern, 0, wildcard_location);
    let wildcard_suffix = vstd::slice::slice_subrange(pattern, wildcard_location + 1, wildcard_end);
    let hostname_label = vstd::slice::slice_subrange(hostname, 0, hostname_label_end);

    // The first label must carry the literal prefix of the wildcard label.
    if !starts_with(hostname_label, wildcard_prefix) {
        return Some(false);
    }

    // And, past that prefix, its literal suffix.
    let label_rest = vstd::slice::slice_subrange(
        hostname_label,
        wildcard_location,
        hostname_label.len(),
    );
    if !ends_with(label_rest, wildcard_suffix) {
        return Some(false);
    }

    Some(true)
}

/// Decides whether a DNS name from a certificate matches the requested
/// hostname: both sides are normalized by stripping one trailing dot, the
/// wildcard rule is applied, and inapplicable patterns fall back to exact
/// case-sensitive comparison.
pub fn matches_dns(pattern: &[u8], hostname: &[u8]) -> (r: bool)
    ensures
        r == spec_matches_dns(pattern@, hostname@),
{
    let pattern = strip_dot(pattern);
    let hostname = strip_dot(hostname);

    match matches_wildcard(pattern, hostname) {
        Some(b) => b,
        None => bytes_eq(pattern, hostname),
    }
}

/// Compares an expected address against a certificate entry's raw bytes:
/// accepted exactly when the bytes equal the address's canonical octets.
pub fn matches_ip(expected: &IpAddr, actual: &[u8]) -> (r: bool)
    ensures
        r == spec_matches_ip(*expected, actual@),
{
    let octets = expected.to_octets();
    bytes_eq(actual, octets.as_slice())
}

/// One trailing dot stripped from a name, as an exec operation.
fn strip_dot(s: &[u8]) -> (r: &[u8])
    ensures
        r@ == strip_trailing_dot(s@),
{
    if s.len() > 0 && s[s.len() - 1] == DOT {
        let r = vstd::slice::slice_subrange(s, 0, s.len() - 1);
        proof {
            assert(r@ =~= s@.drop_last());
        }
        r
    } else {
        s
    }
}

} // verus!
