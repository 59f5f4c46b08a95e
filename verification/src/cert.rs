//! The certificate identity model: exactly the data the hostname verifier
//! reads from a peer certificate, as the low-level certificate parser hands
//! it over — the subject-alternative-name entries, if that extension is
//! present, and the subject's named entries for the common-name fallback.

use vstd::prelude::*;

verus! {

/// One subject-alternative-name entry, tagged by kind. Entries of kinds the
/// verifier never reads (mail addresses, URIs, and so on) appear as `Other`
/// so that their presence alone still counts as a SAN extension.
pub enum GeneralName {
    /// A DNS name pattern, as raw bytes.
    Dns(Vec<u8>),
    /// An IP address in canonical octet form (4 or 16 bytes).
    Ip(Vec<u8>),
    /// An entry of any other kind.
    Other,
}

/// One entry of the subject field: whether it is a common name, and its raw
/// bytes.
pub struct NameEntry {
    /// True for the subject's common-name attribute.
    pub common_name: bool,
    /// The entry's raw bytes, not yet known to be text.
    pub data: Vec<u8>,
}

/// The identity-bearing view of a peer certificate.
///
/// `san` is `Some` exactly when the certificate carries a
/// subject-alternative-name extension — even one with zero usable entries.
/// SAN presence always overrides the common-name fallback; that is a
/// deliberate policy, not an oversight.
pub struct Certificate {
    /// The subject-alternative-name entries, if the extension is present.
    pub san: Option<Vec<GeneralName>>,
    /// The subject field's entries, in order.
    pub subject: Vec<NameEntry>,
}

/// Whether `c` is a UTF-8 continuation byte.
pub open spec fn is_cont(c: u8) -> bool {
    0x80 <= c <= 0xBF
}

/// UTF-8 validity of a byte sequence, by the standard table: ASCII, two-byte
/// sequences from 0xC2, three- and four-byte sequences with their overlong
/// and surrogate ranges excluded.
pub open spec fn is_utf8(s: Seq<u8>) -> bool
    decreases s.len(),
{
    if s.len() == 0 {
        true
    } else {
        let b0 = s[0];
        if b0 < 0x80 {
            is_utf8(s.skip(1))
        } else if 0xC2 <= b0 && b0 <= 0xDF {
            s.len() >= 2 && is_cont(s[1]) && is_utf8(s.skip(2))
        } else if b0 == 0xE0 {
            s.len() >= 3 && 0xA0 <= s[1] && s[1] <= 0xBF && is_cont(s[2]) && is_utf8(s.skip(3))
        } else if b0 == 0xED {
            s.len() >= 3 && 0x80 <= s[1] && s[1] <= 0x9F && is_cont(s[2]) && is_utf8(s.skip(3))
        } else if (0xE1 <= b0 && b0 <= 0xEC) || b0 == 0xEE || b0 == 0xEF {
            s.len() >= 3 && is_cont(s[1]) && is_cont(s[2]) && is_utf8(s.skip(3))
        } else if b0 == 0xF0 {
            s.len() >= 4 && 0x90 <= s[1] && s[1] <= 0xBF && is_cont(s[2]) && is_cont(s[3])
                && is_utf8(s.skip(4))
        } else if 0xF1 <= b0 && b0 <= 0xF3 {
            s.len() >= 4 && is_cont(s[1]) && is_cont(s[2]) && is_cont(s[3]) && is_utf8(s.skip(4))
        } else if b0 == 0xF4 {
            s.len() >= 4 && 0x80 <= s[1] && s[1] <= 0x8F && is_cont(s[2]) && is_cont(s[3])
                && is_utf8(s.skip(4))
        } else {
            false
        }
    }
}

/// Decides UTF-8 validity of `s`, as `is_utf8` states it.
pub fn utf8_valid(s: &[u8]) -> (r: bool)
    ensures
        r == is_utf8(s@),
{
    let n: usize = s.len();
    proof {
        assert(s@.skip(0) =~= s@);
    }
    let mut i: usize = 0;
    while i < n
        invariant
            0 <= i <= n,
            n == s@.len(),
            is_utf8(s@) == is_utf8(s@.skip(i as int)),
        decreases n - i,
    {
        let ghost t = s@.skip(i as int);
        proof {
            assert(t[0] == s@[i as int]);
            assert(t.len() == n - i);
        }
        let b0 = s[i];
        let mut step: usize = 0;
        if b0 < 0x80 {
            step = 1;
        } else if 0xC2 <= b0 && b0 <= 0xDF {
            if n - i < 2 {
                return false;
            }
            proof {
                assert(t[1] == s@[i + 1]);
            }
            if !(0x80 <= s[i + 1] && s[i + 1] <= 0xBF) {
                return false;
            }
            step = 2;
        } else if b0 == 0xE0 || b0 == 0xED || ((0xE1 <= b0 && b0 <= 0xEC) || b0 == 0xEE || b0
            == 0xEF) {
            if n - i < 3 {
                return false;
            }
            proof {
                assert(t[1] == s@[i + 1]);
                assert(t[2] == s@[i + 2]);
            }
            let lo: u8 = if b0 == 0xE0 {
                0xA0
            } else {
                0x80
            };
            let hi: u8 = if b0 == 0xED {
                0x9F
            } else {
                0xBF
            };
            if !(lo <= s[i + 1] && s[i + 1] <= hi) {
                return false;
            }
            if !(0x80 <= s[i + 2] && s[i + 2] <= 0xBF) {
                return false;
            }
            step = 3;
        } else if 0xF0 <= b0 && b0 <= 0xF4 {
            if n - i < 4 {
                return false;
            }
            proof {
                assert(t[1] == s@[i + 1]);
                assert(t[2] == s@[i + 2]);
                assert(t[3] == s@[i + 3]);
            }
            let lo: u8 = if b0 == 0xF0 {
                0x90
            } else {
                0x80
            };
            let hi: u8 = if b0 == 0xF4 {
                0x8F
            } else {
                0xBF
            };
            if !(lo <= s[i + 1] && s[i + 1] <= hi) {
                return false;
            }
            if !(0x80 <= s[i + 2] && s[i + 2] <= 0xBF) {
                return false;
            }
            if !(0x80 <= s[i + 3] && s[i + 3] <= 0xBF) {
                return false;
            }
            step = 4;
        } else {
            return false;
        }
        proof {
            assert(t.skip(step as int) =~= s@.skip(i + step as int));
        }
        i = i + step;
    }
    proof {
        assert(s@.skip(n as int) =~= Seq::<u8>::empty());
    }
    true
}

/// The first common-name entry of a subject, if any.
pub open spec fn first_cn(subject: Seq<NameEntry>) -> Option<Seq<u8>>
    decreases subject.len(),
{
    if subject.len() == 0 {
        None
    } else if subject[0].common_name {
        Some(subject[0].data@)
    } else {
        first_cn(subject.drop_first())
    }
}

impl Certificate {
    /// The subject-alternative-name entries, if the certificate carries the
    /// extension.
    pub fn subject_alt_names(&self) -> (r: &Option<Vec<GeneralName>>)
        ensures
            r == &self.san,
    {
        &self.san
    }

    /// The first common-name entry of the subject field, as `first_cn`
    /// states it.
    pub fn subject_common_name(&self) -> (r: Option<&Vec<u8>>)
        ensures
            match r {
                Some(cn) => first_cn(self.subject@) == Some(cn@),
                None => first_cn(self.subject@) is None,
            },
    {
        let n: usize = self.subject.len();
        proof {
            assert(self.subject@.skip(0) =~= self.subject@);
        }
        let mut i: usize = 0;
        while i < n
            invariant
                0 <= i <= n,
                n == self.subject@.len(),
                first_cn(self.subject@) == first_cn(self.subject@.skip(i as int)),
            decreases n - i,
        {
            let ghost t = self.subject@.skip(i as int);
            proof {
                assert(t[0] == self.subject@[i as int]);
                assert(t.skip(1) =~= self.subject@.skip(i + 1));
            }
            if self.subject[i].common_name {
                return Some(&self.subject[i].data);
            }
            i = i + 1;
        }
        proof {
            assert(self.subject@.skip(n as int) =~= Seq::<NameEntry>::empty());
        }
        None
    }
}

} // verus!
