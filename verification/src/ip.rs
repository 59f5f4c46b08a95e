//! The address model used for identity matching: an IP address held as its
//! canonical octets, and a parser that classifies domain text as v4, v6 or
//! not an address at all.
//!
//! The grammar is the usual textual one: dotted decimal octets without leading
//! zeros for v4; colon-separated groups of up to four hex digits for v6, with
//! at most one `::` run standing for one or more zero groups and an optional
//! embedded v4 tail taking the place of the last two groups.

use vstd::prelude::*;

verus! {

/// The dot between v4 octets.
pub const IP_DOT: u8 = 46;

/// The colon between v6 groups.
pub const COLON: u8 = 58;

/// An IP address in canonical octet form: 4 bytes for v4, 16 for v6.
#[derive(Clone, Copy, Debug)]
pub enum IpAddr {
    V4([u8; 4]),
    V6([u8; 16]),
}

impl IpAddr {
    /// The canonical octet sequence of the address.
    pub open spec fn octets(self) -> Seq<u8> {
        match self {
            IpAddr::V4(a) => a@,
            IpAddr::V6(a) => a@,
        }
    }

    /// The canonical octets as a vector.
    pub fn to_octets(&self) -> (r: Vec<u8>)
        ensures
            r@ == self.octets(),
    {
        match self {
            IpAddr::V4(a) => {
                let mut v: Vec<u8> = Vec::new();
                let mut i: usize = 0;
                while i < 4
                    invariant
                        0 <= i <= 4,
                        v@ == a@.subrange(0, i as int),
                    decreases 4 - i,
                {
                    v.push(a[i]);
                    proof {
                        assert(v@ =~= a@.subrange(0, i + 1 as int));
                    }
                    i = i + 1;
                }
                proof {
                    assert(a@.subrange(0, 4) =~= a@);
                }
                v
            },
            IpAddr::V6(a) => {
                let mut v: Vec<u8> = Vec::new();
                let mut i: usize = 0;
                while i < 16
                    invariant
                        0 <= i <= 16,
                        v@ == a@.subrange(0, i as int),
                    decreases 16 - i,
                {
                    v.push(a[i]);
                    proof {
                        assert(v@ =~= a@.subrange(0, i + 1 as int));
                    }
                    i = i + 1;
                }
                proof {
                    assert(a@.subrange(0, 16) =~= a@);
                }
                v
            },
        }
    }
}

/// Whether `c` is a digit of the given radix (10 or 16; hex accepts both
/// cases).
pub open spec fn is_digit_radix(c: u8, radix: int) -> bool {
    ||| 48 <= c <= 57
    ||| (radix == 16 && (97 <= c <= 102 || 65 <= c <= 70))
}

/// The numeric value of a digit.
pub open spec fn digit_val(c: u8) -> int {
    if 48 <= c <= 57 {
        c - 48
    } else if 97 <= c <= 102 {
        c - 87
    } else if 65 <= c <= 70 {
        c - 55
    } else {
        0
    }
}

/// Length of the maximal leading digit run of `s`.
pub open spec fn run_len(s: Seq<u8>, radix: int) -> int
    decreases s.len(),
{
    if s.len() == 0 || !is_digit_radix(s[0], radix) {
        0
    } else {
        1 + run_len(s.drop_first(), radix)
    }
}

/// Value of the first `k` digits of `s`, read most significant first.
pub open spec fn run_val(s: Seq<u8>, k: int, radix: int) -> int
    decreases k,
{
    if k <= 0 {
        0
    } else {
        run_val(s, k - 1, radix) * radix + digit_val(s[k - 1])
    }
}

/// `radix^k` for small exponents.
pub open spec fn radix_pow(radix: int, k: int) -> int
    decreases k,
{
    if k <= 0 {
        1
    } else {
        radix * radix_pow(radix, k - 1)
    }
}

/// A run of digits ends exactly where the digits end.
pub proof fn lemma_run_len_is(s: Seq<u8>, radix: int, i: int)
    requires
        0 <= i <= s.len(),
        forall|j: int| 0 <= j < i ==> is_digit_radix(s[j], radix),
        i == s.len() || !is_digit_radix(s[i], radix),
    ensures
        run_len(s, radix) == i,
    decreases s.len(),
{
    if s.len() == 0 {
    } else if i == 0 {
    } else {
        assert(is_digit_radix(s[0], radix));
        let t = s.drop_first();
        assert forall|j: int| 0 <= j < i - 1 implies is_digit_radix(t[j], radix) by {
            assert(t[j] == s[j + 1]);
        }
        if i - 1 < t.len() {
            assert(t[i - 1] == s[i as int]);
        }
        lemma_run_len_is(t, radix, i - 1);
    }
}

/// A prefix of digits bounds the run length from below.
pub proof fn lemma_run_len_ge(s: Seq<u8>, radix: int, i: int)
    requires
        0 <= i <= s.len(),
        forall|j: int| 0 <= j < i ==> is_digit_radix(s[j], radix),
    ensures
        run_len(s, radix) >= i,
    decreases s.len(),
{
    if i > 0 {
        assert(is_digit_radix(s[0], radix));
        let t = s.drop_first();
        assert forall|j: int| 0 <= j < i - 1 implies is_digit_radix(t[j], radix) by {
            assert(t[j] == s[j + 1]);
        }
        lemma_run_len_ge(t, radix, i - 1);
        assert(run_len(s, radix) == 1 + run_len(t, radix));
    } else {
        if s.len() > 0 && is_digit_radix(s[0], radix) {
            lemma_run_len_ge(s.drop_first(), radix, 0);
        }
    }
}

/// The value of a `k`-digit run lies below `radix^k`.
pub proof fn lemma_run_val_bound(s: Seq<u8>, k: int, radix: int)
    requires
        0 <= k <= s.len(),
        radix == 10 || radix == 16,
        forall|j: int| 0 <= j < k ==> is_digit_radix(s[j], radix),
    ensures
        0 <= run_val(s, k, radix) < radix_pow(radix, k),
    decreases k,
{
    if k > 0 {
        lemma_run_val_bound(s, k - 1, radix);
        assert(digit_val(s[k - 1]) < radix);
        assert(run_val(s, k - 1, radix) * radix <= (radix_pow(radix, k - 1) - 1) * radix
            && run_val(s, k - 1, radix) * radix >= 0) by (nonlinear_arith)
            requires
                0 <= run_val(s, k - 1, radix) <= radix_pow(radix, k - 1) - 1,
                radix > 0,
        ;
    }
}

/// A decimal octet at the head of `s`: its value and the bytes consumed.
/// Fails on an empty run, more than three digits, a leading zero, or a value
/// above 255.
pub open spec fn parse_octet(s: Seq<u8>) -> Option<(int, int)> {
    let k = run_len(s, 10);
    if k == 0 || k > 3 {
        None
    } else if k > 1 && s[0] == 48 {
        None
    } else {
        let v = run_val(s, k, 10);
        if v > 255 {
            None
        } else {
            Some((v, k))
        }
    }
}

/// A dot followed by a decimal octet at the head of `s`.
pub open spec fn parse_dot_octet(s: Seq<u8>) -> Option<(int, int)> {
    if s.len() > 0 && s[0] == IP_DOT {
        match parse_octet(s.skip(1)) {
            Some((v, k)) => Some((v, k + 1)),
            None => None,
        }
    } else {
        None
    }
}

/// A dotted-decimal v4 address at the head of `s`: its four octet values and
/// the bytes consumed.
pub open spec fn parse_v4_prefix(s: Seq<u8>) -> Option<(Seq<int>, int)> {
    match parse_octet(s) {
        None => None,
        Some((a, ka)) => match parse_dot_octet(s.skip(ka)) {
            None => None,
            Some((b, kb)) => match parse_dot_octet(s.skip(ka + kb)) {
                None => None,
                Some((c, kc)) => match parse_dot_octet(s.skip(ka + kb + kc)) {
                    None => None,
                    Some((d, kd)) => Some((seq![a, b, c, d], ka + kb + kc + kd)),
                },
            },
        },
    }
}

/// The digits a run length counts really are digits.
pub proof fn lemma_run_digits(s: Seq<u8>, radix: int)
    ensures
        0 <= run_len(s, radix) <= s.len(),
        forall|j: int| 0 <= j < run_len(s, radix) ==> is_digit_radix(s[j], radix),
    decreases s.len(),
{
    if s.len() > 0 && is_digit_radix(s[0], radix) {
        let t = s.drop_first();
        lemma_run_digits(t, radix);
        assert forall|j: int| 0 <= j < run_len(s, radix) implies is_digit_radix(s[j], radix) by {
            if j > 0 {
                assert(t[j - 1] == s[j]);
            }
        }
    }
}

/// The canonical decimal digits of a value below 1000, without leading zeros.
pub open spec fn dec_digits(n: int) -> Seq<u8> {
    if n < 10 {
        seq![(48 + n) as u8]
    } else if n < 100 {
        seq![(48 + n / 10) as u8, (48 + n % 10) as u8]
    } else {
        seq![(48 + n / 100) as u8, (48 + (n / 10) % 10) as u8, (48 + n % 10) as u8]
    }
}

/// The canonical dotted-decimal text of four octet values.
pub open spec fn v4_text(a: int, b: int, c: int, d: int) -> Seq<u8> {
    dec_digits(a) + seq![IP_DOT] + dec_digits(b) + seq![IP_DOT] + dec_digits(c) + seq![IP_DOT]
        + dec_digits(d)
}

/// An accepted octet run is exactly the canonical decimal rendering of its
/// value: the grammar admits no leading zeros and no second spelling.
pub proof fn lemma_octet_text(s: Seq<u8>)
    requires
        parse_octet(s) is Some,
    ensures
        1 <= parse_octet(s)->Some_0.1 <= 3,
        parse_octet(s)->Some_0.1 <= s.len(),
        0 <= parse_octet(s)->Some_0.0 <= 255,
        s.take(parse_octet(s)->Some_0.1) == dec_digits(parse_octet(s)->Some_0.0),
{
    let k = run_len(s, 10);
    let v = run_val(s, k, 10);
    lemma_run_digits(s, 10);
    assert(1 <= k <= 3);
    lemma_run_val_bound(s, k, 10);
    if k == 1 {
        assert(run_val(s, 0, 10) == 0);
        assert(run_val(s, 1, 10) == run_val(s, 0, 10) * 10 + digit_val(s[0]));
        assert(s.take(1) =~= dec_digits(v));
    } else if k == 2 {
        let d0 = digit_val(s[0]);
        let d1 = digit_val(s[1]);
        assert(run_val(s, 0, 10) == 0);
        assert(run_val(s, 1, 10) == run_val(s, 0, 10) * 10 + digit_val(s[0]));
        assert(run_val(s, 2, 10) == run_val(s, 1, 10) * 10 + digit_val(s[1]));
        assert(v == d0 * 10 + d1);
        if s[0] == 48 {
            assert(parse_octet(s) is None);
        }
        assert(s[0] != 48);
        assert(1 <= d0 <= 9 && 0 <= d1 <= 9);
        assert(v / 10 == d0 && v % 10 == d1) by (nonlinear_arith)
            requires
                v == d0 * 10 + d1,
                1 <= d0 <= 9,
                0 <= d1 <= 9,
        ;
        assert(s.take(2) =~= dec_digits(v));
    } else {
        let d0 = digit_val(s[0]);
        let d1 = digit_val(s[1]);
        let d2 = digit_val(s[2]);
        assert(run_val(s, 0, 10) == 0);
        assert(run_val(s, 1, 10) == run_val(s, 0, 10) * 10 + digit_val(s[0]));
        assert(run_val(s, 2, 10) == run_val(s, 1, 10) * 10 + digit_val(s[1]));
        assert(run_val(s, 3, 10) == run_val(s, 2, 10) * 10 + digit_val(s[2]));
        assert(v == (d0 * 10 + d1) * 10 + d2);
        if s[0] == 48 {
            assert(parse_octet(s) is None);
        }
        assert(s[0] != 48);
        assert(1 <= d0 <= 9 && 0 <= d1 <= 9 && 0 <= d2 <= 9);
        assert(v / 100 == d0 && (v / 10) % 10 == d1 && v % 10 == d2) by (nonlinear_arith)
            requires
                v == (d0 * 10 + d1) * 10 + d2,
                1 <= d0 <= 9,
                0 <= d1 <= 9,
                0 <= d2 <= 9,
        ;
        assert(s.take(3) =~= dec_digits(v));
    }
}

/// An accepted dot-and-octet element is exactly a dot followed by the
/// canonical rendering of its value.
pub proof fn lemma_dot_octet_text(s: Seq<u8>)
    requires
        parse_dot_octet(s) is Some,
    ensures
        2 <= parse_dot_octet(s)->Some_0.1 <= 4,
        parse_dot_octet(s)->Some_0.1 <= s.len(),
        0 <= parse_dot_octet(s)->Some_0.0 <= 255,
        s.take(parse_dot_octet(s)->Some_0.1) == seq![IP_DOT] + dec_digits(
            parse_dot_octet(s)->Some_0.0,
        ),
{
    let (v, k) = parse_dot_octet(s)->Some_0;
    let t = s.skip(1);
    lemma_octet_text(t);
    assert forall|i: int| 0 <= i < k implies s.take(k)[i] == (seq![IP_DOT] + dec_digits(v))[i] by {
        if i > 0 {
            assert(t.take(k - 1)[i - 1] == t[i - 1]);
            assert(t[i - 1] == s[i]);
            assert(dec_digits(v)[i - 1] == t.take(k - 1)[i - 1]);
        }
    }
    assert(s.take(k) =~= seq![IP_DOT] + dec_digits(v));
}

/// One element consumed: taking `x + y` bytes is taking `x`, then `y` more
/// past them.
pub proof fn lemma_take_split(s: Seq<u8>, x: int, y: int)
    requires
        0 <= x,
        0 <= y,
        x + y <= s.len(),
    ensures
        s.take(x + y) == s.take(x) + s.skip(x).take(y),
{
    assert(s.take(x + y) =~= s.take(x) + s.skip(x).take(y));
}

/// An accepted v4 prefix is exactly the canonical dotted-decimal text of its
/// four octets.
pub proof fn lemma_v4_prefix_text(s: Seq<u8>)
    requires
        parse_v4_prefix(s) is Some,
    ensures
        parse_v4_prefix(s)->Some_0.1 <= s.len(),
        forall|j: int| 0 <= j < 4 ==> 0 <= #[trigger] parse_v4_prefix(s)->Some_0.0[j] <= 255,
        s.take(parse_v4_prefix(s)->Some_0.1) == v4_text(
            parse_v4_prefix(s)->Some_0.0[0],
            parse_v4_prefix(s)->Some_0.0[1],
            parse_v4_prefix(s)->Some_0.0[2],
            parse_v4_prefix(s)->Some_0.0[3],
        ),
{
    let (a, ka) = parse_octet(s)->Some_0;
    let (b, kb) = parse_dot_octet(s.skip(ka))->Some_0;
    let (c, kc) = parse_dot_octet(s.skip(ka + kb))->Some_0;
    let (d, kd) = parse_dot_octet(s.skip(ka + kb + kc))->Some_0;
    let used = ka + kb + kc + kd;
    lemma_octet_text(s);
    lemma_dot_octet_text(s.skip(ka));
    assert(ka + kb <= s.len()) by {
        assert(s.skip(ka).len() == s.len() - ka);
    }
    assert(s.skip(ka).skip(kb) =~= s.skip(ka + kb));
    lemma_dot_octet_text(s.skip(ka + kb));
    assert(ka + kb + kc <= s.len()) by {
        assert(s.skip(ka + kb).len() == s.len() - ka - kb);
    }
    assert(s.skip(ka + kb).skip(kc) =~= s.skip(ka + kb + kc));
    lemma_dot_octet_text(s.skip(ka + kb + kc));
    assert(used <= s.len()) by {
        assert(s.skip(ka + kb + kc).len() == s.len() - ka - kb - kc);
    }
    lemma_take_split(s, ka + kb + kc, kd);
    lemma_take_split(s, ka + kb, kc);
    lemma_take_split(s, ka, kb);
    assert(s.take(used) == s.take(ka) + s.skip(ka).take(kb) + s.skip(ka + kb).take(kc) + s.skip(
        ka + kb + kc,
    ).take(kd));
    assert(s.take(used) =~= v4_text(a, b, c, d));
}

/// Two sequences agreeing on their first `k` elements carry the same run
/// value.
proof fn lemma_run_val_congruence(s: Seq<u8>, t: Seq<u8>, k: int, radix: int)
    requires
        forall|j: int| 0 <= j < k ==> s[j] == t[j],
    ensures
        run_val(s, k, radix) == run_val(t, k, radix),
    decreases k,
{
    if k > 0 {
        lemma_run_val_congruence(s, t, k - 1, radix);
        assert(s[k - 1] == t[k - 1]);
    }
}

/// The canonical rendering of an octet value: one to three decimal digits,
/// no leading zero, spelling the value back.
proof fn lemma_dec_digits_props(n: int)
    requires
        0 <= n <= 255,
    ensures
        1 <= dec_digits(n).len() <= 3,
        forall|j: int| 0 <= j < dec_digits(n).len() ==> is_digit_radix(#[trigger] dec_digits(n)[j], 10),
        dec_digits(n).len() > 1 ==> dec_digits(n)[0] != 48,
        run_val(dec_digits(n), dec_digits(n).len() as int, 10) == n,
{
    let d = dec_digits(n);
    assert(run_val(d, 0, 10) == 0);
    if n < 10 {
        assert(run_val(d, 1, 10) == run_val(d, 0, 10) * 10 + digit_val(d[0]));
    } else if n < 100 {
        assert(run_val(d, 1, 10) == run_val(d, 0, 10) * 10 + digit_val(d[0]));
        assert(run_val(d, 2, 10) == run_val(d, 1, 10) * 10 + digit_val(d[1]));
        assert(digit_val(d[0]) == n / 10);
        assert(digit_val(d[1]) == n % 10);
        assert((n / 10) * 10 + n % 10 == n);
    } else {
        assert(run_val(d, 1, 10) == run_val(d, 0, 10) * 10 + digit_val(d[0]));
        assert(run_val(d, 2, 10) == run_val(d, 1, 10) * 10 + digit_val(d[1]));
        assert(run_val(d, 3, 10) == run_val(d, 2, 10) * 10 + digit_val(d[2]));
        assert(digit_val(d[0]) == n / 100);
        assert(digit_val(d[1]) == (n / 10) % 10);
        assert(digit_val(d[2]) == n % 10);
        assert(n / 10 == (n / 100) * 10 + (n / 10) % 10) by {
            assert(n / 10 / 10 == n / 100) by (nonlinear_arith)
                requires
                    100 <= n <= 255,
            ;
            assert((n / 10) / 10 * 10 + (n / 10) % 10 == n / 10);
        }
        assert((n / 10) * 10 + n % 10 == n);
    }
}

/// An octet value's canonical digits at the head of a text, bounded by a
/// non-digit or the end, parse back to the value.
proof fn lemma_octet_parses(s: Seq<u8>, n: int, rest: Seq<u8>)
    requires
        0 <= n <= 255,
        s == dec_digits(n) + rest,
        rest.len() == 0 || !is_digit_radix(rest[0], 10),
    ensures
        parse_octet(s) == Some((n, dec_digits(n).len() as int)),
{
    let d = dec_digits(n);
    let k = d.len() as int;
    lemma_dec_digits_props(n);
    assert forall|j: int| 0 <= j < k implies s[j] == d[j] by {
        assert(s[j] == (d + rest)[j]);
    }
    if k < s.len() {
        assert(s[k] == rest[0]);
    }
    lemma_run_len_is(s, 10, k);
    lemma_run_val_congruence(s, d, k, 10);
}

/// A dot and an octet value's canonical digits at the head of a text parse
/// back to the value, consuming the dot.
proof fn lemma_dot_octet_parses(s: Seq<u8>, n: int, rest: Seq<u8>)
    requires
        0 <= n <= 255,
        s == seq![IP_DOT] + dec_digits(n) + rest,
        rest.len() == 0 || !is_digit_radix(rest[0], 10),
    ensures
        parse_dot_octet(s) == Some((n, 1 + dec_digits(n).len() as int)),
{
    assert(s[0] == IP_DOT);
    assert(s.skip(1) =~= dec_digits(n) + rest);
    lemma_octet_parses(s.skip(1), n, rest);
}

/// The canonical dotted-decimal text of any four octet values parses back to
/// exactly those octets: with `lemma_v4_domain_is_canonical_text`, the v4
/// domains are precisely the canonical renderings.
#[verifier::rlimit(80)]
pub proof fn lemma_v4_text_parses(a: int, b: int, c: int, d: int)
    requires
        0 <= a <= 255,
        0 <= b <= 255,
        0 <= c <= 255,
        0 <= d <= 255,
    ensures
        spec_parse_ip(v4_text(a, b, c, d)) == Some(seq![a as u8, b as u8, c as u8, d as u8]),
{
    let ta = dec_digits(a);
    let tb = dec_digits(b);
    let tc = dec_digits(c);
    let td = dec_digits(d);
    lemma_dec_digits_props(a);
    lemma_dec_digits_props(b);
    lemma_dec_digits_props(c);
    lemma_dec_digits_props(d);
    let s3 = seq![IP_DOT] + td + Seq::<u8>::empty();
    let s2 = seq![IP_DOT] + tc + s3;
    let s1 = seq![IP_DOT] + tb + s2;
    let s = v4_text(a, b, c, d);
    assert(s =~= ta + s1);
    let ka = ta.len() as int;
    let kb = 1 + tb.len() as int;
    let kc = 1 + tc.len() as int;
    let kd = 1 + td.len() as int;

    assert(s1[0] == IP_DOT);
    lemma_octet_parses(s, a, s1);

    assert(s.skip(ka) =~= s1);
    assert(s2[0] == IP_DOT);
    lemma_dot_octet_parses(s1, b, s2);

    assert(s.skip(ka + kb) =~= s1.skip(kb));
    assert(s1.skip(kb) =~= s2);
    assert(s3[0] == IP_DOT);
    lemma_dot_octet_parses(s2, c, s3);

    assert(s.skip(ka + kb + kc) =~= s2.skip(kc));
    assert(s2.skip(kc) =~= s3);
    lemma_dot_octet_parses(s3, d, Seq::<u8>::empty());

    assert(parse_v4_prefix(s) == Some((seq![a, b, c, d], ka + kb + kc + kd)));
    assert(ka + kb + kc + kd == s.len());
    assert(seq![a, b, c, d][0] == a && seq![a, b, c, d][1] == b && seq![a, b, c, d][2] == c
        && seq![a, b, c, d][3] == d);
}

/// A domain classified as a v4 address spells exactly the canonical
/// dotted-decimal text of the octets it yields.
#[verifier::rlimit(80)]
pub proof fn lemma_v4_domain_is_canonical_text(s: Seq<u8>)
    requires
        spec_parse_ip(s) is Some,
        spec_parse_ip(s)->Some_0.len() == 4,
    ensures
        s == v4_text(
            spec_parse_ip(s)->Some_0[0] as int,
            spec_parse_ip(s)->Some_0[1] as int,
            spec_parse_ip(s)->Some_0[2] as int,
            spec_parse_ip(s)->Some_0[3] as int,
        ),
{
    if parse_v4_prefix(s) is Some && parse_v4_prefix(s)->Some_0.1 == s.len() {
        lemma_v4_prefix_text(s);
        assert(s.take(s.len() as int) =~= s);
        let oct = parse_v4_prefix(s)->Some_0.0;
        assert(0 <= oct[0] <= 255 && 0 <= oct[1] <= 255 && 0 <= oct[2] <= 255 && 0 <= oct[3]
            <= 255);
        assert((oct[0] as u8) as int == oct[0]);
    } else {
        lemma_v6_is_sixteen_bytes(s);
    }
}

/// A v6 reading always yields sixteen bytes.
pub proof fn lemma_v6_is_sixteen_bytes(s: Seq<u8>)
    requires
        spec_parse_v6(s) is Some,
    ensures
        spec_parse_v6(s)->Some_0.len() == 16,
{
    let head = parse_group_run(s, 0, 8);
    lemma_group_run_count(s, 0, 8);
    if head.0.len() == 8 && head.1 == s.len() {
        lemma_groups_to_bytes_len(head.0 + Seq::new(0, |i: int| 0int) + Seq::<int>::empty());
    } else {
        assert(head.0.len() != 8);
        let t = s.skip(head.1).skip(2);
        let tail = parse_group_run(t, 0, 7 - head.0.len());
        lemma_group_run_count(t, 0, 7 - head.0.len());
        lemma_groups_to_bytes_len(
            head.0 + Seq::new((8 - head.0.len() - tail.0.len()) as nat, |i: int| 0int) + tail.0,
        );
    }
}

/// A group run never yields more groups than its cap allows.
pub proof fn lemma_group_run_count(s: Seq<u8>, i: int, limit: int)
    requires
        0 <= i <= limit,
    ensures
        parse_group_run(s, i, limit).0.len() <= limit - i,
    decreases limit - i,
{
    if i < limit && !(i > 0 && (s.len() == 0 || s[0] != COLON)) {
        let sep: int = if i == 0 {
            0
        } else {
            1
        };
        let t = s.skip(sep);
        let v4 = if i + 2 <= limit {
            parse_v4_prefix(t)
        } else {
            None
        };
        match v4 {
            Some(_) => {},
            None => match parse_group(t) {
                None => {},
                Some((g, used)) => {
                    lemma_group_run_count(s.skip(sep + used), i + 1, limit);
                },
            },
        }
    }
}

/// The byte count of a group sequence.
pub proof fn lemma_groups_to_bytes_len(gs: Seq<int>)
    ensures
        groups_to_bytes(gs).len() == 2 * gs.len(),
    decreases gs.len(),
{
    if gs.len() > 0 {
        lemma_groups_to_bytes_len(gs.drop_first());
    }
}

/// A hex group at the head of `s`: its value and the bytes consumed. Fails on
/// an empty run or more than four digits; leading zeros are allowed.
pub open spec fn parse_group(s: Seq<u8>) -> Option<(int, int)> {
    let k = run_len(s, 16);
    if k == 0 || k > 4 {
        None
    } else {
        Some((run_val(s, k, 16), k))
    }
}

/// A maximal run of colon-separated v6 groups starting at group position `i`
/// of a run capped at `limit` groups: the group values, the bytes consumed,
/// and whether the run ended in an embedded v4 address (which fills two group
/// slots and ends the run). Positions after the first expect a leading colon;
/// a failed element ends the run without consuming its separator.
pub open spec fn parse_group_run(s: Seq<u8>, i: int, limit: int) -> (Seq<int>, int, bool)
    decreases limit - i,
{
    if i >= limit {
        (seq![], 0, false)
    } else if i > 0 && (s.len() == 0 || s[0] != COLON) {
        (seq![], 0, false)
    } else {
        let sep: int = if i == 0 {
            0
        } else {
            1
        };
        let t = s.skip(sep);
        let v4 = if i + 2 <= limit {
            parse_v4_prefix(t)
        } else {
            None
        };
        match v4 {
            Some((oct, used)) => (
                seq![oct[0] * 256 + oct[1], oct[2] * 256 + oct[3]],
                sep + used,
                true,
            ),
            None => match parse_group(t) {
                None => (seq![], 0, false),
                Some((g, used)) => {
                    let rest = parse_group_run(s.skip(sep + used), i + 1, limit);
                    (seq![g] + rest.0, sep + used + rest.1, rest.2)
                },
            },
        }
    }
}

/// The canonical big-endian bytes of a group sequence.
pub open spec fn groups_to_bytes(gs: Seq<int>) -> Seq<u8>
    decreases gs.len(),
{
    if gs.len() == 0 {
        seq![]
    } else {
        seq![(gs[0] / 256) as u8, (gs[0] % 256) as u8] + groups_to_bytes(gs.drop_first())
    }
}

/// The sixteen v6 bytes assembled from a head run, the zero groups a `::`
/// stands for, and a tail run.
pub open spec fn v6_bytes(head: Seq<int>, tail: Seq<int>) -> Seq<u8> {
    groups_to_bytes(head + Seq::new((8 - head.len() - tail.len()) as nat, |i: int| 0int) + tail)
}

/// A v6 address: either eight plain groups, or a head run, one `::`, and a
/// tail run with at most seven groups between them; the whole text must be
/// consumed.
pub open spec fn spec_parse_v6(s: Seq<u8>) -> Option<Seq<u8>> {
    let head = parse_group_run(s, 0, 8);
    if head.0.len() == 8 {
        if head.1 == s.len() {
            Some(v6_bytes(head.0, seq![]))
        } else {
            None
        }
    } else if head.2 {
        None
    } else {
        let r = s.skip(head.1);
        if r.len() >= 2 && r[0] == COLON && r[1] == COLON {
            let t = r.skip(2);
            let tail = parse_group_run(t, 0, 7 - head.0.len());
            if tail.1 == t.len() {
                Some(v6_bytes(head.0, tail.0))
            } else {
                None
            }
        } else {
            None
        }
    }
}

/// Classification of domain text: the canonical octets of the address it
/// spells (4 bytes for v4, 16 for v6), or `None` when it is not an address.
/// A v4 reading is attempted first.
pub open spec fn spec_parse_ip(s: Seq<u8>) -> Option<Seq<u8>> {
    match parse_v4_prefix(s) {
        Some((oct, used)) => {
            if used == s.len() {
                Some(seq![oct[0] as u8, oct[1] as u8, oct[2] as u8, oct[3] as u8])
            } else {
                spec_parse_v6(s)
            }
        },
        None => spec_parse_v6(s),
    }
}

/// The small powers of ten and sixteen that digit runs can reach.
proof fn lemma_radix_pow_values()
    ensures
        radix_pow(10, 1) == 10,
        radix_pow(10, 2) == 100,
        radix_pow(10, 3) == 1000,
        radix_pow(16, 1) == 16,
        radix_pow(16, 2) == 256,
        radix_pow(16, 3) == 4096,
        radix_pow(16, 4) == 65536,
{
    assert(radix_pow(10, 0) == 1);
    assert(radix_pow(10, 1) == 10);
    assert(radix_pow(10, 2) == 100);
    assert(radix_pow(10, 3) == 1000);
    assert(radix_pow(16, 0) == 1);
    assert(radix_pow(16, 1) == 16);
    assert(radix_pow(16, 2) == 256);
    assert(radix_pow(16, 3) == 4096);
    assert(radix_pow(16, 4) == 65536);
}

/// Whether `c` is a digit of the requested radix.
fn is_digit_exec(c: u8, hex: bool) -> (r: bool)
    ensures
        r == is_digit_radix(c, if hex { 16int } else { 10int }),
{
    (48 <= c && c <= 57) || (hex && ((97 <= c && c <= 102) || (65 <= c && c <= 70)))
}

/// The numeric value of a digit.
fn digit_value_exec(c: u8) -> (r: u8)
    requires
        is_digit_radix(c, 16),
    ensures
        r as int == digit_val(c),
{
    if c <= 57 {
        c - 48
    } else if c >= 97 {
        c - 87
    } else {
        c - 55
    }
}

/// Length of the leading digit run at `pos`, capped at `limit`.
fn scan_run(s: &[u8], pos: usize, hex: bool, limit: usize) -> (k: usize)
    requires
        pos <= s@.len(),
    ensures
        ({
            let t = s@.skip(pos as int);
            let radix: int = if hex { 16 } else { 10 };
            &&& k <= limit
            &&& pos + k <= s@.len()
            &&& (forall|j: int| 0 <= j < k ==> is_digit_radix(t[j], radix))
            &&& (k < limit ==> run_len(t, radix) == k)
            &&& (k == limit ==> run_len(t, radix) >= limit)
        }),
{
    let ghost t = s@.skip(pos as int);
    let ghost radix: int = if hex {
        16int
    } else {
        10int
    };
    let n: usize = s.len();
    let mut k: usize = 0;
    while k < limit
        invariant
            pos <= s@.len(),
            k <= limit,
            pos + k <= s@.len(),
            n == s@.len(),
            t == s@.skip(pos as int),
            radix == if hex { 16int } else { 10int },
            forall|j: int| 0 <= j < k ==> is_digit_radix(t[j], radix),
        decreases limit - k,
    {
        if pos + k >= n {
            proof {
                lemma_run_len_is(t, radix, k as int);
            }
            return k;
        }
        let c = s[pos + k];
        proof {
            assert(t[k as int] == s@[pos + k]);
        }
        if !is_digit_exec(c, hex) {
            proof {
                lemma_run_len_is(t, radix, k as int);
            }
            return k;
        }
        k = k + 1;
    }
    proof {
        lemma_run_len_ge(t, radix, k as int);
    }
    k
}

/// The value of the `k`-digit run at `pos`.
fn read_run_val(s: &[u8], pos: usize, k: usize, hex: bool) -> (v: u32)
    requires
        pos + k <= s@.len(),
        hex ==> k <= 4,
        !hex ==> k <= 3,
        forall|j: int|
            0 <= j < k ==> is_digit_radix(
                s@.skip(pos as int)[j],
                if hex { 16int } else { 10int },
            ),
    ensures
        v as int == run_val(s@.skip(pos as int), k as int, if hex { 16int } else { 10int }),
        v < 65536,
{
    let ghost t = s@.skip(pos as int);
    let ghost radix: int = if hex {
        16int
    } else {
        10int
    };
    let base: u32 = if hex {
        16
    } else {
        10
    };
    let n: usize = s.len();
    let mut v: u32 = 0;
    let mut j: usize = 0;
    while j < k
        invariant
            j <= k,
            pos + k <= s@.len(),
            n == s@.len(),
            t == s@.skip(pos as int),
            radix == if hex { 16int } else { 10int },
            base == radix,
            hex ==> k <= 4,
            !hex ==> k <= 3,
            forall|i: int| 0 <= i < k ==> is_digit_radix(t[i], radix),
            v as int == run_val(t, j as int, radix),
            v < 65536,
        decreases k - j,
    {
        proof {
            assert(t[j as int] == s@[pos + j]);
            lemma_run_val_bound(t, j + 1 as int, radix);
            lemma_radix_pow_values();
            if hex {
                if j + 1 == 1 {
                    assert(radix_pow(radix, j + 1 as int) == 16);
                } else if j + 1 == 2 {
                    assert(radix_pow(radix, j + 1 as int) == 256);
                } else if j + 1 == 3 {
                    assert(radix_pow(radix, j + 1 as int) == 4096);
                } else {
                    assert(radix_pow(radix, j + 1 as int) == 65536);
                }
            } else {
                if j + 1 == 1 {
                    assert(radix_pow(radix, j + 1 as int) == 10);
                } else if j + 1 == 2 {
                    assert(radix_pow(radix, j + 1 as int) == 100);
                } else {
                    assert(radix_pow(radix, j + 1 as int) == 1000);
                }
            }
        }
        let d = digit_value_exec(s[pos + j]);
        v = v * base + d as u32;
        j = j + 1;
    }
    v
}

/// A decimal octet at `pos`, as `parse_octet` states it.
fn read_octet_at(s: &[u8], pos: usize) -> (r: Option<(u8, usize)>)
    requires
        pos <= s@.len(),
    ensures
        ({
            let t = s@.skip(pos as int);
            match r {
                Some((v, k)) => parse_octet(t) == Some((v as int, k as int)) && pos + k
                    <= s@.len() && k >= 1,
                None => parse_octet(t) is None,
            }
        }),
{
    let ghost t = s@.skip(pos as int);
    let k = scan_run(s, pos, false, 4);
    if k == 0 {
        return None;
    }
    if k == 4 {
        return None;
    }
    if k > 1 && s[pos] == 48 {
        proof {
            assert(t[0] == s@[pos as int]);
        }
        return None;
    }
    proof {
        assert(t[0] == s@[pos as int]);
    }
    let v = read_run_val(s, pos, k, false);
    if v > 255 {
        return None;
    }
    Some((v as u8, k))
}

/// A dot and a decimal octet at `pos`, as `parse_dot_octet` states it.
fn read_dot_octet_at(s: &[u8], pos: usize) -> (r: Option<(u8, usize)>)
    requires
        pos <= s@.len(),
    ensures
        ({
            let t = s@.skip(pos as int);
            match r {
                Some((v, k)) => parse_dot_octet(t) == Some((v as int, k as int)) && pos + k
                    <= s@.len() && k >= 2,
                None => parse_dot_octet(t) is None,
            }
        }),
{
    let ghost t = s@.skip(pos as int);
    if pos >= s.len() || s[pos] != IP_DOT {
        if pos < s.len() {
            proof {
                assert(t[0] == s@[pos as int]);
            }
        }
        return None;
    }
    proof {
        assert(t[0] == s@[pos as int]);
        assert(t.skip(1) =~= s@.skip(pos + 1 as int));
    }
    match read_octet_at(s, pos + 1) {
        Some((v, k)) => Some((v, k + 1)),
        None => None,
    }
}

/// A dotted-decimal v4 address at `pos`, as `parse_v4_prefix` states it.
fn read_v4_at(s: &[u8], pos: usize) -> (r: Option<([u8; 4], usize)>)
    requires
        pos <= s@.len(),
    ensures
        ({
            let t = s@.skip(pos as int);
            match r {
                Some((oct, used)) => parse_v4_prefix(t) == Some(
                    (seq![oct[0] as int, oct[1] as int, oct[2] as int, oct[3] as int], used as int),
                ) && pos + used <= s@.len(),
                None => parse_v4_prefix(t) is None,
            }
        }),
{
    let ghost t = s@.skip(pos as int);
    let n: usize = s.len();
    let (a, ka) = match read_octet_at(s, pos) {
        Some(x) => x,
        None => {
            return None;
        },
    };
    proof {
        assert(t.skip(ka as int) =~= s@.skip(pos + ka as int));
    }
    let (b, kb) = match read_dot_octet_at(s, pos + ka) {
        Some(x) => x,
        None => {
            return None;
        },
    };
    proof {
        assert(t.skip(ka + kb as int) =~= s@.skip(pos + ka + kb as int));
    }
    let (c, kc) = match read_dot_octet_at(s, pos + ka + kb) {
        Some(x) => x,
        None => {
            return None;
        },
    };
    proof {
        assert(t.skip(ka + kb + kc as int) =~= s@.skip(pos + ka + kb + kc as int));
    }
    let (d, kd) = match read_dot_octet_at(s, pos + ka + kb + kc) {
        Some(x) => x,
        None => {
            return None;
        },
    };
    Some(([a, b, c, d], ka + kb + kc + kd))
}

/// A hex group at `pos`, as `parse_group` states it.
fn read_group_at(s: &[u8], pos: usize) -> (r: Option<(u16, usize)>)
    requires
        pos <= s@.len(),
    ensures
        ({
            let t = s@.skip(pos as int);
            match r {
                Some((g, k)) => parse_group(t) == Some((g as int, k as int)) && pos + k <= s@.len()
                    && k >= 1,
                None => parse_group(t) is None,
            }
        }),
{
    let k = scan_run(s, pos, true, 5);
    if k == 0 {
        return None;
    }
    if k == 5 {
        return None;
    }
    let v = read_run_val(s, pos, k, true);
    Some((v as u16, k))
}

/// A maximal group run at `pos`, as `parse_group_run` states it.
#[verifier::rlimit(60)]
fn read_group_run(s: &[u8], pos: usize, i: usize, limit: usize) -> (r: (Vec<u16>, usize, bool))
    requires
        pos <= s@.len(),
        i <= limit,
        limit <= 8,
    ensures
        ({
            let g = parse_group_run(s@.skip(pos as int), i as int, limit as int);
            &&& r.0@.map_values(|x: u16| x as int) == g.0
            &&& r.1 as int == g.1
            &&& r.2 == g.2
            &&& pos + r.1 <= s@.len()
            &&& r.0@.len() + i <= limit
        }),
    decreases limit - i,
{
    let ghost t = s@.skip(pos as int);
    let n: usize = s.len();
    if i >= limit {
        let empty: Vec<u16> = Vec::new();
        proof {
            assert(empty@.map_values(|x: u16| x as int) =~= Seq::<int>::empty());
        }
        return (empty, 0, false);
    }
    if i > 0 && (pos >= s.len() || s[pos] != COLON) {
        if pos < s.len() {
            proof {
                assert(t[0] == s@[pos as int]);
            }
        }
        let empty: Vec<u16> = Vec::new();
        proof {
            assert(empty@.map_values(|x: u16| x as int) =~= Seq::<int>::empty());
        }
        return (empty, 0, false);
    }
    let sep: usize = if i == 0 {
        0
    } else {
        1
    };
    proof {
        if i > 0 {
            assert(t[0] == s@[pos as int]);
        }
        assert(t.skip(sep as int) =~= s@.skip(pos + sep as int));
    }
    if i + 2 <= limit {
        match read_v4_at(s, pos + sep) {
            Some((oct, used)) => {
                let g1: u16 = oct[0] as u16 * 256 + oct[1] as u16;
                let g2: u16 = oct[2] as u16 * 256 + oct[3] as u16;
                let mut v: Vec<u16> = Vec::new();
                v.push(g1);
                v.push(g2);
                proof {
                    assert(v@.map_values(|x: u16| x as int) =~= seq![
                        oct[0] as int * 256 + oct[1] as int,
                        oct[2] as int * 256 + oct[3] as int,
                    ]);
                }
                return (v, sep + used, true);
            },
            None => {},
        }
    }
    match read_group_at(s, pos + sep) {
        None => {
            let empty: Vec<u16> = Vec::new();
            proof {
                assert(empty@.map_values(|x: u16| x as int) =~= Seq::<int>::empty());
            }
            (empty, 0, false)
        },
        Some((g, used)) => {
            proof {
                assert(s@.skip(pos + sep as int).skip(used as int) =~= s@.skip(
                    pos + sep + used as int,
                ));
                assert(t.skip(sep + used as int) =~= s@.skip(pos + sep + used as int));
            }
            let rest = read_group_run(s, pos + sep + used, i + 1, limit);
            let mut v = rest.0;
            let consumed = rest.1;
            let v4end = rest.2;
            v.insert(0, g);
            proof {
                let gspec = parse_group_run(t, i as int, limit as int);
                assert(v@.map_values(|x: u16| x as int) =~= gspec.0);
            }
            (v, sep + used + consumed, v4end)
        },
    }
}

/// The sixteen bytes of a v6 address from its head and tail runs.
fn assemble_v6(head: &Vec<u16>, tail: &Vec<u16>) -> (r: [u8; 16])
    requires
        head@.len() + tail@.len() <= 8,
    ensures
        r@ == v6_bytes(
            head@.map_values(|x: u16| x as int),
            tail@.map_values(|x: u16| x as int),
        ),
{
    let mut all: Vec<u16> = Vec::new();
    let mut i: usize = 0;
    while i < head.len()
        invariant
            i <= head@.len(),
            all@ == head@.subrange(0, i as int),
        decreases head@.len() - i,
    {
        all.push(head[i]);
        proof {
            assert(all@ =~= head@.subrange(0, i + 1 as int));
        }
        i = i + 1;
    }
    proof {
        assert(head@.subrange(0, head@.len() as int) =~= head@);
    }
    let zeros: usize = 8 - head.len() - tail.len();
    let mut z: usize = 0;
    while z < zeros
        invariant
            z <= zeros,
            all@ == head@ + Seq::new(z as nat, |k: int| 0u16),
        decreases zeros - z,
    {
        all.push(0);
        proof {
            assert(all@ =~= head@ + Seq::new((z + 1) as nat, |k: int| 0u16));
        }
        z = z + 1;
    }
    let mut j: usize = 0;
    while j < tail.len()
        invariant
            j <= tail@.len(),
            all@ == head@ + Seq::new(zeros as nat, |k: int| 0u16) + tail@.subrange(0, j as int),
            zeros == 8 - head@.len() - tail@.len(),
        decreases tail@.len() - j,
    {
        all.push(tail[j]);
        proof {
            assert(all@ =~= head@ + Seq::new(zeros as nat, |k: int| 0u16) + tail@.subrange(
                0,
                j + 1 as int,
            ));
        }
        j = j + 1;
    }
    proof {
        assert(tail@.subrange(0, tail@.len() as int) =~= tail@);
    }
    let r: [u8; 16] = [
        (all[0] / 256) as u8,
        (all[0] % 256) as u8,
        (all[1] / 256) as u8,
        (all[1] % 256) as u8,
        (all[2] / 256) as u8,
        (all[2] % 256) as u8,
        (all[3] / 256) as u8,
        (all[3] % 256) as u8,
        (all[4] / 256) as u8,
        (all[4] % 256) as u8,
        (all[5] / 256) as u8,
        (all[5] % 256) as u8,
        (all[6] / 256) as u8,
        (all[6] % 256) as u8,
        (all[7] / 256) as u8,
        (all[7] % 256) as u8,
    ];
    proof {
        let full = head@.map_values(|x: u16| x as int) + Seq::new(
            (8 - head@.len() - tail@.len()) as nat,
            |k: int| 0int,
        ) + tail@.map_values(|x: u16| x as int);
        let gm = all@.map_values(|x: u16| x as int);
        assert(gm =~= full);
        lemma_groups_to_bytes_index(gm);
        assert forall|b: int| 0 <= b < 16 implies r@[b] == groups_to_bytes(gm)[b] by {
            assert(groups_to_bytes(gm)[b] == (if b % 2 == 0 {
                (gm[b / 2] / 256) as u8
            } else {
                (gm[b / 2] % 256) as u8
            }));
            assert(gm[b / 2] == all@[b / 2] as int);
        }
        assert(r@ =~= groups_to_bytes(gm));
    }
    r
}

/// `groups_to_bytes` laid out index by index: byte `2i` is the high half of
/// group `i` and byte `2i + 1` its low half.
proof fn lemma_groups_to_bytes_index(gs: Seq<int>)
    ensures
        groups_to_bytes(gs).len() == 2 * gs.len(),
        forall|b: int|
            0 <= b < 2 * gs.len() ==> #[trigger] groups_to_bytes(gs)[b] == (if b % 2 == 0 {
                (gs[b / 2] / 256) as u8
            } else {
                (gs[b / 2] % 256) as u8
            }),
    decreases gs.len(),
{
    if gs.len() > 0 {
        let rest = gs.drop_first();
        lemma_groups_to_bytes_index(rest);
        assert forall|b: int| 0 <= b < 2 * gs.len() implies #[trigger] groups_to_bytes(gs)[b] == (
        if b % 2 == 0 {
            (gs[b / 2] / 256) as u8
        } else {
            (gs[b / 2] % 256) as u8
        }) by {
            if b >= 2 {
                assert(groups_to_bytes(gs)[b] == groups_to_bytes(rest)[b - 2]);
                assert((b - 2) / 2 == b / 2 - 1 && (b - 2) % 2 == b % 2);
                assert(rest[b / 2 - 1] == gs[b / 2]);
            }
        }
    }
}

/// A v6 address read from the whole of `s`, as `spec_parse_v6` states it.
pub fn parse_ipv6(s: &[u8]) -> (r: Option<[u8; 16]>)
    ensures
        match r {
            Some(a) => spec_parse_v6(s@) == Some(a@),
            None => spec_parse_v6(s@) is None,
        },
{
    proof {
        assert(s@.skip(0) =~= s@);
    }
    let head = read_group_run(s, 0, 0, 8);
    let hlen = head.0.len();
    let hused = head.1;
    proof {
        assert(head.0@.map_values(|x: u16| x as int).len() == head.0@.len());
    }
    if hlen == 8 {
        if hused == s.len() {
            let empty: Vec<u16> = Vec::new();
            let arr = assemble_v6(&head.0, &empty);
            proof {
                assert(empty@.map_values(|x: u16| x as int) =~= Seq::<int>::empty());
            }
            return Some(arr);
        } else {
            return None;
        }
    }
    if head.2 {
        return None;
    }
    if s.len() - hused >= 2 {
        let c0 = s[hused];
        let c1 = s[hused + 1];
        proof {
            assert(s@.skip(hused as int)[0] == s@[hused as int]);
            assert(s@.skip(hused as int)[1] == s@[hused + 1 as int]);
        }
        if c0 == COLON && c1 == COLON {
            proof {
                assert(s@.skip(hused as int).skip(2) =~= s@.skip(hused + 2 as int));
            }
            let tail = read_group_run(s, hused + 2, 0, 7 - hlen);
            if hused + 2 + tail.1 == s.len() {
                let arr = assemble_v6(&head.0, &tail.0);
                return Some(arr);
            } else {
                return None;
            }
        } else {
            return None;
        }
    }
    None
}

/// Classifies domain text, returning the address it spells, if any; a v4
/// reading is attempted before a v6 one.
pub fn parse_ip(s: &[u8]) -> (r: Option<IpAddr>)
    ensures
        match r {
            Some(ip) => spec_parse_ip(s@) == Some(ip.octets()),
            None => spec_parse_ip(s@) is None,
        },
{
    proof {
        assert(s@.skip(0) =~= s@);
    }
    match read_v4_at(s, 0) {
        Some((oct, used)) => {
            if used == s.len() {
                proof {
                    assert(oct@ =~= seq![
                        (oct[0] as int) as u8,
                        (oct[1] as int) as u8,
                        (oct[2] as int) as u8,
                        (oct[3] as int) as u8,
                    ]);
                }
                return Some(IpAddr::V4(oct));
            }
        },
        None => {},
    }
    match parse_ipv6(s) {
        Some(arr) => Some(IpAddr::V6(arr)),
        None => None,
    }
}

} // verus!
