//! The cipher-list model: a selection string of colon-separated suite names,
//! `!`-prefixed entries being exclusions, with membership and the
//! server-preference choice among the suites a client offers.

use vstd::prelude::*;

use crate::bytes::{bytes_eq, contains_byte, find_byte, first_index, lemma_first_index};

verus! {

/// The separator between suite names.
pub const CIPHER_SEP: u8 = 58;

/// The exclusion marker.
pub const CIPHER_NOT: u8 = 33;

/// Whether `name` stands in `list` as a plain (non-exclusion) entry.
pub open spec fn spec_cipher_listed(list: Seq<u8>, name: Seq<u8>) -> bool
    decreases list.len(),
{
    if contains_byte(list, CIPHER_SEP) {
        let k = first_index(list, CIPHER_SEP);
        if 0 <= k < list.len() {
            token_is(list.take(k), name) || spec_cipher_listed(list.skip(k + 1), name)
        } else {
            token_is(list.take(k), name)
        }
    } else {
        token_is(list, name)
    }
}

/// Whether one token names the suite: equal bytes and no exclusion marker.
pub open spec fn token_is(token: Seq<u8>, name: Seq<u8>) -> bool {
    token == name && !(token.len() > 0 && token[0] == CIPHER_NOT)
}

/// The suite a server with this list picks from a client's offer, preferring
/// its own order: the first plain entry of `list` that the offer carries.
pub open spec fn spec_negotiate(list: Seq<u8>, offered: Seq<Seq<u8>>) -> Option<Seq<u8>>
    decreases list.len(),
{
    if contains_byte(list, CIPHER_SEP) {
        let k = first_index(list, CIPHER_SEP);
        if 0 <= k < list.len() {
            if token_offered(list.take(k), offered) {
                Some(list.take(k))
            } else {
                spec_negotiate(list.skip(k + 1), offered)
            }
        } else {
            None
        }
    } else {
        if token_offered(list, offered) {
            Some(list)
        } else {
            None
        }
    }
}

/// Whether a token is a plain entry that the offer carries.
pub open spec fn token_offered(token: Seq<u8>, offered: Seq<Seq<u8>>) -> bool {
    &&& !(token.len() > 0 && token[0] == CIPHER_NOT)
    &&& exists|i: int| 0 <= i < offered.len() && offered[i] == token
}

/// A negotiated suite is a plain entry of the server's own list and stands
/// in the client's offer.
pub proof fn lemma_negotiate_picks_from_list(list: Seq<u8>, offered: Seq<Seq<u8>>)
    requires
        spec_negotiate(list, offered) is Some,
    ensures
        spec_cipher_listed(list, spec_negotiate(list, offered)->Some_0),
        offered.contains(spec_negotiate(list, offered)->Some_0),
    decreases list.len(),
{
    let c = spec_negotiate(list, offered)->Some_0;
    if contains_byte(list, CIPHER_SEP) {
        let k = first_index(list, CIPHER_SEP);
        lemma_first_index(list, CIPHER_SEP);
        if token_offered(list.take(k), offered) {
        } else {
            lemma_negotiate_picks_from_list(list.skip(k + 1), offered);
        }
    }
}

/// A server refuses an offer exactly when no offered suite is a plain entry
/// of its list: rejection for a list that shares nothing with the offer, and
/// a pick whenever it shares something.
pub proof fn lemma_negotiate_refuses_only_unlisted(
    list: Seq<u8>,
    offered: Seq<Seq<u8>>,
    c: Seq<u8>,
)
    requires
        spec_negotiate(list, offered) is None,
        spec_cipher_listed(list, c),
    ensures
        !offered.contains(c),
    decreases list.len(),
{
    if offered.contains(c) {
        if contains_byte(list, CIPHER_SEP) {
            let k = first_index(list, CIPHER_SEP);
            lemma_first_index(list, CIPHER_SEP);
            if token_is(list.take(k), c) {
                assert(token_offered(list.take(k), offered)) by {
                    let w = choose|i: int| 0 <= i < offered.len() && offered[i] == c;
                    assert(offered[w] == list.take(k));
                }
            } else {
                lemma_negotiate_refuses_only_unlisted(list.skip(k + 1), offered, c);
            }
        } else {
            assert(token_is(list, c));
            assert(token_offered(list, offered)) by {
                let w = choose|i: int| 0 <= i < offered.len() && offered[i] == c;
                assert(offered[w] == list);
            }
        }
    }
}

/// Whether the offer carries `token` (byte-for-byte).
fn offer_contains(offered: &Vec<Vec<u8>>, token: &[u8]) -> (r: bool)
    ensures
        r == exists|i: int|
            0 <= i < offered@.len() && offered@[i]@ == token@,
{
    let n: usize = offered.len();
    let mut i: usize = 0;
    while i < n
        invariant
            0 <= i <= n,
            n == offered@.len(),
            forall|j: int| 0 <= j < i ==> offered@[j]@ != token@,
        decreases n - i,
    {
        if bytes_eq(offered[i].as_slice(), token) {
            return true;
        }
        i = i + 1;
    }
    false
}

/// Whether `name` stands in `list` as a plain entry, as `spec_cipher_listed`
/// states it.
pub fn cipher_listed(list: &[u8], name: &[u8]) -> (r: bool)
    ensures
        r == spec_cipher_listed(list@, name@),
{
    let n: usize = list.len();
    proof {
        assert(list@.skip(0) =~= list@);
    }
    let mut pos: usize = 0;
    while pos <= n
        invariant
            0 <= pos <= n + 1,
            n == list@.len(),
            pos <= n,
            spec_cipher_listed(list@, name@) == spec_cipher_listed(list@.skip(pos as int), name@),
        decreases n - pos + 1,
    {
        let rest = vstd::slice::slice_subrange(list, pos, n);
        let ghost t = list@.skip(pos as int);
        proof {
            assert(rest@ =~= t);
        }
        match find_byte(rest, CIPHER_SEP) {
            Some(k) => {
                proof {
                    lemma_first_index(t, CIPHER_SEP);
                }
                let token = vstd::slice::slice_subrange(rest, 0, k);
                proof {
                    assert(token@ =~= t.take(k as int));
                }
                let hit = bytes_eq(token, name);
                if hit && (token.len() == 0 || token[0] != CIPHER_NOT) {
                    return true;
                }
                proof {
                    assert(t.skip(k + 1) =~= list@.skip(pos + k + 1));
                }
                pos = pos + k + 1;
            },
            None => {
                let hit = bytes_eq(rest, name);
                return hit && (rest.len() == 0 || rest[0] != CIPHER_NOT);
            },
        }
    }
    false
}

/// Picks the suite a server with `list` uses from a client's `offered`
/// suites, preferring the server's own order, as `spec_negotiate` states it.
pub fn negotiate(list: &[u8], offered: &Vec<Vec<u8>>) -> (r: Option<Vec<u8>>)
    ensures
        ({
            let off = offered@.map_values(|v: Vec<u8>| v@);
            match r {
                Some(c) => spec_negotiate(list@, off) == Some(c@),
                None => spec_negotiate(list@, off) is None,
            }
        }),
{
    let ghost off = offered@.map_values(|v: Vec<u8>| v@);
    let n: usize = list.len();
    proof {
        assert(list@.skip(0) =~= list@);
    }
    let mut pos: usize = 0;
    while pos <= n
        invariant
            0 <= pos <= n,
            n == list@.len(),
            off == offered@.map_values(|v: Vec<u8>| v@),
            spec_negotiate(list@, off) == spec_negotiate(list@.skip(pos as int), off),
        decreases n - pos + 1,
    {
        let rest = vstd::slice::slice_subrange(list, pos, n);
        let ghost t = list@.skip(pos as int);
        proof {
            assert(rest@ =~= t);
        }
        match find_byte(rest, CIPHER_SEP) {
            Some(k) => {
                proof {
                    lemma_first_index(t, CIPHER_SEP);
                }
                let token = vstd::slice::slice_subrange(rest, 0, k);
                proof {
                    assert(token@ =~= t.take(k as int));
                }
                if (token.len() == 0 || token[0] != CIPHER_NOT) && offer_contains(offered, token) {
                    proof {
                        assert(token_offered(t.take(k as int), off)) by {
                            let w = choose|i: int|
                                0 <= i < offered@.len() && offered@[i]@ == token@;
                            assert(off[w] == token@);
                        }
                    }
                    return Some(vstd::slice::slice_to_vec(token));
                }
                proof {
                    assert(!token_offered(t.take(k as int), off)) by {
                        if token_offered(t.take(k as int), off) {
                            let w = choose|i: int| 0 <= i < off.len() && off[i] == token@;
                            assert(offered@[w]@ == token@);
                        }
                    }
                    assert(t.skip(k + 1) =~= list@.skip(pos + k + 1));
                }
                pos = pos + k + 1;
            },
            None => {
                if (rest.len() == 0 || rest[0] != CIPHER_NOT) && offer_contains(offered, rest) {
                    proof {
                        assert(token_offered(t, off)) by {
                            let w = choose|i: int|
                                0 <= i < offered@.len() && offered@[i]@ == rest@;
                            assert(off[w] == rest@);
                        }
                    }
                    return Some(vstd::slice::slice_to_vec(rest));
                }
                proof {
                    assert(!token_offered(t, off)) by {
                        if token_offered(t, off) {
                            let w = choose|i: int| 0 <= i < off.len() && off[i] == t;
                            assert(offered@[w]@ == rest@);
                        }
                    }
                }
                return None;
            },
        }
    }
    None
}

} // verus!
