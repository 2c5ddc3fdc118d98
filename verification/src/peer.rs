//! Peer identities.
//!
//! The presence subsystem names every live node by a string of the form
//! `"<ip>:<unique-id>"`. The request protocol works on the IP part alone:
//! acknowledgement sets store bare IPs, and the assignment tie-break orders
//! nodes by their IP string. This module gives the prefix extraction and
//! the lexicographic order, with the order's laws.

use vstd::prelude::*;

verus! {

/// A change of the live peer set, as the presence subsystem reports it:
/// the full new set, the most recently appeared peer, and the peers that
/// disappeared.
pub struct PeerUpdate {
    pub peers: Vec<String>,
    pub new: Option<String>,
    pub lost: Vec<String>,
}

/// The characters of `s` before its first `':'`; all of `s` when it has
/// none. For a peer id `"<ip>:<unique-id>"` this is the IP part.
pub open spec fn ip_prefix(s: Seq<char>) -> Seq<char>
    decreases s.len(),
{
    if s.len() == 0 {
        Seq::<char>::empty()
    } else if s[0] == ':' {
        Seq::<char>::empty()
    } else {
        seq![s[0]] + ip_prefix(s.skip(1))
    }
}

/// The views of a sequence of strings.
pub open spec fn views_of(v: Seq<String>) -> Seq<Seq<char>> {
    v.map_values(|s: String| s@)
}

/// Lexicographic order on character sequences, by code point; a proper
/// prefix comes before every extension of it.
pub open spec fn lex_le(a: Seq<char>, b: Seq<char>) -> bool
    decreases a.len(),
{
    if a.len() == 0 {
        true
    } else if b.len() == 0 {
        false
    } else if a[0] == b[0] {
        lex_le(a.skip(1), b.skip(1))
    } else {
        (a[0] as u32) < (b[0] as u32)
    }
}

/// Where `i` points at the first `':'` of `s`, or at its end when it has
/// none, the prefix before the first `':'` is exactly `s.subrange(0, i)`.
proof fn lemma_ip_prefix_subrange(s: Seq<char>, i: int)
    requires
        0 <= i <= s.len(),
        forall|j: int| 0 <= j < i ==> s[j] != ':',
        i == s.len() || s[i] == ':',
    ensures
        ip_prefix(s) == s.subrange(0, i),
    decreases i,
{
    if i == 0 {
        assert(ip_prefix(s) =~= s.subrange(0, 0));
    } else {
        assert(s[0] != ':');
        lemma_ip_prefix_subrange(s.skip(1), i - 1);
        assert(seq![s[0]] + s.skip(1).subrange(0, i - 1) =~= s.subrange(0, i));
    }
}

/// The lexicographic order is antisymmetric: two strings below one
/// another are the same string.
pub proof fn lemma_lex_le_antisymmetric(a: Seq<char>, b: Seq<char>)
    requires
        lex_le(a, b),
        lex_le(b, a),
    ensures
        a == b,
    decreases a.len(),
{
    if a.len() == 0 {
        assert(b.len() == 0);
        assert(a =~= b);
    } else {
        assert(b.len() > 0);
        if a[0] == b[0] {
            lemma_lex_le_antisymmetric(a.skip(1), b.skip(1));
            assert forall|i: int| 0 <= i < a.len() implies a[i] == b[i] by {
                if i > 0 {
                    assert(a[i] == a.skip(1)[i - 1]);
                    assert(b[i] == b.skip(1)[i - 1]);
                }
            }
            assert(a =~= b);
        } else {
            assert((a[0] as u32) < (b[0] as u32));
            assert((b[0] as u32) < (a[0] as u32));
        }
    }
}

/// The lexicographic order is total: of any two strings one is below the
/// other.
pub proof fn lemma_lex_le_total(a: Seq<char>, b: Seq<char>)
    ensures
        lex_le(a, b) || lex_le(b, a),
    decreases a.len(),
{
    if a.len() == 0 || b.len() == 0 {
    } else if a[0] == b[0] {
        lemma_lex_le_total(a.skip(1), b.skip(1));
    } else {
        lemma_char_cast_injective(a[0], b[0]);
    }
}

/// Distinct characters have distinct code points.
proof fn lemma_char_cast_injective(c: char, d: char)
    requires
        c != d,
    ensures
        c as u32 != d as u32,
{
}

/// Index of the first `':'` in `addr`, or its length when it has none.
fn colon_pos(addr: &str) -> (i: usize)
    ensures
        i <= addr@.len(),
        forall|j: int| 0 <= j < i ==> addr@[j] != ':',
        i < addr@.len() ==> addr@[i as int] == ':',
{
    let len = addr.unicode_len();
    let mut i: usize = 0;
    while i < len
        invariant
            i <= len,
            len == addr@.len(),
            forall|j: int| 0 <= j < i ==> addr@[j] != ':',
        decreases len - i,
    {
        if addr.get_char(i) == ':' {
            return i;
        }
        i = i + 1;
    }
    i
}

/// The IP part of a peer id: everything before the first `':'`.
pub fn ip_of(addr: &str) -> (r: String)
    ensures
        r@ == ip_prefix(addr@),
{
    let i = colon_pos(addr);
    let pre = addr.substring_char(0, i);
    proof {
        lemma_ip_prefix_subrange(addr@, i as int);
    }
    pre.to_owned()
}

/// Whether two strings have the same characters.
pub fn str_equal(a: &String, b: &String) -> (r: bool)
    ensures
        r == (a@ == b@),
{
    a.eq(b)
}

/// Whether some string in `v` has the same characters as `ip`.
pub fn contains_ip(v: &Vec<String>, ip: &String) -> (r: bool)
    ensures
        r == views_of(v@).contains(ip@),
{
    let mut i: usize = 0;
    while i < v.len()
        invariant
            i <= v@.len(),
            forall|j: int| 0 <= j < i ==> views_of(v@)[j] != ip@,
        decreases v@.len() - i,
    {
        proof {
            assert(views_of(v@)[i as int] == v@[i as int]@);
        }
        if str_equal(&v[i], ip) {
            return true;
        }
        i = i + 1;
    }
    assert(forall|j: int| 0 <= j < v@.len() ==> views_of(v@)[j] != ip@);
    false
}

/// A copy of a vector of strings, equal element by element.
pub fn clone_strings(v: &Vec<String>) -> (r: Vec<String>)
    ensures
        r@ == v@,
{
    let mut r: Vec<String> = Vec::new();
    let mut i: usize = 0;
    while i < v.len()
        invariant
            i <= v@.len(),
            r@ == v@.subrange(0, i as int),
        decreases v@.len() - i,
    {
        r.push(v[i].clone());
        proof {
            assert(r@ =~= v@.subrange(0, i + 1));
        }
        i = i + 1;
    }
    proof {
        assert(v@.subrange(0, v@.len() as int) =~= v@);
    }
    r
}

/// Whether `a` comes no later than `b` in the lexicographic order.
pub fn str_lex_le(a: &str, b: &str) -> (r: bool)
    ensures
        r == lex_le(a@, b@),
{
    let alen = a.unicode_len();
    let blen = b.unicode_len();
    let mut i: usize = 0;
    proof {
        assert(a@.skip(0) =~= a@);
        assert(b@.skip(0) =~= b@);
    }
    while i < alen && i < blen
        invariant
            i <= alen,
            i <= blen,
            alen == a@.len(),
            blen == b@.len(),
            lex_le(a@, b@) == lex_le(a@.skip(i as int), b@.skip(i as int)),
        decreases alen - i,
    {
        let ca = a.get_char(i);
        let cb = b.get_char(i);
        if ca != cb {
            proof {
                assert(a@.skip(i as int)[0] == ca);
                assert(b@.skip(i as int)[0] == cb);
            }
            return (ca as u32) < (cb as u32);
        }
        proof {
            assert(a@.skip(i as int).skip(1) =~= a@.skip(i + 1));
            assert(b@.skip(i as int).skip(1) =~= b@.skip(i + 1));
        }
        i = i + 1;
    }
    proof {
        if i >= alen {
            assert(a@.skip(i as int).len() == 0);
        } else {
            assert(b@.skip(i as int).len() == 0);
            assert(a@.skip(i as int).len() > 0);
        }
    }
    alen <= blen
}

} // verus!
