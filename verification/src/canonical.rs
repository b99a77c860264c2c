//! Percent-encoding and canonicalization of request paths and query strings,
//! as the signing scheme requires: every byte outside the unreserved set is
//! encoded as `%XX` with upper-case hex digits, paths keep their `/`
//! separators and always end with one, and query pairs are split on `&` and
//! the first `=`, encoded, and sorted by encoded name, then encoded value.
//!
//! All of it works byte-wise over the UTF-8 bytes of the input, so it is
//! total over arbitrary input strings.

use vstd::prelude::*;

use vstd::string::StringSliceAdditionalSpecFns;

use crate::strutil::ascii_to_string;
use crate::strutil::push_char;

verus! {

/// The unreserved byte set: `A-Z a-z 0-9 - . _ ~`.
pub open spec fn spec_is_unreserved(b: u8) -> bool {
    (65 <= b <= 90) || (97 <= b <= 122) || (48 <= b <= 57) || b == 45 || b == 46 || b == 95
        || b == 126
}

pub fn is_unreserved(byte: u8) -> (r: bool)
    ensures
        r == spec_is_unreserved(byte),
{
    (65 <= byte && byte <= 90) || (97 <= byte && byte <= 122) || (48 <= byte && byte <= 57)
        || byte == 45 || byte == 46 || byte == 95 || byte == 126
}

/// The upper-case hex digit byte for a value below 16.
pub open spec fn spec_hex_upper_digit(n: u8) -> u8
    recommends
        n < 16,
{
    if n < 10 {
        (48 + n) as u8
    } else {
        (55 + n) as u8
    }
}

fn hex_upper_digit(n: u8) -> (r: u8)
    requires
        n < 16,
    ensures
        r == spec_hex_upper_digit(n),
{
    if n < 10 {
        48 + n
    } else {
        55 + n
    }
}

/// The three bytes `%XX` that encode one byte.
pub open spec fn spec_percent_encoding(b: u8) -> Seq<u8> {
    seq![37u8, spec_hex_upper_digit(b / 16), spec_hex_upper_digit(b % 16)]
}

/// The percent-encoding of one byte, as a string `%XX`.
pub fn percent_encode_byte(byte: u8) -> (r: String)
    ensures
        r@ == spec_percent_encoding(byte).map_values(|b: u8| b as char),
{
    let mut out = String::new();
    push_char(&mut out, 37u8 as char);
    push_char(&mut out, hex_upper_digit(byte / 16) as char);
    push_char(&mut out, hex_upper_digit(byte % 16) as char);
    proof {
        assert(out@ =~= spec_percent_encoding(byte).map_values(|b: u8| b as char));
    }
    out
}

/// How one byte is encoded: kept as itself when unreserved (or a `/` in a
/// path), percent-encoded otherwise.
pub open spec fn spec_encode_byte(b: u8, keep_slash: bool) -> Seq<u8> {
    if (keep_slash && b == 47) || spec_is_unreserved(b) {
        seq![b]
    } else {
        spec_percent_encoding(b)
    }
}

/// The encoding of a whole byte sequence.
pub open spec fn spec_encode_bytes(s: Seq<u8>, keep_slash: bool) -> Seq<u8>
    decreases s.len(),
{
    if s.len() == 0 {
        Seq::empty()
    } else {
        spec_encode_byte(s[0], keep_slash) + spec_encode_bytes(s.drop_first(), keep_slash)
    }
}

pub proof fn lemma_encode_bytes_concat(a: Seq<u8>, b: Seq<u8>, keep_slash: bool)
    ensures
        spec_encode_bytes(a + b, keep_slash) == spec_encode_bytes(a, keep_slash)
            + spec_encode_bytes(b, keep_slash),
    decreases a.len(),
{
    if a.len() == 0 {
        assert(a + b =~= b);
        assert(spec_encode_bytes(a, keep_slash) =~= Seq::<u8>::empty());
        assert(spec_encode_bytes(a, keep_slash) + spec_encode_bytes(b, keep_slash)
            =~= spec_encode_bytes(b, keep_slash));
    } else {
        assert((a + b)[0] == a[0]);
        assert((a + b).drop_first() =~= a.drop_first() + b);
        lemma_encode_bytes_concat(a.drop_first(), b, keep_slash);
        assert(spec_encode_bytes(a + b, keep_slash) =~= spec_encode_bytes(a, keep_slash)
            + spec_encode_bytes(b, keep_slash));
    }
}

/// Every byte an encoder emits is unreserved, a kept `/`, or part of a
/// percent group (`%` or an upper-case hex digit, itself unreserved).
pub proof fn lemma_encode_bytes_wellformed(s: Seq<u8>, keep_slash: bool)
    ensures
        forall|i: int|
            0 <= i < spec_encode_bytes(s, keep_slash).len() ==> {
                let b = #[trigger] spec_encode_bytes(s, keep_slash)[i];
                spec_is_unreserved(b) || b == 37 || (keep_slash && b == 47)
            },
    decreases s.len(),
{
    if s.len() > 0 {
        lemma_encode_bytes_wellformed(s.drop_first(), keep_slash);
        let e = spec_encode_bytes(s, keep_slash);
        let h = spec_encode_byte(s[0], keep_slash);
        let t = spec_encode_bytes(s.drop_first(), keep_slash);
        assert forall|i: int|
            0 <= i < e.len() implies spec_is_unreserved(#[trigger] e[i]) || e[i] == 37 || (
            keep_slash && e[i] == 47) by {
            if i < h.len() {
                assert(e[i] == h[i]);
                if !((keep_slash && s[0] == 47) || spec_is_unreserved(s[0])) {
                    assert(h[0] == 37);
                    assert(h[1] == spec_hex_upper_digit(s[0] / 16));
                    assert(h[2] == spec_hex_upper_digit(s[0] % 16));
                    assert(spec_is_unreserved(spec_hex_upper_digit(s[0] / 16)));
                    assert(spec_is_unreserved(spec_hex_upper_digit(s[0] % 16)));
                }
            } else {
                assert(e[i] == t[i - h.len()]);
            }
        }
    }
}

fn encode_bytes(s: &[u8], keep_slash: bool) -> (r: Vec<u8>)
    ensures
        r@ == spec_encode_bytes(s@, keep_slash),
{
    let n = s.len();
    let mut out: Vec<u8> = Vec::new();
    let mut i: usize = 0;
    while i < n
        invariant
            0 <= i <= n,
            n == s@.len(),
            out@ =~= spec_encode_bytes(s@.take(i as int), keep_slash),
        decreases n - i,
    {
        let b = s[i];
        if (keep_slash && b == 47) || is_unreserved(b) {
            out.push(b);
        } else {
            out.push(37);
            out.push(hex_upper_digit(b / 16));
            out.push(hex_upper_digit(b % 16));
        }
        proof {
            assert(s@.take(i + 1) =~= s@.take(i as int) + seq![s@[i as int]]);
            lemma_encode_bytes_concat(s@.take(i as int), seq![s@[i as int]], keep_slash);
            assert(seq![s@[i as int]].drop_first() =~= Seq::<u8>::empty());
            assert(spec_encode_bytes(Seq::<u8>::empty(), keep_slash) =~= Seq::<u8>::empty());
            assert(spec_encode_bytes(seq![s@[i as int]], keep_slash) =~= spec_encode_byte(
                s@[i as int],
                keep_slash,
            ));
            assert(out@ =~= spec_encode_bytes(s@.take(i + 1), keep_slash));
        }
        i = i + 1;
    }
    proof {
        assert(s@.take(n as int) =~= s@);
    }
    out
}

/// The canonical form of a path's bytes: `/` kept, everything else outside
/// the unreserved set percent-encoded, and a trailing `/` guaranteed.
pub open spec fn spec_canonical_path(s: Seq<u8>) -> Seq<u8> {
    let e = spec_encode_bytes(s, true);
    if e.len() > 0 && e[e.len() - 1] == 47 {
        e
    } else {
        e.push(47)
    }
}

/// The canonical path as characters (its bytes are all ASCII).
pub open spec fn spec_canonical_path_chars(s: Seq<u8>) -> Seq<char> {
    spec_canonical_path(s).map_values(|b: u8| b as char)
}

/// Every canonical path ends with `/` and holds, besides `/`, only
/// unreserved bytes and `%` groups.
pub proof fn lemma_canonical_path_wellformed(s: Seq<u8>)
    ensures
        spec_canonical_path(s).len() > 0,
        spec_canonical_path(s)[spec_canonical_path(s).len() - 1] == 47,
        forall|i: int|
            0 <= i < spec_canonical_path(s).len() ==> {
                let b = #[trigger] spec_canonical_path(s)[i];
                spec_is_unreserved(b) || b == 37 || b == 47
            },
{
    lemma_encode_bytes_wellformed(s, true);
}

/// Canonicalizes a request path: percent-encodes every byte outside the
/// unreserved set except the `/` separators, and guarantees a trailing `/`.
/// An empty path canonicalizes to `/`.
pub fn canonicalize_path(path: &str) -> (r: String)
    ensures
        r@ == spec_canonical_path_chars(path.spec_bytes()),
{
    let bytes = path.as_bytes();
    let mut out = encode_bytes(bytes, true);
    let needs_slash = out.len() == 0 || out[out.len() - 1] != 47;
    if needs_slash {
        out.push(47);
    }
    proof {
        assert(out@ =~= spec_canonical_path(path.spec_bytes()));
        lemma_canonical_path_wellformed(path.spec_bytes());
    }
    ascii_to_string(&out)
}

/// Percent-encodes one query name or value: every byte outside the
/// unreserved set is encoded, `/` included.
pub fn encode_rfc3986(input: &str) -> (r: String)
    ensures
        r@ == spec_encode_bytes(input.spec_bytes(), false).map_values(|b: u8| b as char),
{
    let bytes = input.as_bytes();
    let out = encode_bytes(bytes, false);
    proof {
        lemma_encode_bytes_wellformed(input.spec_bytes(), false);
    }
    ascii_to_string(&out)
}

/// Splitting a byte sequence on a separator; the result always holds at
/// least one part, and holds empty parts where separators meet.
pub open spec fn spec_split(s: Seq<u8>, sep: u8) -> Seq<Seq<u8>>
    decreases s.len(),
{
    if s.len() == 0 {
        seq![Seq::<u8>::empty()]
    } else if s[0] == sep {
        seq![Seq::<u8>::empty()] + spec_split(s.drop_first(), sep)
    } else {
        let rest = spec_split(s.drop_first(), sep);
        seq![seq![s[0]] + rest[0]] + rest.drop_first()
    }
}

pub proof fn lemma_split_len(s: Seq<u8>, sep: u8)
    ensures
        spec_split(s, sep).len() >= 1,
    decreases s.len(),
{
    if s.len() > 0 {
        lemma_split_len(s.drop_first(), sep);
    }
}

/// A separator-free sequence splits into itself alone.
proof fn lemma_split_no_sep(u: Seq<u8>, sep: u8)
    requires
        forall|i: int| 0 <= i < u.len() ==> u[i] != sep,
    ensures
        spec_split(u, sep) == seq![u],
    decreases u.len(),
{
    if u.len() == 0 {
        assert(u =~= Seq::<u8>::empty());
        assert(spec_split(u, sep) =~= seq![u]);
    } else {
        lemma_split_no_sep(u.drop_first(), sep);
        let rest = spec_split(u.drop_first(), sep);
        assert(rest == seq![u.drop_first()]);
        assert(rest[0] == u.drop_first());
        assert(rest.drop_first() =~= Seq::<Seq<u8>>::empty());
        assert(seq![u[0]] + u.drop_first() =~= u);
        assert(spec_split(u, sep) =~= seq![seq![u[0]] + rest[0]] + rest.drop_first());
        assert(spec_split(u, sep) =~= seq![u]);
    }
}

/// A separator after a separator-free prefix cuts exactly there.
proof fn lemma_split_step(u: Seq<u8>, rest: Seq<u8>, sep: u8)
    requires
        forall|i: int| 0 <= i < u.len() ==> u[i] != sep,
    ensures
        spec_split(u + seq![sep] + rest, sep) == seq![u] + spec_split(rest, sep),
    decreases u.len(),
{
    lemma_split_len(rest, sep);
    if u.len() == 0 {
        let s = u + seq![sep] + rest;
        assert(s[0] == sep);
        assert(s.drop_first() =~= rest);
        assert(u =~= Seq::<u8>::empty());
        assert(spec_split(s, sep) =~= seq![u] + spec_split(rest, sep));
    } else {
        let s = u + seq![sep] + rest;
        assert(s[0] == u[0]);
        assert(s[0] != sep);
        assert(s.drop_first() =~= u.drop_first() + seq![sep] + rest);
        lemma_split_step(u.drop_first(), rest, sep);
        let inner = spec_split(s.drop_first(), sep);
        assert(inner == seq![u.drop_first()] + spec_split(rest, sep));
        assert(inner[0] == u.drop_first());
        assert(seq![s[0]] + inner[0] =~= u);
        assert(inner.drop_first() =~= spec_split(rest, sep));
        assert(spec_split(s, sep) =~= seq![seq![s[0]] + inner[0]] + inner.drop_first());
        assert(spec_split(s, sep) =~= seq![u] + spec_split(rest, sep));
    }
}

fn split_bytes(s: &[u8], sep: u8) -> (parts: Vec<Vec<u8>>)
    ensures
        parts@.map_values(|p: Vec<u8>| p@) == spec_split(s@, sep),
{
    let n = s.len();
    let mut parts: Vec<Vec<u8>> = Vec::new();
    let mut cur: Vec<u8> = Vec::new();
    let mut i: usize = 0;
    proof {
        assert(cur@ + s@.skip(0) =~= s@);
        assert(parts@.map_values(|p: Vec<u8>| p@) =~= Seq::<Seq<u8>>::empty());
        assert(spec_split(s@, sep) =~= parts@.map_values(|p: Vec<u8>| p@) + spec_split(
            cur@ + s@.skip(0),
            sep,
        ));
    }
    while i < n
        invariant
            0 <= i <= n,
            n == s@.len(),
            forall|k: int| 0 <= k < cur@.len() ==> cur@[k] != sep,
            spec_split(s@, sep) =~= parts@.map_values(|p: Vec<u8>| p@) + spec_split(
                cur@ + s@.skip(i as int),
                sep,
            ),
        decreases n - i,
    {
        let b = s[i];
        proof {
            assert(cur@ + s@.skip(i as int) =~= cur@ + seq![s@[i as int]] + s@.skip(i + 1));
        }
        if b == sep {
            proof {
                lemma_split_step(cur@, s@.skip(i + 1), sep);
            }
            let ghost old_parts = parts@;
            let ghost old_cur = cur@;
            parts.push(cur);
            cur = Vec::new();
            proof {
                assert(parts@.map_values(|p: Vec<u8>| p@) =~= old_parts.map_values(
                    |p: Vec<u8>| p@,
                ).push(old_cur));
                assert(cur@ + s@.skip(i + 1) =~= s@.skip(i + 1));
                assert(spec_split(s@, sep) =~= parts@.map_values(|p: Vec<u8>| p@) + spec_split(
                    cur@ + s@.skip(i + 1),
                    sep,
                ));
            }
        } else {
            let ghost old_cur = cur@;
            cur.push(b);
            proof {
                assert(cur@ + s@.skip(i + 1) =~= old_cur + s@.skip(i as int));
            }
        }
        i = i + 1;
    }
    proof {
        assert(cur@ + s@.skip(n as int) =~= cur@);
        lemma_split_no_sep(cur@, sep);
    }
    let ghost old_parts = parts@;
    let ghost last_cur = cur@;
    parts.push(cur);
    proof {
        assert(parts@.map_values(|p: Vec<u8>| p@) =~= old_parts.map_values(|p: Vec<u8>| p@).push(
            last_cur,
        ));
        assert(parts@.map_values(|p: Vec<u8>| p@) =~= spec_split(s@, sep));
    }
    parts
}

/// The first index at which a byte occurs, or -1.
pub open spec fn spec_first_index(s: Seq<u8>, b: u8) -> int
    decreases s.len(),
{
    if s.len() == 0 {
        -1
    } else if s[0] == b {
        0
    } else if spec_first_index(s.drop_first(), b) < 0 {
        -1
    } else {
        1 + spec_first_index(s.drop_first(), b)
    }
}

proof fn lemma_first_index(s: Seq<u8>, b: u8)
    ensures
        spec_first_index(s, b) >= 0 ==> spec_first_index(s, b) < s.len() && s[spec_first_index(
            s,
            b,
        )] == b && (forall|k: int| 0 <= k < spec_first_index(s, b) ==> s[k] != b),
        spec_first_index(s, b) < 0 ==> forall|k: int| 0 <= k < s.len() ==> s[k] != b,
    decreases s.len(),
{
    if s.len() > 0 && s[0] != b {
        lemma_first_index(s.drop_first(), b);
        let inner = spec_first_index(s.drop_first(), b);
        if inner >= 0 {
            assert(s[1 + inner] == s.drop_first()[inner]);
            assert forall|k: int| 0 <= k < 1 + inner implies s[k] != b by {
                if k > 0 {
                    assert(s.drop_first()[k - 1] != b);
                }
            }
        } else {
            assert forall|k: int| 0 <= k < s.len() implies s[k] != b by {
                if k > 0 {
                    assert(s.drop_first()[k - 1] != b);
                }
            }
        }
    }
}

/// A raw query pair: the part before the first `=` and the part after it;
/// with no `=`, the whole part is the name and the value is empty.
pub open spec fn spec_raw_pair(part: Seq<u8>) -> (Seq<u8>, Seq<u8>) {
    let i = spec_first_index(part, 61);
    if i < 0 {
        (part, Seq::<u8>::empty())
    } else {
        (part.take(i), part.skip(i + 1))
    }
}

/// The encoded query pair of one raw part.
pub open spec fn spec_encoded_pair(part: Seq<u8>) -> (Seq<u8>, Seq<u8>) {
    let (n, v) = spec_raw_pair(part);
    (spec_encode_bytes(n, false), spec_encode_bytes(v, false))
}

/// The encoded pairs of a sequence of parts, empty parts skipped.
pub open spec fn spec_pairs(parts: Seq<Seq<u8>>) -> Seq<(Seq<u8>, Seq<u8>)>
    decreases parts.len(),
{
    if parts.len() == 0 {
        Seq::empty()
    } else if parts[0].len() == 0 {
        spec_pairs(parts.drop_first())
    } else {
        seq![spec_encoded_pair(parts[0])] + spec_pairs(parts.drop_first())
    }
}

proof fn lemma_pairs_concat(a: Seq<Seq<u8>>, b: Seq<Seq<u8>>)
    ensures
        spec_pairs(a + b) == spec_pairs(a) + spec_pairs(b),
    decreases a.len(),
{
    if a.len() == 0 {
        assert(a + b =~= b);
        assert(spec_pairs(a) + spec_pairs(b) =~= spec_pairs(b));
    } else {
        assert((a + b).drop_first() =~= a.drop_first() + b);
        lemma_pairs_concat(a.drop_first(), b);
        if a[0].len() == 0 {
            assert(spec_pairs(a + b) =~= spec_pairs(a) + spec_pairs(b));
        } else {
            assert(spec_pairs(a + b) =~= spec_pairs(a) + spec_pairs(b));
        }
    }
}

/// One query pair, name and value already percent-encoded.
pub struct QueryPair {
    pub name: Vec<u8>,
    pub value: Vec<u8>,
}

impl View for QueryPair {
    type V = (Seq<u8>, Seq<u8>);

    open spec fn view(&self) -> (Seq<u8>, Seq<u8>) {
        (self.name@, self.value@)
    }
}

fn sub_vec(v: &Vec<u8>, from: usize, to: usize) -> (r: Vec<u8>)
    requires
        from <= to <= v@.len(),
    ensures
        r@ == v@.subrange(from as int, to as int),
{
    let mut out: Vec<u8> = Vec::new();
    let mut i: usize = from;
    while i < to
        invariant
            from <= i <= to <= v@.len(),
            out@ =~= v@.subrange(from as int, i as int),
        decreases to - i,
    {
        out.push(v[i]);
        proof {
            assert(out@ =~= v@.subrange(from as int, i + 1));
        }
        i = i + 1;
    }
    out
}

fn encoded_pair(part: &Vec<u8>) -> (r: QueryPair)
    ensures
        r@ == spec_encoded_pair(part@),
{
    let n = part.len();
    let mut i: usize = 0;
    let mut eq_at: Option<usize> = None;
    while i < n && eq_at.is_none()
        invariant
            0 <= i <= n,
            n == part@.len(),
            eq_at is None ==> forall|k: int| 0 <= k < i ==> part@[k] != 61,
            eq_at matches Some(j) ==> i == j + 1 && 0 <= j < n && part@[j as int] == 61 && (
            forall|k: int| 0 <= k < j ==> part@[k] != 61),
        decreases n - i,
    {
        if part[i] == 61 {
            eq_at = Some(i);
        }
        i = i + 1;
    }
    proof {
        lemma_first_index(part@, 61);
    }
    match eq_at {
        Some(j) => {
            proof {
                assert(spec_first_index(part@, 61) == j as int);
            }
            let name = sub_vec(part, 0, j);
            let value = sub_vec(part, j + 1, n);
            proof {
                assert(name@ =~= part@.take(j as int));
                assert(value@ =~= part@.skip(j + 1));
            }
            QueryPair {
                name: encode_bytes(name.as_slice(), false),
                value: encode_bytes(value.as_slice(), false),
            }
        },
        None => {
            proof {
                assert(spec_first_index(part@, 61) < 0);
            }
            let empty: Vec<u8> = Vec::new();
            QueryPair {
                name: encode_bytes(part.as_slice(), false),
                value: encode_bytes(empty.as_slice(), false),
            }
        },
    }
}

/// A strict lexicographic (byte-wise) order on byte sequences.
pub open spec fn spec_lex_lt(a: Seq<u8>, b: Seq<u8>) -> bool
    decreases a.len() + b.len(),
{
    if b.len() == 0 {
        false
    } else if a.len() == 0 {
        true
    } else if a[0] < b[0] {
        true
    } else if a[0] > b[0] {
        false
    } else {
        spec_lex_lt(a.drop_first(), b.drop_first())
    }
}

/// The sort order of canonical query pairs: by encoded name, ties broken by
/// encoded value.
pub open spec fn spec_pair_le(p: (Seq<u8>, Seq<u8>), q: (Seq<u8>, Seq<u8>)) -> bool {
    spec_lex_lt(p.0, q.0) || (p.0 == q.0 && (spec_lex_lt(p.1, q.1) || p.1 == q.1))
}

fn bytes_lt(a: &Vec<u8>, b: &Vec<u8>) -> (r: bool)
    ensures
        r == spec_lex_lt(a@, b@),
{
    let na = a.len();
    let nb = b.len();
    let mut i: usize = 0;
    proof {
        assert(a@.skip(0) =~= a@);
        assert(b@.skip(0) =~= b@);
    }
    while i < na && i < nb
        invariant
            0 <= i <= na,
            0 <= i <= nb,
            na == a@.len(),
            nb == b@.len(),
            spec_lex_lt(a@, b@) == spec_lex_lt(a@.skip(i as int), b@.skip(i as int)),
        decreases na - i,
    {
        proof {
            assert(a@.skip(i as int)[0] == a@[i as int]);
            assert(b@.skip(i as int)[0] == b@[i as int]);
        }
        if a[i] < b[i] {
            return true;
        }
        if a[i] > b[i] {
            return false;
        }
        proof {
            assert(a@.skip(i as int).drop_first() =~= a@.skip(i + 1));
            assert(b@.skip(i as int).drop_first() =~= b@.skip(i + 1));
        }
        i = i + 1;
    }
    proof {
        assert(a@.skip(i as int).len() == na - i);
        assert(b@.skip(i as int).len() == nb - i);
        if i < nb {
            assert(b@.skip(i as int)[0] == b@[i as int]);
        }
    }
    na < nb
}

fn bytes_eq(a: &Vec<u8>, b: &Vec<u8>) -> (r: bool)
    ensures
        r == (a@ == b@),
{
    let na = a.len();
    let nb = b.len();
    if na != nb {
        return false;
    }
    let mut i: usize = 0;
    while i < na
        invariant
            0 <= i <= na,
            na == a@.len(),
            na == b@.len(),
            forall|k: int| 0 <= k < i ==> a@[k] == b@[k],
        decreases na - i,
    {
        if a[i] != b[i] {
            return false;
        }
        i = i + 1;
    }
    proof {
        assert(a@ =~= b@);
    }
    true
}

fn pair_le(p: &QueryPair, q: &QueryPair) -> (r: bool)
    ensures
        r == spec_pair_le(p@, q@),
{
    if bytes_lt(&p.name, &q.name) {
        true
    } else if bytes_eq(&p.name, &q.name) {
        bytes_lt(&p.value, &q.value) || bytes_eq(&p.value, &q.value)
    } else {
        false
    }
}

/// Insertion into a sorted pair sequence, before the first element that the
/// new pair is at or below.
pub open spec fn spec_insert_sorted(p: (Seq<u8>, Seq<u8>), s: Seq<(Seq<u8>, Seq<u8>)>) -> Seq<
    (Seq<u8>, Seq<u8>),
>
    decreases s.len(),
{
    if s.len() == 0 {
        seq![p]
    } else if spec_pair_le(p, s[0]) {
        seq![p] + s
    } else {
        seq![s[0]] + spec_insert_sorted(p, s.drop_first())
    }
}

/// Insertion sort of query pairs; deterministic, so the canonical query is a
/// function of its input.
pub open spec fn spec_sort_pairs(s: Seq<(Seq<u8>, Seq<u8>)>) -> Seq<(Seq<u8>, Seq<u8>)>
    decreases s.len(),
{
    if s.len() == 0 {
        s
    } else {
        spec_insert_sorted(s[0], spec_sort_pairs(s.drop_first()))
    }
}

proof fn lemma_lex_lt_trichotomy(a: Seq<u8>, b: Seq<u8>)
    ensures
        spec_lex_lt(a, b) || spec_lex_lt(b, a) || a == b,
    decreases a.len() + b.len(),
{
    if a.len() > 0 && b.len() > 0 && a[0] == b[0] {
        lemma_lex_lt_trichotomy(a.drop_first(), b.drop_first());
        if !spec_lex_lt(a, b) && !spec_lex_lt(b, a) {
            assert(a.drop_first() == b.drop_first());
            assert forall|i: int| 0 <= i < a.len() implies a[i] == b[i] by {
                if i > 0 {
                    assert(a.drop_first()[i - 1] == b.drop_first()[i - 1]);
                }
            }
            assert(a =~= b);
        }
    }
}

proof fn lemma_lex_lt_trans(a: Seq<u8>, b: Seq<u8>, c: Seq<u8>)
    requires
        spec_lex_lt(a, b),
        spec_lex_lt(b, c),
    ensures
        spec_lex_lt(a, c),
    decreases a.len() + b.len() + c.len(),
{
    if a.len() > 0 {
        if a[0] == b[0] && b[0] == c[0] {
            lemma_lex_lt_trans(a.drop_first(), b.drop_first(), c.drop_first());
        }
    }
}

proof fn lemma_pair_le_total(p: (Seq<u8>, Seq<u8>), q: (Seq<u8>, Seq<u8>))
    ensures
        spec_pair_le(p, q) || spec_pair_le(q, p),
{
    lemma_lex_lt_trichotomy(p.0, q.0);
    if p.0 == q.0 {
        lemma_lex_lt_trichotomy(p.1, q.1);
    }
}

proof fn lemma_pair_le_trans(p: (Seq<u8>, Seq<u8>), q: (Seq<u8>, Seq<u8>), r: (Seq<u8>, Seq<u8>))
    requires
        spec_pair_le(p, q),
        spec_pair_le(q, r),
    ensures
        spec_pair_le(p, r),
{
    if spec_lex_lt(p.0, q.0) && spec_lex_lt(q.0, r.0) {
        lemma_lex_lt_trans(p.0, q.0, r.0);
    }
    if p.0 == q.0 && q.0 == r.0 && spec_lex_lt(p.1, q.1) && spec_lex_lt(q.1, r.1) {
        lemma_lex_lt_trans(p.1, q.1, r.1);
    }
}

/// Whether a pair sequence is sorted by the canonical order.
pub open spec fn spec_pairs_sorted(ps: Seq<(Seq<u8>, Seq<u8>)>) -> bool {
    forall|i: int, j: int|
        0 <= i < j < ps.len() ==> spec_pair_le(#[trigger] ps[i], #[trigger] ps[j])
}

/// A non-empty sequence's multiset is its tail's, plus its head.
proof fn lemma_head_multiset(s: Seq<(Seq<u8>, Seq<u8>)>)
    requires
        s.len() > 0,
    ensures
        s.to_multiset() == s.drop_first().to_multiset().insert(s[0]),
{
    broadcast use vstd::seq_lib::group_to_multiset_ensures;

    assert(s.remove(0) =~= s.drop_first());
    assert(s.remove(0).to_multiset() =~= s.to_multiset().remove(s[0]));
    assert(s.contains(s[0]));
    assert(s.to_multiset().count(s[0]) > 0);
    assert(s.drop_first().to_multiset().insert(s[0]) =~= s.to_multiset());
}

proof fn lemma_insert_sorted_multiset(p: (Seq<u8>, Seq<u8>), s: Seq<(Seq<u8>, Seq<u8>)>)
    ensures
        spec_insert_sorted(p, s).to_multiset() == s.to_multiset().insert(p),
    decreases s.len(),
{
    broadcast use vstd::seq_lib::group_to_multiset_ensures;

    if s.len() == 0 {
        lemma_head_multiset(seq![p]);
        assert(seq![p].drop_first() =~= s);
        assert(seq![p].to_multiset() =~= s.to_multiset().insert(p));
    } else if spec_pair_le(p, s[0]) {
        let e = seq![p] + s;
        lemma_head_multiset(e);
        assert(e.drop_first() =~= s);
        assert(e[0] == p);
        assert(e.to_multiset() =~= s.to_multiset().insert(p));
    } else {
        lemma_insert_sorted_multiset(p, s.drop_first());
        let inner = spec_insert_sorted(p, s.drop_first());
        let e = seq![s[0]] + inner;
        lemma_head_multiset(e);
        assert(e.drop_first() =~= inner);
        assert(e[0] == s[0]);
        lemma_head_multiset(s);
        assert(e.to_multiset() =~= s.to_multiset().insert(p));
    }
}

proof fn lemma_insert_sorted_stays_sorted(p: (Seq<u8>, Seq<u8>), s: Seq<(Seq<u8>, Seq<u8>)>)
    requires
        spec_pairs_sorted(s),
    ensures
        spec_pairs_sorted(spec_insert_sorted(p, s)),
    decreases s.len(),
{
    if s.len() == 0 {
    } else if spec_pair_le(p, s[0]) {
        let e = seq![p] + s;
        assert forall|i: int, j: int|
            0 <= i < j < e.len() implies spec_pair_le(#[trigger] e[i], #[trigger] e[j]) by {
            if i == 0 {
                if j > 1 {
                    lemma_pair_le_trans(p, s[0], s[j - 1]);
                }
            } else {
                assert(e[i] == s[i - 1]);
                assert(e[j] == s[j - 1]);
            }
        }
    } else {
        lemma_pair_le_total(p, s[0]);
        assert(spec_pair_le(s[0], p));
        assert forall|k: int|
            0 <= k < s.drop_first().len() implies spec_pair_le(
            s[0],
            #[trigger] s.drop_first()[k],
        ) by {
            assert(s.drop_first()[k] == s[k + 1]);
        }
        assert(spec_pairs_sorted(s.drop_first()));
        lemma_insert_sorted_stays_sorted(p, s.drop_first());
        lemma_insert_sorted_multiset(p, s.drop_first());
        broadcast use vstd::seq_lib::group_to_multiset_ensures;

        let inner = spec_insert_sorted(p, s.drop_first());
        assert forall|k: int| 0 <= k < inner.len() implies spec_pair_le(s[0], #[trigger] inner[k])
            by {
            assert(inner.to_multiset().count(inner[k]) > 0);
            if inner[k] == p {
            } else {
                assert(s.drop_first().to_multiset().insert(p).count(inner[k]) > 0);
                assert(s.drop_first().to_multiset().count(inner[k]) > 0);
                assert(s.drop_first().contains(inner[k]));
                let m = choose|m: int|
                    0 <= m < s.drop_first().len() && s.drop_first()[m] == inner[k];
                assert(spec_pair_le(s[0], s.drop_first()[m]));
            }
        }
        let e = seq![s[0]] + inner;
        assert forall|i: int, j: int|
            0 <= i < j < e.len() implies spec_pair_le(#[trigger] e[i], #[trigger] e[j]) by {
            if i == 0 {
                assert(e[j] == inner[j - 1]);
            } else {
                assert(e[i] == inner[i - 1]);
                assert(e[j] == inner[j - 1]);
            }
        }
    }
}

proof fn lemma_sort_pairs_properties(s: Seq<(Seq<u8>, Seq<u8>)>)
    ensures
        spec_pairs_sorted(spec_sort_pairs(s)),
        spec_sort_pairs(s).to_multiset() == s.to_multiset(),
    decreases s.len(),
{
    broadcast use vstd::seq_lib::group_to_multiset_ensures;

    if s.len() > 0 {
        lemma_sort_pairs_properties(s.drop_first());
        lemma_insert_sorted_stays_sorted(s[0], spec_sort_pairs(s.drop_first()));
        lemma_insert_sorted_multiset(s[0], spec_sort_pairs(s.drop_first()));
        lemma_head_multiset(s);
        assert(spec_sort_pairs(s).to_multiset() =~= s.to_multiset());
    }
}

/// The canonical query holds exactly the encoded pairs of the raw query —
/// no pair added, dropped or altered — arranged in the canonical order:
/// byte-wise by encoded name, ties broken by encoded value.
pub proof fn lemma_canonical_query_orders_pairs(q: Seq<u8>)
    ensures
        spec_pairs_sorted(spec_sort_pairs(spec_pairs(spec_split(q, 38)))),
        spec_sort_pairs(spec_pairs(spec_split(q, 38))).to_multiset() == spec_pairs(
            spec_split(q, 38),
        ).to_multiset(),
{
    lemma_sort_pairs_properties(spec_pairs(spec_split(q, 38)));
}

proof fn lemma_insert_sorted_at(p: (Seq<u8>, Seq<u8>), s: Seq<(Seq<u8>, Seq<u8>)>, j: int)
    requires
        0 <= j <= s.len(),
        forall|k: int| 0 <= k < j ==> !spec_pair_le(p, #[trigger] s[k]),
        j < s.len() ==> spec_pair_le(p, s[j]),
    ensures
        spec_insert_sorted(p, s) == s.take(j) + seq![p] + s.skip(j),
    decreases j,
{
    if s.len() == 0 {
        assert(spec_insert_sorted(p, s) =~= s.take(j) + seq![p] + s.skip(j));
    } else if j == 0 {
        assert(s.take(0) + seq![p] + s.skip(0) =~= seq![p] + s);
    } else {
        lemma_insert_sorted_at(p, s.drop_first(), j - 1);
        assert(s.drop_first().take(j - 1) =~= s.take(j).drop_first());
        assert(s.drop_first().skip(j - 1) =~= s.skip(j));
        assert(seq![s[0]] + (s.drop_first().take(j - 1) + seq![p] + s.drop_first().skip(j - 1))
            =~= s.take(j) + seq![p] + s.skip(j));
    }
}

fn insert_sorted(pairs: &mut Vec<QueryPair>, p: QueryPair)
    ensures
        final(pairs)@.map_values(|q: QueryPair| q@) == spec_insert_sorted(
            p@,
            old(pairs)@.map_values(|q: QueryPair| q@),
        ),
{
    let ghost s = pairs@.map_values(|q: QueryPair| q@);
    let n = pairs.len();
    let mut j: usize = 0;
    while j < n && !pair_le(&p, &pairs[j])
        invariant
            0 <= j <= n,
            n == pairs@.len(),
            s == pairs@.map_values(|q: QueryPair| q@),
            forall|k: int| 0 <= k < j ==> !spec_pair_le(p@, #[trigger] s[k]),
        decreases n - j,
    {
        j = j + 1;
    }
    proof {
        lemma_insert_sorted_at(p@, s, j as int);
    }
    pairs.insert(j, p);
    proof {
        assert(pairs@.map_values(|q: QueryPair| q@) =~= s.take(j as int) + seq![p@] + s.skip(
            j as int,
        ));
    }
}

fn sort_pairs(mut pairs: Vec<QueryPair>) -> (r: Vec<QueryPair>)
    ensures
        r@.map_values(|q: QueryPair| q@) == spec_sort_pairs(pairs@.map_values(|q: QueryPair| q@)),
{
    let ghost s = pairs@.map_values(|q: QueryPair| q@);
    let mut out: Vec<QueryPair> = Vec::new();
    proof {
        assert(s.skip(pairs@.len() as int) =~= Seq::<(Seq<u8>, Seq<u8>)>::empty());
        assert(out@.map_values(|q: QueryPair| q@) =~= spec_sort_pairs(s.skip(pairs@.len() as int)));
    }
    while pairs.len() > 0
        invariant
            pairs@.len() <= s.len(),
            pairs@.map_values(|q: QueryPair| q@) =~= s.take(pairs@.len() as int),
            out@.map_values(|q: QueryPair| q@) =~= spec_sort_pairs(s.skip(pairs@.len() as int)),
        decreases pairs@.len(),
    {
        let ghost k = pairs@.len() as int;
        let ghost prev = pairs@;
        let p = pairs.pop().unwrap();
        proof {
            assert(prev.map_values(|q: QueryPair| q@)[k - 1] == prev[k - 1]@);
            assert(s.take(k)[k - 1] == s[k - 1]);
            assert(p@ == s[k - 1]);
            assert forall|t: int| 0 <= t < k - 1 implies (#[trigger] pairs@[t])@ == s.take(
                k - 1,
            )[t] by {
                assert(prev.map_values(|q: QueryPair| q@)[t] == prev[t]@);
                assert(s.take(k)[t] == s[t]);
            }
            assert forall|t: int| 0 <= t < k - 1 implies #[trigger] s.take(k - 1)[t] == pairs@[t]@
                by {}
            assert(pairs@.map_values(|q: QueryPair| q@) =~= s.take(k - 1));
            assert(s.skip(k - 1)[0] == s[k - 1]);
            assert(s.skip(k - 1).drop_first() =~= s.skip(k));
        }
        insert_sorted(&mut out, p);
        proof {
            assert(out@.map_values(|q: QueryPair| q@) =~= spec_sort_pairs(s.skip(k - 1)));
        }
    }
    proof {
        assert(s.skip(0) =~= s);
    }
    out
}

/// The rendering of one pair as `name=value`.
pub open spec fn spec_render_pair(p: (Seq<u8>, Seq<u8>)) -> Seq<u8> {
    p.0 + seq![61u8] + p.1
}

/// Pairs joined with `&`.
pub open spec fn spec_join_pairs(ps: Seq<(Seq<u8>, Seq<u8>)>) -> Seq<u8>
    decreases ps.len(),
{
    if ps.len() == 0 {
        Seq::empty()
    } else if ps.len() == 1 {
        spec_render_pair(ps[0])
    } else {
        spec_render_pair(ps[0]) + seq![38u8] + spec_join_pairs(ps.drop_first())
    }
}

proof fn lemma_join_pairs_snoc(ps: Seq<(Seq<u8>, Seq<u8>)>, p: (Seq<u8>, Seq<u8>))
    ensures
        ps.len() == 0 ==> spec_join_pairs(ps.push(p)) == spec_render_pair(p),
        ps.len() > 0 ==> spec_join_pairs(ps.push(p)) == spec_join_pairs(ps) + seq![38u8]
            + spec_render_pair(p),
    decreases ps.len(),
{
    if ps.len() == 0 {
        assert(spec_join_pairs(ps.push(p)) =~= spec_render_pair(p));
    } else {
        lemma_join_pairs_snoc(ps.drop_first(), p);
        assert(ps.push(p).drop_first() =~= ps.drop_first().push(p));
        if ps.len() == 1 {
            assert(spec_join_pairs(ps.push(p)) =~= spec_join_pairs(ps) + seq![38u8]
                + spec_render_pair(p));
        } else {
            assert(spec_join_pairs(ps.push(p)) =~= spec_join_pairs(ps) + seq![38u8]
                + spec_render_pair(p));
        }
    }
}

fn join_pairs(pairs: &Vec<QueryPair>) -> (r: Vec<u8>)
    ensures
        r@ == spec_join_pairs(pairs@.map_values(|q: QueryPair| q@)),
{
    let ghost s = pairs@.map_values(|q: QueryPair| q@);
    let n = pairs.len();
    let mut out: Vec<u8> = Vec::new();
    let mut i: usize = 0;
    while i < n
        invariant
            0 <= i <= n,
            n == pairs@.len(),
            s == pairs@.map_values(|q: QueryPair| q@),
            out@ =~= spec_join_pairs(s.take(i as int)),
        decreases n - i,
    {
        if i > 0 {
            out.push(38);
        }
        let ghost before = out@;
        out.append(&mut pairs[i].name.clone());
        out.push(61);
        out.append(&mut pairs[i].value.clone());
        proof {
            assert(out@ =~= before + spec_render_pair(s[i as int]));
            assert(s.take(i + 1).drop_last() =~= s.take(i as int));
            assert(s.take(i + 1) =~= s.take(i as int).push(s[i as int]));
            lemma_join_pairs_snoc(s.take(i as int), s[i as int]);
        }
        i = i + 1;
    }
    proof {
        assert(s.take(n as int) =~= s);
    }
    out
}

/// The canonical query of a query string's bytes: split on `&`, empty parts
/// dropped, each part split at its first `=` (a missing `=` yields an empty
/// value), name and value percent-encoded, pairs sorted by encoded name then
/// encoded value, and joined back with `=` and `&`.
pub open spec fn spec_canonical_query(q: Seq<u8>) -> Seq<u8> {
    spec_join_pairs(spec_sort_pairs(spec_pairs(spec_split(q, 38))))
}

/// The canonical query as characters (its bytes are all ASCII).
pub open spec fn spec_canonical_query_chars(q: Seq<u8>) -> Seq<char> {
    spec_canonical_query(q).map_values(|b: u8| b as char)
}

/// Both halves of a pair hold only encoded bytes: unreserved or `%`.
pub open spec fn pair_is_encoded(p: (Seq<u8>, Seq<u8>)) -> bool {
    (forall|i: int| 0 <= i < p.0.len() ==> spec_is_unreserved(#[trigger] p.0[i]) || p.0[i] == 37)
        && (forall|i: int|
        0 <= i < p.1.len() ==> spec_is_unreserved(#[trigger] p.1[i]) || p.1[i] == 37)
}

pub open spec fn pairs_are_encoded(s: Seq<(Seq<u8>, Seq<u8>)>) -> bool {
    forall|k: int| 0 <= k < s.len() ==> pair_is_encoded(#[trigger] s[k])
}

proof fn lemma_insert_sorted_encoded(p: (Seq<u8>, Seq<u8>), s: Seq<(Seq<u8>, Seq<u8>)>)
    requires
        pairs_are_encoded(s),
        pair_is_encoded(p),
    ensures
        pairs_are_encoded(spec_insert_sorted(p, s)),
    decreases s.len(),
{
    if s.len() > 0 && !spec_pair_le(p, s[0]) {
        lemma_insert_sorted_encoded(p, s.drop_first());
        assert forall|k: int| 0 <= k < spec_insert_sorted(p, s).len() implies pair_is_encoded(
            #[trigger] spec_insert_sorted(p, s)[k],
        ) by {
            if k > 0 {
                assert(spec_insert_sorted(p, s)[k] == spec_insert_sorted(p, s.drop_first())[k - 1]);
            }
        }
    }
}

proof fn lemma_sort_pairs_encoded(s: Seq<(Seq<u8>, Seq<u8>)>)
    requires
        pairs_are_encoded(s),
    ensures
        pairs_are_encoded(spec_sort_pairs(s)),
    decreases s.len(),
{
    if s.len() > 0 {
        assert(pairs_are_encoded(s.drop_first()));
        lemma_sort_pairs_encoded(s.drop_first());
        lemma_insert_sorted_encoded(s[0], spec_sort_pairs(s.drop_first()));
    }
}

proof fn lemma_join_pairs_wellformed(s: Seq<(Seq<u8>, Seq<u8>)>)
    requires
        pairs_are_encoded(s),
    ensures
        forall|i: int|
            0 <= i < spec_join_pairs(s).len() ==> {
                let b = #[trigger] spec_join_pairs(s)[i];
                spec_is_unreserved(b) || b == 37 || b == 61 || b == 38
            },
    decreases s.len(),
{
    let e = spec_join_pairs(s);
    if s.len() == 1 {
        assert(pair_is_encoded(s[0]));
        let r = spec_render_pair(s[0]);
        assert forall|i: int|
            0 <= i < e.len() implies spec_is_unreserved(#[trigger] e[i]) || e[i] == 37 || e[i]
            == 61 || e[i] == 38 by {
            if i < s[0].0.len() {
                assert(r[i] == s[0].0[i]);
            } else if i == s[0].0.len() {
                assert(r[i] == 61);
            } else {
                assert(r[i] == s[0].1[i - s[0].0.len() - 1]);
            }
        }
    } else if s.len() > 1 {
        assert(pair_is_encoded(s[0]));
        assert forall|k: int| 0 <= k < s.drop_first().len() implies pair_is_encoded(
            #[trigger] s.drop_first()[k],
        ) by {
            assert(s.drop_first()[k] == s[k + 1]);
        }
        lemma_join_pairs_wellformed(s.drop_first());
        let r = spec_render_pair(s[0]);
        let t = spec_join_pairs(s.drop_first());
        assert forall|i: int|
            0 <= i < e.len() implies spec_is_unreserved(#[trigger] e[i]) || e[i] == 37 || e[i]
            == 61 || e[i] == 38 by {
            if i < s[0].0.len() {
                assert(e[i] == s[0].0[i]);
            } else if i == s[0].0.len() {
                assert(e[i] == 61);
            } else if i < r.len() {
                assert(e[i] == s[0].1[i - s[0].0.len() - 1]);
            } else if i == r.len() {
                assert(e[i] == 38);
            } else {
                assert(e[i] == t[i - r.len() - 1]);
            }
        }
    }
}

proof fn lemma_pairs_encoded(parts: Seq<Seq<u8>>)
    ensures
        pairs_are_encoded(spec_pairs(parts)),
    decreases parts.len(),
{
    if parts.len() > 0 {
        lemma_pairs_encoded(parts.drop_first());
        if parts[0].len() > 0 {
            let (n, v) = spec_raw_pair(parts[0]);
            lemma_encode_bytes_wellformed(n, false);
            lemma_encode_bytes_wellformed(v, false);
            assert(pair_is_encoded(spec_encoded_pair(parts[0])));
            assert forall|k: int| 0 <= k < spec_pairs(parts).len() implies pair_is_encoded(
                #[trigger] spec_pairs(parts)[k],
            ) by {
                if k > 0 {
                    assert(spec_pairs(parts)[k] == spec_pairs(parts.drop_first())[k - 1]);
                }
            }
        }
    }
}

/// Canonicalizes a query string. An absent query canonicalizes to the empty
/// string; a present one as [`spec_canonical_query`] says.
pub fn canonicalize_query(query: Option<&str>) -> (r: String)
    ensures
        query is None ==> r@ == Seq::<char>::empty(),
        query matches Some(q) ==> r@ == spec_canonical_query_chars(q.spec_bytes()),
{
    let q = match query {
        None => {
            let out = String::new();
            return out;
        },
        Some(q) => q,
    };
    let parts = split_bytes(q.as_bytes(), 38);
    let ghost gparts = parts@.map_values(|p: Vec<u8>| p@);
    let n = parts.len();
    let mut pairs: Vec<QueryPair> = Vec::new();
    let mut i: usize = 0;
    while i < n
        invariant
            0 <= i <= n,
            n == parts@.len(),
            gparts == parts@.map_values(|p: Vec<u8>| p@),
            pairs@.map_values(|p: QueryPair| p@) =~= spec_pairs(gparts.take(i as int)),
        decreases n - i,
    {
        proof {
            assert(gparts.take(i + 1) =~= gparts.take(i as int) + seq![gparts[i as int]]);
            lemma_pairs_concat(gparts.take(i as int), seq![gparts[i as int]]);
            assert(seq![gparts[i as int]].drop_first() =~= Seq::<Seq<u8>>::empty());
            assert(spec_pairs(Seq::<Seq<u8>>::empty()) =~= Seq::<(Seq<u8>, Seq<u8>)>::empty());
            assert(spec_pairs(seq![gparts[i as int]]) =~= if gparts[i as int].len() == 0 {
                Seq::<(Seq<u8>, Seq<u8>)>::empty()
            } else {
                seq![spec_encoded_pair(gparts[i as int])]
            });
        }
        if parts[i].len() > 0 {
            let p = encoded_pair(&parts[i]);
            pairs.push(p);
        }
        proof {
            assert(pairs@.map_values(|p: QueryPair| p@) =~= spec_pairs(gparts.take(i + 1)));
        }
        i = i + 1;
    }
    proof {
        assert(gparts.take(n as int) =~= gparts);
    }
    let ghost gpairs = pairs@.map_values(|p: QueryPair| p@);
    let sorted = sort_pairs(pairs);
    let out = join_pairs(&sorted);
    proof {
        lemma_pairs_encoded(gparts);
        lemma_sort_pairs_encoded(gpairs);
        lemma_join_pairs_wellformed(spec_sort_pairs(gpairs));
        assert forall|k: int| 0 <= k < out@.len() implies #[trigger] out@[k] < 128 by {
            assert(spec_is_unreserved(out@[k]) || out@[k] == 37 || out@[k] == 61 || out@[k] == 38);
        }
    }
    ascii_to_string(&out)
}

/// Every canonical query holds only unreserved bytes, `%` groups, and the
/// `=` and `&` separators.
pub proof fn lemma_canonical_query_wellformed(q: Seq<u8>)
    ensures
        forall|i: int|
            0 <= i < spec_canonical_query(q).len() ==> {
                let b = #[trigger] spec_canonical_query(q)[i];
                spec_is_unreserved(b) || b == 37 || b == 61 || b == 38
            },
{
    lemma_pairs_encoded(spec_split(q, 38));
    lemma_sort_pairs_encoded(spec_pairs(spec_split(q, 38)));
    lemma_join_pairs_wellformed(spec_sort_pairs(spec_pairs(spec_split(q, 38))));
}

/// The first index at which a character occurs, or -1.
pub open spec fn spec_first_char_index(s: Seq<char>, c: char) -> int
    decreases s.len(),
{
    if s.len() == 0 {
        -1
    } else if s[0] == c {
        0
    } else if spec_first_char_index(s.drop_first(), c) < 0 {
        -1
    } else {
        1 + spec_first_char_index(s.drop_first(), c)
    }
}

proof fn lemma_first_char_index(s: Seq<char>, c: char)
    ensures
        spec_first_char_index(s, c) >= 0 ==> spec_first_char_index(s, c) < s.len() && s[
            spec_first_char_index(s, c)
        ] == c && (forall|k: int| 0 <= k < spec_first_char_index(s, c) ==> s[k] != c),
        spec_first_char_index(s, c) < 0 ==> forall|k: int| 0 <= k < s.len() ==> s[k] != c,
    decreases s.len(),
{
    if s.len() > 0 && s[0] != c {
        lemma_first_char_index(s.drop_first(), c);
        let inner = spec_first_char_index(s.drop_first(), c);
        if inner >= 0 {
            assert(s[1 + inner] == s.drop_first()[inner]);
            assert forall|k: int| 0 <= k < 1 + inner implies s[k] != c by {
                if k > 0 {
                    assert(s.drop_first()[k - 1] != c);
                }
            }
        } else {
            assert forall|k: int| 0 <= k < s.len() implies s[k] != c by {
                if k > 0 {
                    assert(s.drop_first()[k - 1] != c);
                }
            }
        }
    }
}

/// Splits a request path at its first `?` into the raw path and the raw
/// query; a path without `?` has no query.
pub fn split_path_query(path: &str) -> (r: (&str, Option<&str>))
    ensures
        spec_first_char_index(path@, '?') < 0 ==> r.0@ == path@ && r.1 is None,
        spec_first_char_index(path@, '?') >= 0 ==> {
            let i = spec_first_char_index(path@, '?');
            r.0@ == path@.take(i) && (r.1 matches Some(q) && q@ == path@.skip(i + 1))
        },
{
    let n = path.unicode_len();
    let mut i: usize = 0;
    while i < n && path.get_char(i) != '?'
        invariant
            0 <= i <= n,
            n == path@.len(),
            forall|k: int| 0 <= k < i ==> path@[k] != '?',
        decreases n - i,
    {
        i = i + 1;
    }
    proof {
        lemma_first_char_index(path@, '?');
    }
    if i == n {
        proof {
            assert(spec_first_char_index(path@, '?') < 0);
        }
        (path, None)
    } else {
        proof {
            assert(spec_first_char_index(path@, '?') == i as int);
        }
        let raw_path = path.substring_char(0, i);
        let raw_query = path.substring_char(i + 1, n);
        proof {
            assert(raw_path@ =~= path@.take(i as int));
            assert(raw_query@ =~= path@.skip(i + 1));
        }
        (raw_path, Some(raw_query))
    }
}

} // verus!
