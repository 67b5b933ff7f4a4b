//! API-key authentication.
//!
//! One axis, three points. An `open` registry requires no credential at all.
//! `public-pull` serves every read to anyone and requires the write key for
//! everything that changes the registry. `private` requires a key for
//! everything, with a read key that reads and a write key that does both.
//!
//! `Basic` is the scheme advertised, because it is the challenge a client
//! answers by sending the credentials it already holds. `Bearer <key>` is
//! accepted anyway and never advertised.
//!
//! A credential that *is* presented is checked in every mode but `open`,
//! including on a read that required none: a registry that answers `200` to
//! `Authorization: Bearer wrong` gives a client no way to find out that it is
//! misconfigured.

use axum::http::HeaderMap;
use vstd::prelude::*;
use vstd::string::*;
use vstd::utf8::*;

use crate::error::{ApiError, ApiErrorView, ErrorCode};
use crate::random;
use crate::text;
use crate::wire;
use crate::wire::{Method, MethodView};

verus! {

// ---- base64 ------------------------------------------------------------------

/// The value of a letter of the base64 alphabet.
pub open spec fn sextet(b: u8) -> Option<int> {
    if 0x41 <= b && b <= 0x5a {
        Some(b - 0x41)
    } else if 0x61 <= b && b <= 0x7a {
        Some(b - 0x61 + 26)
    } else if 0x30 <= b && b <= 0x39 {
        Some(b - 0x30 + 52)
    } else if b == 0x2b {
        Some(62)
    } else if b == 0x2f {
        Some(63)
    } else {
        None
    }
}

/// The three bytes that four sextets stand for.
pub open spec fn triple(a: int, b: int, c: int, d: int) -> Seq<u8> {
    let v = ((a * 64 + b) * 64 + c) * 64 + d;
    seq![(v / 65536) as u8, (v / 256 % 256) as u8, (v % 256) as u8]
}

/// The bytes that unpadded base64 stands for: four letters make three bytes,
/// and a tail of two or three letters makes one or two.
pub open spec fn ungroup(b: Seq<u8>) -> Option<Seq<u8>>
    decreases b.len(),
{
    if b.len() == 0 {
        Some(Seq::empty())
    } else if b.len() == 1 {
        None
    } else if b.len() == 2 {
        match (sextet(b[0]), sextet(b[1])) {
            (Some(x), Some(y)) => Some(triple(x, y, 0, 0).take(1)),
            _ => None,
        }
    } else if b.len() == 3 {
        match (sextet(b[0]), sextet(b[1]), sextet(b[2])) {
            (Some(x), Some(y), Some(z)) => Some(triple(x, y, z, 0).take(2)),
            _ => None,
        }
    } else {
        match (sextet(b[0]), sextet(b[1]), sextet(b[2]), sextet(b[3]), ungroup(b.skip(4))) {
            (Some(x), Some(y), Some(z), Some(w), Some(rest)) => Some(triple(x, y, z, w) + rest),
            _ => None,
        }
    }
}

/// `b` without one or two `=` at its end.
pub open spec fn unpadded(b: Seq<u8>) -> Seq<u8> {
    let n = b.len() as int;
    if n >= 2 && b[n - 1] == 0x3d && b[n - 2] == 0x3d {
        b.take(n - 2)
    } else if n >= 1 && b[n - 1] == 0x3d {
        b.take(n - 1)
    } else {
        b
    }
}

/// The bytes that base64 text stands for, padding optional.
pub open spec fn base64(s: Seq<char>) -> Option<Seq<u8>> {
    ungroup(unpadded(encode_utf8(s)))
}

fn sextet_of(b: u8) -> (r: Option<u32>)
    ensures
        match r {
            Some(v) => sextet(b) == Some(v as int) && v < 64,
            None => sextet(b) is None,
        },
{
    if 0x41 <= b && b <= 0x5a {
        Some((b - 0x41) as u32)
    } else if 0x61 <= b && b <= 0x7a {
        Some((b - 0x61) as u32 + 26)
    } else if 0x30 <= b && b <= 0x39 {
        Some((b - 0x30) as u32 + 52)
    } else if b == 0x2b {
        Some(62)
    } else if b == 0x2f {
        Some(63)
    } else {
        None
    }
}

/// What is left to read decides whether the whole can be read.
spec fn onward(done: Seq<u8>, rest: Seq<u8>) -> Option<Seq<u8>> {
    match ungroup(rest) {
        Some(tail) => Some(done + tail),
        None => None,
    }
}

/// Standard base64 (RFC 4648 §4), padding optional.
///
/// Padding is optional because a client that omits it is still unambiguous,
/// and `Basic` is old enough to have all of them.
pub fn base64_decode(input: &str) -> (r: Option<Vec<u8>>)
    ensures
        wire::opt_bytes(r) == base64(input@),
{
    let bytes = input.as_bytes();
    let mut n: usize = bytes.len();
    if n >= 2 && bytes[n - 1] == 0x3d && bytes[n - 2] == 0x3d {
        n = n - 2;
    } else if n >= 1 && bytes[n - 1] == 0x3d {
        n = n - 1;
    }
    let ghost all = bytes@.take(n as int);
    proof {
        assert(all =~= unpadded(bytes@));
        assert(all.skip(0) =~= all);
    }
    let mut out: Vec<u8> = Vec::new();
    let mut i: usize = 0;
    proof {
        assert(onward(out@, all) == ungroup(all)) by {
            if ungroup(all) is Some {
                assert(out@ + ungroup(all)->0 =~= ungroup(all)->0);
            }
        }
    }
    while i < n
        invariant
            0 <= i <= n <= bytes@.len(),
            all == bytes@.take(n as int),
            base64(input@) == ungroup(all),
            ungroup(all) == onward(out@, all.skip(i as int)),
        decreases n - i,
    {
        let ghost rest = all.skip(i as int);
        let left: usize = n - i;
        let size: usize = if left < 4 {
            left
        } else {
            4
        };
        // One leftover letter cannot be the tail of any encoding: a group of
        // bytes is 2, 3 or 4 letters, never 1.
        if size == 1 {
            return None;
        }
        let mut acc: u32 = 0;
        let mut j: usize = 0;
        let ghost mut seen: Seq<int> = Seq::empty();
        while j < size
            invariant
                0 <= j <= size <= 4,
                2 <= size,
                i + size <= n <= bytes@.len(),
                rest.len() == n - i,
                size == 4 || size == rest.len(),
                all == bytes@.take(n as int),
                rest == all.skip(i as int),
                base64(input@) == onward(out@, rest),
                seen.len() == j,
                forall|k: int| 0 <= k < j ==> sextet(rest[k]) == Some(#[trigger] seen[k]) && 0 <= seen[k] < 64,
                acc == (if j == 0 {
                    0
                } else if j == 1 {
                    seen[0]
                } else if j == 2 {
                    seen[0] * 64 + seen[1]
                } else if j == 3 {
                    (seen[0] * 64 + seen[1]) * 64 + seen[2]
                } else {
                    ((seen[0] * 64 + seen[1]) * 64 + seen[2]) * 64 + seen[3]
                }),
            decreases size - j,
        {
            assert(rest[j as int] == bytes@[i + j]);
            match sextet_of(bytes[i + j]) {
                Some(v) => {
                    assert(acc < 64 * 64 * 64);
                    acc = acc * 64 + v;
                    proof {
                        seen = seen.push(v as int);
                    }
                },
                None => {
                    proof {
                        assert(sextet(rest[j as int]) is None);
                        assert(ungroup(rest) is None);
                    }
                    return None;
                },
            }
            j = j + 1;
        }
        // A short final group holds 12 or 18 significant bits; shift them up so
        // that the same extraction works on every group.
        if size == 2 {
            acc = acc * 4096;
        } else if size == 3 {
            acc = acc * 64;
        }
        let ghost before = out@;
        proof {
            assert(acc < 16777216);
            assert(sextet(rest[0]) == Some(seen[0]));
            assert(sextet(rest[1]) == Some(seen[1]));
            if size >= 3 {
                assert(sextet(rest[2]) == Some(seen[2]));
            }
            if size >= 4 {
                assert(sextet(rest[3]) == Some(seen[3]));
            }
        }
        out.push((acc / 65536) as u8);
        if size >= 3 {
            out.push((acc / 256 % 256) as u8);
        }
        if size == 4 {
            out.push((acc % 256) as u8);
        }
        proof {
            let z = if size >= 3 {
                seen[2]
            } else {
                0
            };
            let w = if size >= 4 {
                seen[3]
            } else {
                0
            };
            let group = triple(seen[0], seen[1], z, w);
            assert(acc == ((seen[0] * 64 + seen[1]) * 64 + z) * 64 + w);
            assert(out@ =~= before + group.take(size - 1));
            if size == 4 {
                assert(group.take(3) =~= group);
                assert(rest.skip(4) =~= all.skip(i + 4));
                if ungroup(rest.skip(4)) is Some {
                    assert(out@ + ungroup(rest.skip(4))->0 =~= before + (group + ungroup(rest.skip(4))->0));
                }
            } else {
                assert(all.skip(i + size) =~= Seq::<u8>::empty());
                assert(ungroup(rest) == Some(group.take(size - 1)));
                assert(out@ + Seq::<u8>::empty() =~= before + group.take(size - 1));
            }
            assert(onward(before, rest) == onward(out@, all.skip(i + size)));
        }
        i = i + size;
    }
    proof {
        assert(all.skip(n as int) =~= Seq::<u8>::empty());
        assert(out@ + Seq::<u8>::empty() =~= out@);
    }
    Some(out)
}

/// The letter of a sextet.
pub open spec fn letter(v: int) -> u8 {
    if v < 26 {
        (v + 0x41) as u8
    } else if v < 52 {
        (v - 26 + 0x61) as u8
    } else if v < 62 {
        (v - 52 + 0x30) as u8
    } else if v == 62 {
        0x2b
    } else {
        0x2f
    }
}

/// Bytes in base64, without padding.
pub open spec fn group(x: Seq<u8>) -> Seq<u8>
    decreases x.len(),
{
    if x.len() == 0 {
        Seq::empty()
    } else if x.len() == 1 {
        seq![letter(x[0] as int / 4), letter(x[0] as int % 4 * 16)]
    } else if x.len() == 2 {
        seq![
            letter(x[0] as int / 4),
            letter(x[0] as int % 4 * 16 + x[1] as int / 16),
            letter(x[1] as int % 16 * 4),
        ]
    } else {
        seq![
            letter(x[0] as int / 4),
            letter(x[0] as int % 4 * 16 + x[1] as int / 16),
            letter(x[1] as int % 16 * 4 + x[2] as int / 64),
            letter(x[2] as int % 64),
        ] + group(x.skip(3))
    }
}

/// The `=` that fill base64 up to a multiple of four letters.
pub open spec fn padding(x: Seq<u8>) -> Seq<u8> {
    if x.len() % 3 == 1 {
        seq![0x3du8, 0x3du8]
    } else if x.len() % 3 == 2 {
        seq![0x3du8]
    } else {
        Seq::empty()
    }
}

/// Bytes as ASCII text.
pub open spec fn ascii_text(b: Seq<u8>) -> Seq<char> {
    b.map_values(|c: u8| c as char)
}

proof fn lemma_letter(v: int)
    requires
        0 <= v < 64,
    ensures
        sextet(letter(v)) == Some(v),
        letter(v) != 0x3d,
        0x2b <= letter(v) < 0x7b,
{
}

proof fn lemma_group_letters(x: Seq<u8>)
    ensures
        forall|i: int| 0 <= i < group(x).len() ==> sextet(#[trigger] group(x)[i]) is Some,
        group(x).len() == 0 <==> x.len() == 0,
    decreases x.len(),
{
    if x.len() >= 3 {
        lemma_group_letters(x.skip(3));
    }
}

/// Three bytes survive being written as four sextets.
proof fn lemma_triple(x: int, y: int, z: int)
    requires
        0 <= x < 256,
        0 <= y < 256,
        0 <= z < 256,
    ensures
        triple(x / 4, x % 4 * 16 + y / 16, y % 16 * 4 + z / 64, z % 64) == seq![
            x as u8,
            y as u8,
            z as u8,
        ],
        0 <= x / 4 < 64,
        0 <= x % 4 * 16 + y / 16 < 64,
        0 <= y % 16 * 4 + z / 64 < 64,
        0 <= z % 64 < 64,
{
    let (xq, xr, yq, yr, zq, zr) = (x / 4, x % 4, y / 16, y % 16, z / 64, z % 64);
    assert(x == 4 * xq + xr && y == 16 * yq + yr && z == 64 * zq + zr);
    let v = ((xq * 64 + (xr * 16 + yq)) * 64 + (yr * 4 + zq)) * 64 + zr;
    assert(v == 65536 * x + 256 * y + z);
    vstd::arithmetic::div_mod::lemma_fundamental_div_mod_converse(v, 65536, x, 256 * y + z);
    vstd::arithmetic::div_mod::lemma_fundamental_div_mod_converse(v, 256, 256 * x + y, z);
    vstd::arithmetic::div_mod::lemma_fundamental_div_mod_converse(256 * x + y, 256, x, y);
    assert(triple(xq, xr * 16 + yq, yr * 4 + zq, zr) =~= seq![x as u8, y as u8, z as u8]);
}

proof fn lemma_ungroup_group(x: Seq<u8>)
    ensures
        ungroup(group(x)) == Some(x),
    decreases x.len(),
{
    let g = group(x);
    if x.len() == 0 {
        assert(x =~= Seq::<u8>::empty());
    } else if x.len() == 1 {
        let a = x[0] as int;
        lemma_triple(a, 0, 0);
        lemma_letter(a / 4);
        lemma_letter(a % 4 * 16);
        assert(triple(a / 4, a % 4 * 16, 0, 0).take(1) =~= x);
    } else if x.len() == 2 {
        let a = x[0] as int;
        let b = x[1] as int;
        lemma_triple(a, b, 0);
        lemma_letter(a / 4);
        lemma_letter(a % 4 * 16 + b / 16);
        lemma_letter(b % 16 * 4);
        assert(triple(a / 4, a % 4 * 16 + b / 16, b % 16 * 4, 0).take(2) =~= x);
    } else {
        let a = x[0] as int;
        let b = x[1] as int;
        let c = x[2] as int;
        lemma_triple(a, b, c);
        lemma_letter(a / 4);
        lemma_letter(a % 4 * 16 + b / 16);
        lemma_letter(b % 16 * 4 + c / 64);
        lemma_letter(c % 64);
        lemma_ungroup_group(x.skip(3));
        assert(g.skip(4) =~= group(x.skip(3)));
        assert(seq![x[0], x[1], x[2]] + x.skip(3) =~= x);
    }
}

/// Base64 reads back whatever bytes were written in it, for every length of
/// the last group, with the padding or without.
pub proof fn law_base64_round_trip(x: Seq<u8>)
    ensures
        base64(ascii_text(group(x))) == Some(x),
        base64(ascii_text(group(x) + padding(x))) == Some(x),
{
    let g = group(x);
    lemma_ungroup_group(x);
    lemma_group_letters(x);
    lemma_ascii_bytes(g);
    lemma_ascii_bytes(g + padding(x));
    let n = g.len() as int;
    if n > 0 {
        assert(sextet(g[n - 1]) is Some);
    }
    assert(unpadded(g) =~= g);
    let p = g + padding(x);
    if padding(x).len() == 1 {
        assert(p[p.len() - 1] == 0x3d);
        if p.len() >= 2 {
            assert(p[p.len() - 2] == g[n - 1]);
        }
    }
    assert(unpadded(p) =~= g);
}

/// ASCII bytes are the encoding of their text.
proof fn lemma_ascii_bytes(b: Seq<u8>)
    requires
        forall|i: int| 0 <= i < b.len() ==> #[trigger] b[i] < 128,
    ensures
        encode_utf8(ascii_text(b)) == b,
        is_ascii_chars(ascii_text(b)),
{
    let s = ascii_text(b);
    assert forall|i: int| 0 <= i < s.len() implies '\0' <= #[trigger] s[i] <= '\u{7f}' by {
        assert(b[i] < 128);
    }
    is_ascii_chars_encode_utf8(s);
    assert(encode_utf8(s) =~= b);
}

// ---- credentials -------------------------------------------------------------

/// The key in a decoded `user:password`: the password, or the user name where
/// the password is empty.
pub open spec fn basic_key(decoded: Seq<char>) -> Option<Seq<char>> {
    match decoded.index_of_first(':') {
        None => None,
        Some(i) => {
            let user = decoded.take(i);
            let password = decoded.skip(i + 1);
            let key = if password.len() == 0 {
                user
            } else {
                password
            };
            if key.len() == 0 {
                None
            } else {
                Some(key)
            }
        },
    }
}

/// The key that an `Authorization` value presents.
pub open spec fn credential_of(value: Seq<char>) -> Option<Seq<char>> {
    match value.index_of_first(' ') {
        None => None,
        Some(i) => {
            let scheme = text::lower(value.take(i));
            let rest = text::trim(value.skip(i + 1));
            if scheme == "bearer"@ {
                if rest.len() == 0 {
                    None
                } else {
                    Some(rest)
                }
            } else if scheme == "basic"@ {
                match base64(rest) {
                    Some(bytes) => if valid_utf8(bytes) {
                        basic_key(decode_utf8(bytes))
                    } else {
                        None
                    },
                    None => None,
                }
            } else {
                None
            }
        },
    }
}

/// Pull the key out of an `Authorization` value.
///
/// `Basic` takes the **password**, ignoring the username: the key is the whole
/// credential. A `Basic` value with an empty password falls back to the
/// username, which is what `curl -u <key>:` sends. The split is at the *first*
/// colon, so a key containing `:` survives.
///
/// The scheme is matched case-insensitively, per RFC 9110.
pub fn credential(value: &str) -> (r: Option<String>)
    ensures
        text::opt_text(r) == credential_of(value@),
{
    let v = text::to_chars(value);
    let n: usize = v.len();
    let at: usize = match text::find_first(&v, ' ') {
        Some(at) => at,
        None => return None,
    };
    proof {
        assert(v@.subrange(0, at as int) =~= value@.take(at as int));
        assert(v@.subrange(at + 1, v@.len() as int) =~= value@.skip(at + 1));
    }
    let scheme = text::lower_text(text::text_range(&v, 0, at).as_str());
    let rest = text::trim_range(&v, at + 1, n);
    if text::same(scheme.as_str(), "bearer") {
        if rest.as_str().is_empty() {
            return None;
        }
        return Some(rest);
    }
    if !text::same(scheme.as_str(), "basic") {
        return None;
    }
    let bytes = match base64_decode(rest.as_str()) {
        Some(bytes) => bytes,
        None => return None,
    };
    let decoded = match String::from_utf8(bytes) {
        Ok(decoded) => decoded,
        Err(_) => return None,
    };
    let d = text::to_chars(decoded.as_str());
    let m: usize = d.len();
    let colon: usize = match text::find_first(&d, ':') {
        Some(colon) => colon,
        None => return None,
    };
    proof {
        assert(d@.subrange(0, colon as int) =~= decoded@.take(colon as int));
        assert(d@.subrange(colon + 1, d@.len() as int) =~= decoded@.skip(colon + 1));
    }
    let key = if colon + 1 == m {
        text::text_range(&d, 0, colon)
    } else {
        text::text_range(&d, colon + 1, m)
    };
    if key.as_str().is_empty() {
        return None;
    }
    Some(key)
}

// ---- access ------------------------------------------------------------------

/// What a request needs in order to be served.
#[derive(Debug, Clone, Copy, PartialEq, Eq, Structural)]
pub enum Access {
    /// `GET`, `HEAD`, `OPTIONS`.
    Read,
    /// Everything else: `PUT`, `POST`, `PATCH`, `DELETE`.
    Write,
}

/// The level a method requires.
pub open spec fn access_of(method: MethodView) -> Access {
    match method {
        MethodView::Get => Access::Read,
        MethodView::Head => Access::Read,
        MethodView::Options => Access::Read,
        _ => Access::Write,
    }
}

impl Access {
    /// The level a method requires.
    ///
    /// Derived from the method alone: every operation that mutates the registry
    /// is a `PUT`, `POST`, `PATCH` or `DELETE`, and every one that does not is a
    /// `GET` or a `HEAD`. An unknown method lands on [`Access::Write`], the safe
    /// side of a rule that decides whether a stranger may change the registry.
    pub fn of(method: &Method) -> (r: Access)
        ensures
            r == access_of(method@),
    {
        match method {
            Method::Get | Method::Head | Method::Options => Access::Read,
            _ => Access::Write,
        }
    }
}

// ---- keys --------------------------------------------------------------------

/// One API key.
///
/// The wrapper exists for [`ApiKey::matches`], so that no caller compares a key
/// byte by byte, and for a debug text that never shows one.
#[derive(Clone, PartialEq, Eq)]
pub struct ApiKey {
    key: String,
}

impl View for ApiKey {
    type V = Seq<char>;

    closed spec fn view(&self) -> Seq<char> {
        self.key@
    }
}

/// `presented` is the key, and the key is not empty.
pub open spec fn key_matches(key: Seq<char>, presented: Seq<char>) -> bool {
    key.len() > 0 && key == presented
}

/// Two byte strings, each read round and round, agree at `j`.
spec fn agree(a: Seq<u8>, b: Seq<u8>, j: int) -> bool {
    a[j % (a.len() as int)] == b[j % (b.len() as int)]
}

proof fn lemma_or_zero(a: usize, b: usize)
    ensures
        (a | b) == 0 <==> (a == 0 && b == 0),
{
    assert((a | b) == 0 <==> (a == 0 && b == 0)) by (bit_vector);
}

proof fn lemma_xor_zero(a: u8, b: u8)
    ensures
        (a ^ b) == 0 <==> a == b,
{
    assert((a ^ b) == 0 <==> a == b) by (bit_vector);
}

proof fn lemma_xor_zero_len(a: usize, b: usize)
    ensures
        (a ^ b) == 0 <==> a == b,
{
    assert((a ^ b) == 0 <==> a == b) by (bit_vector);
}

/// A key as it is generated: two random UUIDs in hexadecimal, one after the
/// other.
pub open spec fn is_generated(key: Seq<char>) -> bool {
    exists|a: Seq<u8>, b: Seq<u8>|
        random::is_random_uuid(a) && random::is_random_uuid(b) && key == #[trigger] random::hex_of(
            a + b,
        )
}

/// A generated key is 64 hexadecimal digits.
pub proof fn lemma_generated(key: Seq<char>)
    requires
        is_generated(key),
    ensures
        random::is_hex_text(key, 64),
{
    let (a, b) = choose|a: Seq<u8>, b: Seq<u8>|
        random::is_random_uuid(a) && random::is_random_uuid(b) && key == #[trigger] random::hex_of(
            a + b,
        );
    random::lemma_hex_of(a + b);
}

impl ApiKey {
    pub fn new(key: &str) -> (r: ApiKey)
        ensures
            r@ == key@,
    {
        ApiKey { key: text::copy(key) }
    }

    /// A key made of 32 bytes: their lower-case hexadecimal.
    ///
    /// Hex rather than base64 because a key is pasted into shells, YAML and
    /// URLs, and none of `+`, `/` or `=` survives all of them unquoted.
    pub fn from_bytes(first: &[u8; 16], second: &[u8; 16]) -> (r: ApiKey)
        ensures
            r@ == random::hex_of(first@ + second@),
            random::is_hex_text(r@, 64),
    {
        let mut key = String::new();
        let ghost all = first@ + second@;
        let mut i: usize = 0;
        proof {
            assert(all.take(0) =~= Seq::<u8>::empty());
            assert(key@ =~= random::hex_of(all.take(0)));
        }
        while i < 32
            invariant
                0 <= i <= 32,
                all == first@ + second@,
                all.len() == 32,
                key@ == random::hex_of(all.take(i as int)),
            decreases 32 - i,
        {
            let b: u8 = if i < 16 {
                first[i]
            } else {
                second[i - 16]
            };
            let ghost before = key@;
            proof {
                assert(all[i as int] == b);
                assert(all.take(i + 1).drop_last() =~= all.take(i as int));
                assert(all.take(i + 1).last() == b);
            }
            key.push(random::hex_digit(b / 16));
            key.push(random::hex_digit(b % 16));
            assert(key@ =~= before + seq![random::hex_char(b as int / 16), random::hex_char(b as int % 16)]);
            i = i + 1;
        }
        proof {
            assert(all.take(32) =~= all);
            random::lemma_hex_of(all);
        }
        ApiKey { key }
    }

    /// A freshly generated key: 32 random bytes, lowercase hex.
    ///
    /// The randomness is two v4 UUIDs, which fix six bits each for version and
    /// variant.
    pub fn generate() -> (r: ApiKey)
        ensures
            is_generated(r@),
            random::is_hex_text(r@, 64),
    {
        let first = random::random_uuid();
        let second = random::random_uuid();
        let key = ApiKey::from_bytes(&first, &second);
        assert(random::is_random_uuid(first@) && random::is_random_uuid(second@) && key@
            == random::hex_of(first@ + second@));
        key
    }

    /// The key itself. Only the startup banner should call this, and only for a
    /// key it just generated.
    pub fn expose(&self) -> (r: &str)
        ensures
            r@ == self@,
    {
        self.key.as_str()
    }

    /// A copy of the key.
    pub fn copy(&self) -> (r: ApiKey)
        ensures
            r@ == self@,
    {
        ApiKey { key: text::copy(self.key.as_str()) }
    }

    /// What a log may show of a key: nothing.
    pub fn debug_text(&self) -> (r: String)
        ensures
            r@ == "ApiKey(<redacted>)"@,
    {
        text::copy("ApiKey(<redacted>)")
    }

    /// Compare in time independent of how much of the key is right.
    ///
    /// The fold always reads every byte of the longer of the two and mixes the
    /// length difference in, so neither the position of the first error nor the
    /// length of the key is in the timing. An empty key matches nothing.
    pub fn matches(&self, presented: &str) -> (r: bool)
        ensures
            r == key_matches(self@, presented@),
    {
        let expected = self.key.as_str().as_bytes();
        let got = presented.as_bytes();
        proof {
            encode_utf8_decode_utf8(self.key@);
            encode_utf8_decode_utf8(presented@);
            lemma_encoding_empty(self.key@);
            lemma_encoding_empty(presented@);
        }
        if expected.len() == 0 || got.len() == 0 {
            return false;
        }
        let n: usize = expected.len();
        let m: usize = got.len();
        let longer: usize = if n < m {
            m
        } else {
            n
        };
        let mut diff: usize = n ^ m;
        proof {
            lemma_xor_zero_len(n, m);
        }
        let mut i: usize = 0;
        while i < longer
            invariant
                0 <= i <= longer,
                n == expected@.len(),
                m == got@.len(),
                n > 0,
                m > 0,
                diff == 0 <==> (n == m && forall|j: int| 0 <= j < i ==> #[trigger] agree(expected@, got@, j)),
            decreases longer - i,
        {
            // Index modulo, rather than zip, so the loop count does not depend
            // on the shorter input.
            let a: u8 = expected[i % n];
            let b: u8 = got[i % m];
            proof {
                lemma_xor_zero(a, b);
                lemma_or_zero(diff, (a ^ b) as usize);
                assert(agree(expected@, got@, i as int) == (a == b));
            }
            diff = diff | ((a ^ b) as usize);
            i = i + 1;
        }
        proof {
            if diff == 0 {
                assert forall|j: int| 0 <= j < n implies expected@[j] == got@[j] by {
                    vstd::arithmetic::div_mod::lemma_small_mod(j as nat, n as nat);
                    assert(agree(expected@, got@, j));
                }
                assert(expected@ =~= got@);
            } else if self.key@ == presented@ {
                assert(expected@ == got@);
                assert(false);
            }
        }
        diff == 0
    }
}

proof fn lemma_encoding_empty(s: Seq<char>)
    ensures
        encode_utf8(s).len() == 0 <==> s.len() == 0,
{
    if s.len() > 0 {
        assert(encode_scalar(s[0] as u32).len() > 0);
    }
}

// ---- policies ----------------------------------------------------------------

/// How the registry decides who may do what.
///
/// A supplied key is never printed back: an operator who passed it already has
/// it. A *generated* key has nowhere else to be, so it is printed once and only
/// then.
#[derive(Clone)]
pub enum AuthPolicy {
    /// No credential required, to read or to write. The default.
    Open,
    /// The write key for anything that changes the registry, and anonymous
    /// reads.
    PublicPull { write: ApiKey },
    /// A read key and a write key. The write key also reads.
    Private { read: ApiKey, write: ApiKey },
}

/// How the registry decides who may do what, the keys as characters.
pub enum AuthPolicyView {
    Open,
    PublicPull { write: Seq<char> },
    Private { read: Seq<char>, write: Seq<char> },
}

impl View for AuthPolicy {
    type V = AuthPolicyView;

    open spec fn view(&self) -> AuthPolicyView {
        match self {
            AuthPolicy::Open => AuthPolicyView::Open,
            AuthPolicy::PublicPull { write } => AuthPolicyView::PublicPull { write: write@ },
            AuthPolicy::Private { read, write } => AuthPolicyView::Private {
                read: read@,
                write: write@,
            },
        }
    }
}

/// Why a request was not authorized.
#[derive(Debug, Clone, Copy, PartialEq, Eq, Structural)]
pub enum AuthError {
    /// No `Authorization` header at all. The client has to be told how to
    /// authenticate, so this is the challenge.
    Missing,
    /// An `Authorization` header that is not a scheme and a credential this
    /// registry understands, or a `Basic` value that is not base64 of
    /// `user:pass`.
    Malformed,
    /// A credential that matched no key.
    Invalid,
    /// The read key, on a request that writes. The credential is genuine, so
    /// this is a `403` and carries no challenge.
    Insufficient,
}

/// Which keys [`AuthPolicy`]'s constructors had to invent.
#[derive(Debug, Clone, Copy, PartialEq, Eq, Structural)]
pub struct Generated {
    pub read: bool,
    pub write: bool,
}

/// Nothing but white space.
pub open spec fn is_blank(key: Seq<char>) -> bool {
    text::trim(key).len() == 0
}

/// A key was supplied, and it is blank.
pub open spec fn supplied_blank(key: Option<Seq<char>>) -> bool {
    key matches Some(k) && is_blank(k)
}

/// `key` is the supplied key, or a generated one where none was supplied.
pub open spec fn key_from(supplied: Option<Seq<char>>, key: Seq<char>) -> bool {
    match supplied {
        Some(k) => key == k,
        None => is_generated(key),
    }
}

/// The complaint about an empty key.
pub open spec fn empty_key_message(label: Seq<char>) -> Seq<char> {
    "the "@ + label + " API key is empty"@
}

/// Reject an empty key before the listener binds.
///
/// An empty key is indistinguishable from an absent one to
/// [`ApiKey::matches`], which is a registry that advertises authentication and
/// then admits nobody.
fn nonempty(label: &str, key: &Option<String>) -> (r: Result<(), String>)
    ensures
        match r {
            Ok(()) => !supplied_blank(text::opt_text(*key)),
            Err(e) => supplied_blank(text::opt_text(*key)) && e@ == empty_key_message(label@),
        },
{
    match key {
        Some(k) => {
            if text::trim_text(k.as_str()).as_str().is_empty() {
                let mut e = text::copy("the ");
                e.append(label);
                e.append(" API key is empty");
                Err(e)
            } else {
                Ok(())
            }
        },
        None => Ok(()),
    }
}

fn key_or_generated(key: Option<String>) -> (r: ApiKey)
    ensures
        key_from(text::opt_text(key), r@),
{
    match key {
        Some(k) => ApiKey::new(k.as_str()),
        None => ApiKey::generate(),
    }
}

/// What an `Authorization` value presents, if it presents a credential.
pub open spec fn presented(raw: Seq<u8>) -> Option<Seq<char>> {
    match wire::header_text(raw) {
        Some(value) => credential_of(value),
        None => None,
    }
}

/// The decision on one request, where `read` is absent if no key is needed to
/// read.
pub open spec fn guarded(
    read: Option<Seq<char>>,
    write: Seq<char>,
    method: MethodView,
    raw: Option<Seq<u8>>,
) -> Result<(), AuthError> {
    match raw {
        None => if access_of(method) == Access::Read && read is None {
            Ok(())
        } else {
            Err(AuthError::Missing)
        },
        Some(bytes) => match presented(bytes) {
            None => Err(AuthError::Malformed),
            Some(key) => if key_matches(write, key) {
                Ok(())
            } else if read is Some && key_matches(read->0, key) {
                if access_of(method) == Access::Read {
                    Ok(())
                } else {
                    Err(AuthError::Insufficient)
                }
            } else {
                Err(AuthError::Invalid)
            },
        },
    }
}

/// The decision on one request, from its method and its `Authorization` value.
pub open spec fn decision(
    policy: AuthPolicyView,
    method: MethodView,
    raw: Option<Seq<u8>>,
) -> Result<(), AuthError> {
    match policy {
        AuthPolicyView::Open => Ok(()),
        AuthPolicyView::PublicPull { write } => guarded(None, write, method, raw),
        AuthPolicyView::Private { read, write } => guarded(Some(read), write, method, raw),
    }
}

impl AuthPolicy {
    /// Build the `public-pull` policy: one key, required for writes alone.
    ///
    /// Returns the policy and whether the key was generated, because the
    /// banner prints a generated key and must never print a supplied one.
    pub fn for_public_pull(write: Option<String>) -> (r: Result<(AuthPolicy, Generated), String>)
        ensures
            match r {
                Err(e) => supplied_blank(text::opt_text(write)) && e@ == empty_key_message("write"@),
                Ok((policy, generated)) => {
                    &&& !supplied_blank(text::opt_text(write))
                    &&& policy@ is PublicPull
                    &&& key_from(text::opt_text(write), policy@->PublicPull_write)
                    &&& generated == (Generated { read: false, write: write is None })
                },
            },
    {
        match nonempty("write", &write) {
            Ok(()) => (),
            Err(e) => return Err(e),
        }
        let generated = Generated { read: false, write: write.is_none() };
        let policy = AuthPolicy::PublicPull { write: key_or_generated(write) };
        Ok((policy, generated))
    }

    /// Build the `private` policy from a pair of optional keys.
    pub fn for_private(read: Option<String>, write: Option<String>) -> (r: Result<
        (AuthPolicy, Generated),
        String,
    >)
        ensures
            match r {
                Err(e) => {
                    ||| supplied_blank(text::opt_text(read)) && e@ == empty_key_message("read"@)
                    ||| !supplied_blank(text::opt_text(read)) && supplied_blank(text::opt_text(write))
                        && e@ == empty_key_message("write"@)
                },
                Ok((policy, generated)) => {
                    &&& !supplied_blank(text::opt_text(read))
                    &&& !supplied_blank(text::opt_text(write))
                    &&& policy@ is Private
                    &&& key_from(text::opt_text(read), policy@->read)
                    &&& key_from(text::opt_text(write), policy@->Private_write)
                    &&& generated == (Generated { read: read is None, write: write is None })
                },
            },
    {
        match nonempty("read", &read) {
            Ok(()) => (),
            Err(e) => return Err(e),
        }
        match nonempty("write", &write) {
            Ok(()) => (),
            Err(e) => return Err(e),
        }
        let generated = Generated { read: read.is_none(), write: write.is_none() };
        let policy = AuthPolicy::Private {
            read: key_or_generated(read),
            write: key_or_generated(write),
        };
        Ok((policy, generated))
    }

    /// Whether there is anything to decide. False for [`AuthPolicy::Open`]
    /// alone: `public-pull` still has to see every request, or the writes it
    /// guards arrive unexamined.
    pub fn is_enabled(&self) -> (r: bool)
        ensures
            r == !(self@ is Open),
    {
        match self {
            AuthPolicy::Open => false,
            _ => true,
        }
    }

    /// A copy of the policy.
    pub fn copy(&self) -> (r: AuthPolicy)
        ensures
            r@ == self@,
    {
        match self {
            AuthPolicy::Open => AuthPolicy::Open,
            AuthPolicy::PublicPull { write } => AuthPolicy::PublicPull { write: write.copy() },
            AuthPolicy::Private { read, write } => AuthPolicy::Private {
                read: read.copy(),
                write: write.copy(),
            },
        }
    }

    /// What a log may show of a policy: its mode, and no key.
    pub fn debug_text(&self) -> (r: String)
        ensures
            r@ == match self@ {
                AuthPolicyView::Open => "Open"@,
                AuthPolicyView::PublicPull { .. } => "PublicPull { write: ApiKey(<redacted>) }"@,
                AuthPolicyView::Private { .. } => "Private { read: ApiKey(<redacted>), write: ApiKey(<redacted>) }"@,
            },
    {
        match self {
            AuthPolicy::Open => text::copy("Open"),
            AuthPolicy::PublicPull { .. } => text::copy("PublicPull { write: ApiKey(<redacted>) }"),
            AuthPolicy::Private { .. } => text::copy(
                "Private { read: ApiKey(<redacted>), write: ApiKey(<redacted>) }",
            ),
        }
    }

    /// Decide one request from the bytes of its `Authorization` header.
    pub fn decide(&self, method: &Method, authorization: Option<Vec<u8>>) -> (r: Result<
        (),
        AuthError,
    >)
        ensures
            r == decision(self@, method@, wire::opt_bytes(authorization)),
    {
        // `read` is absent where no key is needed to read, which puts the two
        // guarded modes on one path.
        let (read, write): (Option<&ApiKey>, &ApiKey) = match self {
            AuthPolicy::Open => return Ok(()),
            AuthPolicy::PublicPull { write } => (None, write),
            AuthPolicy::Private { read, write } => (Some(read), write),
        };
        let raw = match authorization {
            Some(raw) => raw,
            None => {
                // The anonymous read that `public-pull` exists to serve. An
                // anonymous *write* is still the `401` that makes a client log
                // in.
                return match Access::of(method) {
                    Access::Read => if read.is_none() {
                        Ok(())
                    } else {
                        Err(AuthError::Missing)
                    },
                    Access::Write => Err(AuthError::Missing),
                };
            },
        };
        let value = match wire::to_str(&raw) {
            Some(value) => value,
            None => return Err(AuthError::Malformed),
        };
        let key = match credential(value.as_str()) {
            Some(key) => key,
            None => return Err(AuthError::Malformed),
        };
        // Write is tried first, so a deployment that sets both keys to the same
        // value is a single key that can do everything.
        if write.matches(key.as_str()) {
            return Ok(());
        }
        match read {
            Some(read) => {
                if read.matches(key.as_str()) {
                    return match Access::of(method) {
                        Access::Read => Ok(()),
                        Access::Write => Err(AuthError::Insufficient),
                    };
                }
            },
            None => (),
        }
        Err(AuthError::Invalid)
    }

    /// Decide one request.
    pub fn authorize(&self, method: &Method, headers: &HeaderMap) -> (r: Result<(), AuthError>)
        ensures
            r == decision(self@, method@, wire::header_values(*headers).get("authorization"@)),
    {
        proof {
            reveal_strlit("authorization");
            assert(text::lower("authorization"@) =~= "authorization"@);
        }
        self.decide(method, wire::header_value(headers, "authorization"))
    }
}

// ---- refusals ----------------------------------------------------------------

/// The challenge sent with every `401`.
///
/// With `Basic` the `realm` is a label rather than an address. `charset` tells
/// a client to encode a non-ASCII credential as UTF-8 rather than guessing.
pub open spec fn challenge() -> Seq<char> {
    "Basic realm=\"summ\", charset=\"UTF-8\""@
}

/// The error a refusal is answered with.
pub open spec fn refusal(e: AuthError) -> ApiErrorView {
    match e {
        AuthError::Missing => ApiErrorView::of(ErrorCode::Unauthorized).detail(
            "send the API key as the password of an HTTP Basic credential"@,
        ).header("www-authenticate"@, challenge()),
        AuthError::Malformed => ApiErrorView::of(ErrorCode::Unauthorized).message(
            "malformed Authorization header"@,
        ).detail("expected `Basic <base64>` or `Bearer <key>`"@).header(
            "www-authenticate"@,
            challenge(),
        ),
        AuthError::Invalid => ApiErrorView::of(ErrorCode::Unauthorized).message(
            "invalid API key"@,
        ).header("www-authenticate"@, challenge()),
        AuthError::Insufficient => ApiErrorView::of(ErrorCode::Denied).message(
            "the read API key does not permit writes"@,
        ).detail("use the write API key for push and delete"@),
    }
}

impl AuthError {
    /// The response, with the challenge on the cases a client can act on.
    pub fn into_api_error(self) -> (r: ApiError)
        ensures
            r@ == refusal(self),
    {
        match self {
            AuthError::Missing => ApiError::new(ErrorCode::Unauthorized).with_text(
                "send the API key as the password of an HTTP Basic credential",
            ).with_header("www-authenticate", "Basic realm=\"summ\", charset=\"UTF-8\""),
            AuthError::Malformed => ApiError::new(ErrorCode::Unauthorized).with_message(
                "malformed Authorization header",
            ).with_text("expected `Basic <base64>` or `Bearer <key>`").with_header(
                "www-authenticate",
                "Basic realm=\"summ\", charset=\"UTF-8\"",
            ),
            AuthError::Invalid => ApiError::new(ErrorCode::Unauthorized).with_message(
                "invalid API key",
            ).with_header("www-authenticate", "Basic realm=\"summ\", charset=\"UTF-8\""),
            // No challenge: the credential was real, and a client that is
            // re-challenged retries with the same one.
            AuthError::Insufficient => ApiError::new(ErrorCode::Denied).with_message(
                "the read API key does not permit writes",
            ).with_text("use the write API key for push and delete"),
        }
    }
}

// ---- what the policies promise -----------------------------------------------

/// The write key a policy holds.
pub open spec fn write_key(policy: AuthPolicyView) -> Option<Seq<char>> {
    match policy {
        AuthPolicyView::Open => None,
        AuthPolicyView::PublicPull { write } => Some(write),
        AuthPolicyView::Private { write, .. } => Some(write),
    }
}

/// The read key a policy holds.
pub open spec fn read_key(policy: AuthPolicyView) -> Option<Seq<char>> {
    match policy {
        AuthPolicyView::Private { read, .. } => Some(read),
        _ => None,
    }
}

/// An open registry admits every request, whatever it presents.
pub proof fn law_open_admits_everything(method: MethodView, raw: Option<Seq<u8>>)
    ensures
        decision(AuthPolicyView::Open, method, raw) == Ok::<(), AuthError>(()),
{
}

/// Without a credential, an open registry serves everything, a public-pull
/// registry serves reads, and everything else is the challenge.
pub proof fn law_anonymous(policy: AuthPolicyView, method: MethodView)
    ensures
        decision(policy, method, None) == Ok::<(), AuthError>(()) <==> (policy is Open || (
        policy is PublicPull && access_of(method) == Access::Read)),
        decision(policy, method, None) is Err ==> decision(policy, method, None) == Err::<
            (),
            AuthError,
        >(AuthError::Missing),
{
}

/// The write key is admitted to every request, reads included, also where the
/// read key is the same.
pub proof fn law_write_key_is_admitted(
    policy: AuthPolicyView,
    method: MethodView,
    raw: Seq<u8>,
)
    requires
        write_key(policy) matches Some(key) && key.len() > 0 && presented(raw) == Some(key),
    ensures
        decision(policy, method, Some(raw)) == Ok::<(), AuthError>(()),
{
}

/// The read key reads, and never writes: on a write it is refused as
/// insufficient, unless it is the write key too.
pub proof fn law_read_key_only_reads(policy: AuthPolicyView, method: MethodView, raw: Seq<u8>)
    requires
        read_key(policy) matches Some(key) && key.len() > 0 && presented(raw) == Some(key),
        read_key(policy) != write_key(policy),
    ensures
        access_of(method) == Access::Read ==> decision(policy, method, Some(raw)) == Ok::<
            (),
            AuthError,
        >(()),
        access_of(method) == Access::Write ==> decision(policy, method, Some(raw)) == Err::<
            (),
            AuthError,
        >(AuthError::Insufficient),
{
}

/// Nothing but the write key writes to a guarded registry.
pub proof fn law_writes_need_the_write_key(
    policy: AuthPolicyView,
    method: MethodView,
    raw: Option<Seq<u8>>,
)
    requires
        !(policy is Open),
        access_of(method) == Access::Write,
        decision(policy, method, raw) == Ok::<(), AuthError>(()),
    ensures
        raw matches Some(bytes) && presented(bytes) == write_key(policy) && write_key(policy)->0.len()
            > 0,
{
}

/// A credential that is presented to a guarded registry is checked, also on a
/// read that required none: it is admitted only if it is one of the keys.
pub proof fn law_presented_credentials_are_checked(
    policy: AuthPolicyView,
    method: MethodView,
    raw: Seq<u8>,
)
    requires
        !(policy is Open),
    ensures
        presented(raw) is None ==> decision(policy, method, Some(raw)) == Err::<(), AuthError>(
            AuthError::Malformed,
        ),
        presented(raw) matches Some(key) ==> {
            let known = key_matches(write_key(policy)->0, key) || (read_key(policy) matches Some(
                read,
            ) && key_matches(read, key));
            &&& !known ==> decision(policy, method, Some(raw)) == Err::<(), AuthError>(
                AuthError::Invalid,
            )
            &&& decision(policy, method, Some(raw)) == Ok::<(), AuthError>(()) ==> known
        },
{
}

/// A refusal carries the challenge exactly when it is a `401`.
pub proof fn law_challenge_exactly_on_401(e: AuthError)
    ensures
        refusal(e).status == 401 <==> refusal(e).extra == seq![("www-authenticate"@, challenge())],
        refusal(e).status == 401 || (refusal(e).status == 403 && refusal(e).extra.len() == 0),
        refusal(e).status == 403 <==> e == AuthError::Insufficient,
{
    match e {
        AuthError::Insufficient => {
            assert(refusal(e).extra.len() == 0);
            assert(seq![("www-authenticate"@, challenge())].len() == 1);
        },
        _ => {
            assert(refusal(e).extra =~= seq![("www-authenticate"@, challenge())]);
        },
    }
}

/// Printable ASCII.
pub open spec fn is_printable(s: Seq<char>) -> bool {
    forall|i: int| 0 <= i < s.len() ==> ' ' <= #[trigger] s[i] && s[i] <= '~'
}

/// The bytes of a header value made of printable text read as that text.
proof fn lemma_header_text(s: Seq<char>)
    requires
        is_printable(s),
    ensures
        wire::header_text(encode_utf8(s)) == Some(s),
{
    assert(is_ascii_chars(s));
    is_ascii_chars_encode_utf8(s);
    let b = encode_utf8(s);
    assert forall|i: int| 0 <= i < b.len() implies wire::is_visible(#[trigger] b[i]) by {
        assert(s[i] as u8 == b[i]);
    }
    assert(b.map_values(|x: u8| x as char) =~= s);
}

/// `Basic` presents the password as the key, whatever the user name and
/// whatever the key: the encoding may be padded or not, and a colon inside the
/// key stays in it.
pub proof fn law_basic_password_is_the_key(user: Seq<char>, key: Seq<char>, padded: bool)
    requires
        !user.contains(':'),
        key.len() > 0,
    ensures
        credential_of("Basic "@ + basic_text(user + seq![':'] + key, padded)) == Some(key),
        presented(encode_utf8("Basic "@ + basic_text(user + seq![':'] + key, padded))) == Some(key),
{
    let whole = user + seq![':'] + key;
    lemma_basic_credential(whole, padded);
    lemma_first_colon(user, key);
}

/// With an empty password the user name is the key.
pub proof fn law_basic_empty_password(user: Seq<char>, padded: bool)
    requires
        !user.contains(':'),
        user.len() > 0,
    ensures
        credential_of("Basic "@ + basic_text(user + seq![':'], padded)) == Some(user),
        presented(encode_utf8("Basic "@ + basic_text(user + seq![':'], padded))) == Some(user),
{
    let whole = user + seq![':'];
    lemma_basic_credential(whole, padded);
    lemma_first_colon(user, Seq::empty());
    assert(user + seq![':'] + Seq::<char>::empty() =~= whole);
}

/// `decoded` in base64, padded or not.
pub open spec fn basic_text(decoded: Seq<char>, padded: bool) -> Seq<char> {
    let x = encode_utf8(decoded);
    ascii_text(
        if padded {
            group(x) + padding(x)
        } else {
            group(x)
        },
    )
}

proof fn lemma_first_colon(user: Seq<char>, rest: Seq<char>)
    requires
        !user.contains(':'),
    ensures
        (user + seq![':'] + rest).index_of_first(':') == Some(user.len() as int),
        (user + seq![':'] + rest).take(user.len() as int) == user,
        (user + seq![':'] + rest).skip(user.len() as int + 1) == rest,
{
    let whole = user + seq![':'] + rest;
    whole.index_of_first_ensures(':');
    let at = user.len() as int;
    assert(whole[at] == ':');
    assert(whole.contains(':'));
    let i = whole.index_of_first(':')->0;
    if i < at {
        assert(whole[i] == user[i]);
        assert(user.contains(':'));
    }
    assert(whole.take(at) =~= user);
    assert(whole.skip(at + 1) =~= rest);
}

proof fn lemma_basic_credential(decoded: Seq<char>, padded: bool)
    requires
        decoded.len() > 0,
    ensures
        credential_of("Basic "@ + basic_text(decoded, padded)) == basic_key(decoded),
        presented(encode_utf8("Basic "@ + basic_text(decoded, padded))) == basic_key(decoded),
{
    reveal_strlit("Basic ");
    reveal_strlit("basic");
    reveal_strlit("bearer");
    let x = encode_utf8(decoded);
    let b = if padded {
        group(x) + padding(x)
    } else {
        group(x)
    };
    let t = basic_text(decoded, padded);
    let value = "Basic "@ + t;
    law_base64_round_trip(x);
    lemma_group_letters(x);
    lemma_encoding_empty(decoded);
    encode_utf8_valid_utf8(decoded);
    encode_utf8_decode_utf8(decoded);
    assert(value[5] == ' ');
    value.index_of_first_ensures(' ');
    assert(value.contains(' '));
    let i = value.index_of_first(' ')->0;
    assert(i == 5) by {
        if i < 5 {
            assert(value[i] == "Basic "@[i]);
        }
    }
    assert(text::lower(value.take(5)) =~= "basic"@);
    assert("basic"@.len() != "bearer"@.len());
    assert(value.skip(6) =~= t);
    assert forall|k: int| 0 <= k < t.len() implies !text::is_space(#[trigger] t[k]) && ' ' <= t[k]
        && t[k] <= '~' by {
        assert(t[k] == b[k] as char);
        if k < group(x).len() {
            assert(sextet(group(x)[k]) is Some);
        }
    }
    assert forall|k: int| 0 <= k < value.len() implies ' ' <= #[trigger] value[k] && value[k] <= '~' by {
        if k >= 6 {
            assert(value[k] == t[k - 6]);
        } else {
            assert(value[k] == "Basic "@[k]);
        }
    }
    lemma_header_text(value);
    assert(t.len() > 0);
    assert(text::trim_start(t) == t);
    assert(t.last() == t[t.len() - 1]);
    assert(text::trim_end(t) == t);
}

/// `Bearer` presents what follows it, for a key with no white space around it.
pub proof fn law_bearer_is_the_key(key: Seq<char>)
    requires
        key.len() > 0,
        text::trim(key) == key,
    ensures
        credential_of("Bearer "@ + key) == Some(key),
        is_printable(key) ==> presented(encode_utf8("Bearer "@ + key)) == Some(key),
{
    reveal_strlit("Bearer ");
    reveal_strlit("bearer");
    let value = "Bearer "@ + key;
    assert(value[6] == ' ');
    value.index_of_first_ensures(' ');
    assert(value.contains(' '));
    let i = value.index_of_first(' ')->0;
    assert(i == 6) by {
        if i < 6 {
            assert(value[i] == "Bearer "@[i]);
        }
    }
    assert(text::lower(value.take(6)) =~= "bearer"@);
    assert(value.skip(7) =~= key);
    if is_printable(key) {
        assert forall|k: int| 0 <= k < value.len() implies ' ' <= #[trigger] value[k] && value[k] <= '~' by {
            if k >= 7 {
                assert(value[k] == key[k - 7]);
            } else {
                assert(value[k] == "Bearer "@[k]);
            }
        }
        lemma_header_text(value);
    }
}

/// A credential is never empty: an empty one is malformed, and a key that is
/// empty matches nothing.
pub proof fn law_credentials_are_not_empty(value: Seq<char>)
    ensures
        credential_of(value) matches Some(key) ==> key.len() > 0,
{
}

/// Reading takes a `GET`, a `HEAD` or an `OPTIONS`, and every other method writes,
/// one that nobody knows among them.
pub proof fn law_everything_but_reading_writes(method: MethodView)
    ensures
        access_of(method) == Access::Read <==> method is Get || method is Head || method is Options,
        access_of(method) == Access::Read || access_of(method) == Access::Write,
{
}

/// A key is matched by itself alone, to the last character, and an empty one by
/// nothing.
pub proof fn law_only_the_key_matches(key: ApiKey, candidate: &str, r: bool)
    requires
        call_ensures(ApiKey::matches, (&key, candidate), r),
    ensures
        r ==> candidate@ == key@ && key@.len() > 0,
        candidate@ == key@ && key@.len() > 0 ==> r,
{
}

/// The case of a scheme does not matter, and a value without a scheme, or with one
/// that is neither `Basic` nor `Bearer`, presents nothing.
pub proof fn law_schemes_are_known_in_any_case(a: Seq<char>, b: Seq<char>, rest: Seq<char>)
    requires
        !a.contains(' '),
        !b.contains(' '),
    ensures
        text::lower(a) == text::lower(b) ==> credential_of(a + seq![' '] + rest) == credential_of(
            b + seq![' '] + rest,
        ),
        text::lower(a) != "basic"@ && text::lower(a) != "bearer"@ ==> credential_of(
            a + seq![' '] + rest,
        ) is None,
        credential_of(a) is None,
{
    lemma_first_space(a, rest);
    lemma_first_space(b, rest);
    a.index_of_first_ensures(' ');
}

proof fn lemma_first_space(scheme: Seq<char>, rest: Seq<char>)
    requires
        !scheme.contains(' '),
    ensures
        (scheme + seq![' '] + rest).index_of_first(' ') == Some(scheme.len() as int),
        (scheme + seq![' '] + rest).take(scheme.len() as int) == scheme,
        (scheme + seq![' '] + rest).skip(scheme.len() as int + 1) == rest,
{
    let whole = scheme + seq![' '] + rest;
    whole.index_of_first_ensures(' ');
    let at = scheme.len() as int;
    assert(whole[at] == ' ');
    assert(whole.contains(' '));
    let i = whole.index_of_first(' ')->0;
    if i < at {
        assert(whole[i] == scheme[i]);
        assert(scheme.contains(' '));
    }
    assert(whole.take(at) =~= scheme);
    assert(whole.skip(at + 1) =~= rest);
}

/// A refusal names its reason by its code: a credential that is absent, malformed or
/// wrong is not authorized, and one that does not suffice is denied.
pub proof fn law_refusals_name_their_reason(e: AuthError)
    ensures
        refusal(e).code == (if e == AuthError::Insufficient {
            ErrorCode::Denied
        } else {
            ErrorCode::Unauthorized
        }),
        !refusal(e).bare,
        challenge() == "Basic realm=\"summ\", charset=\"UTF-8\""@,
{
}

/// A public-pull policy is made of the write key that was supplied, or of one that
/// is made up and said to be, and of no blank one.
pub proof fn law_public_pull_takes_the_key_it_is_given(
    write: Option<String>,
    r: Result<(AuthPolicy, Generated), String>,
)
    requires
        call_ensures(AuthPolicy::for_public_pull, (write,), r),
    ensures
        r is Err <==> write is Some && text::trim(write->0@).len() == 0,
        r matches Ok((policy, generated)) ==> {
            &&& policy@ is PublicPull
            &&& !generated.read
            &&& generated.write <==> write is None
            &&& write is Some ==> write_key(policy@) == Some(write->0@)
            &&& write is None ==> random::is_hex_text(write_key(policy@)->0, 64)
        },
{
    if write is None && r is Ok {
        lemma_generated(r->Ok_0.0@->PublicPull_write);
    }
}

/// A private policy is made of the keys that were supplied, and of one that is made
/// up, and said to be, for each that was not, and of no blank one.
pub proof fn law_private_takes_the_keys_it_is_given(
    read: Option<String>,
    write: Option<String>,
    r: Result<(AuthPolicy, Generated), String>,
)
    requires
        call_ensures(AuthPolicy::for_private, (read, write), r),
    ensures
        r is Err <==> (read is Some && text::trim(read->0@).len() == 0) || (write is Some
            && text::trim(write->0@).len() == 0),
        r matches Ok((policy, generated)) ==> {
            &&& policy@ is Private
            &&& generated.read <==> read is None
            &&& generated.write <==> write is None
            &&& read is Some ==> read_key(policy@) == Some(read->0@)
            &&& write is Some ==> write_key(policy@) == Some(write->0@)
            &&& read is None ==> random::is_hex_text(read_key(policy@)->0, 64)
            &&& write is None ==> random::is_hex_text(write_key(policy@)->0, 64)
        },
{
    if r is Ok {
        let policy = r->Ok_0.0@;
        if read is None {
            lemma_generated(policy->read);
        }
        if write is None {
            lemma_generated(policy->Private_write);
        }
    }
}

/// What a log shows of a policy says nothing of its keys: of two policies of one
/// mode it shows the same.
pub proof fn law_logs_show_no_key(a: AuthPolicy, b: AuthPolicy, shown: String, other: String)
    requires
        call_ensures(AuthPolicy::debug_text, (&a,), shown),
        call_ensures(AuthPolicy::debug_text, (&b,), other),
        a@ is Open <==> b@ is Open,
        a@ is PublicPull <==> b@ is PublicPull,
    ensures
        shown@ == other@,
{
}

/// Every policy but an open one has something to decide.
pub proof fn law_only_open_decides_nothing(policy: AuthPolicy, r: bool)
    requires
        call_ensures(AuthPolicy::is_enabled, (&policy,), r),
    ensures
        !r <==> policy@ is Open,
        !r ==> forall|method: MethodView, raw: Option<Seq<u8>>| #[trigger]
            decision(policy@, method, raw) is Ok,
{
}

/// A key of thirty-two bytes is their sixty-four digits: other bytes, another key.
pub proof fn law_other_bytes_make_another_key(a: Seq<u8>, b: Seq<u8>)
    requires
        a.len() == b.len(),
        random::hex_of(a) == random::hex_of(b),
    ensures
        a == b,
    decreases a.len(),
{
    if a.len() > 0 {
        let x = random::hex_of(a);
        let y = random::hex_of(b);
        let n = x.len() as int;
        random::lemma_hex_of(a);
        random::lemma_hex_of(b);
        random::lemma_hex_of(a.drop_last());
        random::lemma_hex_of(b.drop_last());
        assert(x.take(n - 2) =~= random::hex_of(a.drop_last()));
        assert(y.take(n - 2) =~= random::hex_of(b.drop_last()));
        law_other_bytes_make_another_key(a.drop_last(), b.drop_last());
        assert(x[n - 2] == random::hex_char(a.last() as int / 16));
        assert(y[n - 2] == random::hex_char(b.last() as int / 16));
        assert(x[n - 1] == random::hex_char(a.last() as int % 16));
        assert(y[n - 1] == random::hex_char(b.last() as int % 16));
        assert(a.last() == b.last());
        assert(a =~= a.drop_last().push(a.last()));
        assert(b =~= b.drop_last().push(b.last()));
    } else {
        assert(a =~= b);
    }
}

/// The letters of base64 are the capitals, the small letters, the digits, `+` and
/// `/`, in that order.
pub proof fn law_base64_letters(k: u8)
    ensures
        k < 26 ==> sextet((0x41 + k) as u8) == Some(k as int),
        k < 26 ==> sextet((0x61 + k) as u8) == Some(k + 26),
        k < 10 ==> sextet((0x30 + k) as u8) == Some(k + 52),
        sextet(0x2b) == Some(62int),
        sextet(0x2f) == Some(63int),
{
}

/// Four letters of base64 hold the bits of three bytes.
#[verifier::spinoff_prover]
pub proof fn law_four_letters_hold_three_bytes(a: int, b: int, c: int, d: int)
    requires
        0 <= a < 64,
        0 <= b < 64,
        0 <= c < 64,
        0 <= d < 64,
    ensures
        triple(a, b, c, d).len() == 3,
        triple(a, b, c, d)[0] * 65536 + triple(a, b, c, d)[1] * 256 + triple(a, b, c, d)[2] == a
            * 262144 + b * 4096 + c * 64 + d,
{
    let v = ((a * 64 + b) * 64 + c) * 64 + d;
    assert(v == a * 262144 + b * 4096 + c * 64 + d);
    lemma_three_bytes(v);
    let t = triple(a, b, c, d);
    assert(t[0] == v / 65536);
    assert(t[1] == v / 256 % 256);
    assert(t[2] == v % 256);
}

#[verifier::spinoff_prover]
proof fn lemma_three_bytes(v: int)
    requires
        0 <= v < 16777216,
    ensures
        0 <= v / 65536 < 256,
        v / 65536 * 65536 + v / 256 % 256 * 256 + v % 256 == v,
{
    let q = v / 256;
    assert(v / 65536 == q / 256);
}

} // verus!
