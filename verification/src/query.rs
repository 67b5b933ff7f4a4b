//! Percent-encoding, and the parameters of a query string.

use vstd::prelude::*;
use vstd::utf8::*;

use crate::text;

verus! {

// ---- decoding ----------------------------------------------------------------

/// `0`-`9`, `a`-`f` or `A`-`F`.
pub open spec fn is_hex(b: u8) -> bool {
    ||| 0x30 <= b && b <= 0x39
    ||| 0x41 <= b && b <= 0x46
    ||| 0x61 <= b && b <= 0x66
}

/// The value of a hexadecimal digit.
pub open spec fn hex_value(b: u8) -> int {
    if b <= 0x39 {
        b - 0x30
    } else if b <= 0x46 {
        b - 0x41 + 10
    } else {
        b - 0x61 + 10
    }
}

/// `b` starts with a percent sign and two hexadecimal digits.
pub open spec fn starts_escaped(b: Seq<u8>) -> bool {
    b.len() >= 3 && b[0] == 0x25 && is_hex(b[1]) && is_hex(b[2])
}

/// `b` with every `%XX` replaced by the byte it names. A percent sign that no
/// two hexadecimal digits follow stands for itself.
pub open spec fn unescape(b: Seq<u8>) -> Seq<u8>
    decreases b.len(),
{
    if b.len() == 0 {
        Seq::<u8>::empty()
    } else if starts_escaped(b) {
        seq![(hex_value(b[1]) * 16 + hex_value(b[2])) as u8] + unescape(b.skip(3))
    } else {
        seq![b[0]] + unescape(b.skip(1))
    }
}

/// What a percent-encoded segment says. One whose bytes are not UTF-8 is left
/// as it was written.
pub open spec fn decoded(s: Seq<char>) -> Seq<char> {
    let bytes = unescape(encode_utf8(s));
    if valid_utf8(bytes) {
        decode_utf8(bytes)
    } else {
        s
    }
}

fn hex_digit(b: u8) -> (r: Option<u8>)
    ensures
        match r {
            Some(v) => is_hex(b) && v == hex_value(b) && v < 16,
            None => !is_hex(b),
        },
{
    if 0x30 <= b && b <= 0x39 {
        Some(b - 0x30)
    } else if 0x41 <= b && b <= 0x46 {
        Some(b - 0x41 + 10)
    } else if 0x61 <= b && b <= 0x66 {
        Some(b - 0x61 + 10)
    } else {
        None
    }
}

/// The standard library's error for bytes that are not UTF-8.
#[verifier::external_type_specification]
#[verifier::external_body]
pub struct ExFromUtf8Error(std::string::FromUtf8Error);

/// `String::from_utf8` of the standard library: the bytes become text exactly
/// when they are UTF-8, and the text is the one they encode.
pub assume_specification[ String::from_utf8 ](vec: Vec<u8>) -> (r: Result<
    String,
    std::string::FromUtf8Error,
>)
    ensures
        match r {
            Ok(s) => valid_utf8(vec@) && s@ == decode_utf8(vec@),
            Err(_) => !valid_utf8(vec@),
        },
;

/// Decode one path segment.
///
/// Called on a segment and never on a path, so that an encoded `%2F` stays
/// inside the segment it was written in.
pub fn path_decode(segment: &str) -> (r: String)
    ensures
        r@ == decoded(segment@),
{
    let bytes = segment.as_bytes();
    let mut out: Vec<u8> = Vec::new();
    let mut i: usize = 0;
    proof {
        assert(bytes@.skip(0) =~= bytes@);
        assert(out@ + unescape(bytes@) =~= unescape(bytes@));
    }
    while i < bytes.len()
        invariant
            bytes@ == encode_utf8(segment@),
            0 <= i <= bytes@.len(),
            out@ + unescape(bytes@.skip(i as int)) == unescape(bytes@),
        decreases bytes@.len() - i,
    {
        let ghost rest = bytes@.skip(i as int);
        let ghost before = out@;
        let mut next: Option<u8> = None;
        if bytes[i] == 0x25 && bytes.len() - i >= 3 {
            if let Some(high) = hex_digit(bytes[i + 1]) {
                if let Some(low) = hex_digit(bytes[i + 2]) {
                    next = Some(high * 16 + low);
                }
            }
        }
        proof {
            assert(rest.len() == bytes@.len() - i);
            assert(rest[0] == bytes@[i as int]);
            if rest.len() >= 3 {
                assert(rest[1] == bytes@[i + 1]);
                assert(rest[2] == bytes@[i + 2]);
            }
            assert(starts_escaped(rest) == (next is Some));
        }
        match next {
            Some(b) => {
                out.push(b);
                i = i + 3;
                proof {
                    assert(rest.skip(3) =~= bytes@.skip(i as int));
                    assert(out@ + unescape(bytes@.skip(i as int)) =~= before + unescape(rest));
                }
            },
            None => {
                out.push(bytes[i]);
                i = i + 1;
                proof {
                    assert(rest.skip(1) =~= bytes@.skip(i as int));
                    assert(out@ + unescape(bytes@.skip(i as int)) =~= before + unescape(rest));
                }
            },
        }
    }
    proof {
        assert(bytes@.skip(i as int) =~= Seq::<u8>::empty());
        assert(out@ =~= unescape(bytes@));
    }
    match String::from_utf8(out) {
        Ok(s) => s,
        Err(_) => text::copy(segment),
    }
}

// ---- encoding ----------------------------------------------------------------

/// The bytes a URI carries as they are: letters, digits, `-`, `.`, `_`, `~`.
pub open spec fn is_unreserved(b: u8) -> bool {
    ||| 0x41 <= b && b <= 0x5a
    ||| 0x61 <= b && b <= 0x7a
    ||| 0x30 <= b && b <= 0x39
    ||| b == 0x2d
    ||| b == 0x2e
    ||| b == 0x5f
    ||| b == 0x7e
}

/// The upper-case hexadecimal digit of `v`.
pub open spec fn hex_char(v: int) -> char {
    if v < 10 {
        (v + 0x30) as char
    } else {
        (v - 10 + 0x41) as char
    }
}

/// One byte as a URI carries it.
pub open spec fn escape_byte(b: u8) -> Seq<char> {
    if is_unreserved(b) {
        seq![b as char]
    } else {
        seq!['%', hex_char(b as int / 16), hex_char(b as int % 16)]
    }
}

/// `b` as a URI carries it.
pub open spec fn escape(b: Seq<u8>) -> Seq<char>
    decreases b.len(),
{
    if b.len() == 0 {
        Seq::<char>::empty()
    } else {
        escape(b.drop_last()) + escape_byte(b.last())
    }
}

/// `s` percent-encoded.
pub open spec fn encoded(s: Seq<char>) -> Seq<char> {
    escape(encode_utf8(s))
}

fn hex_text(v: u8) -> (c: char)
    requires
        v < 16,
    ensures
        c == hex_char(v as int),
{
    if v < 10 {
        (v + 0x30) as char
    } else {
        (v - 10 + 0x41) as char
    }
}

/// Encode text so that it can stand as one path segment or parameter value.
pub fn percent_encode(s: &str) -> (r: String)
    ensures
        r@ == encoded(s@),
{
    let bytes = s.as_bytes();
    let mut r = String::new();
    let mut i: usize = 0;
    proof {
        assert(bytes@.take(0) =~= Seq::<u8>::empty());
        assert(r@ =~= escape(bytes@.take(0)));
    }
    while i < bytes.len()
        invariant
            bytes@ == encode_utf8(s@),
            0 <= i <= bytes@.len(),
            r@ == escape(bytes@.take(i as int)),
        decreases bytes@.len() - i,
    {
        let b = bytes[i];
        let ghost before = r@;
        proof {
            assert(bytes@.take(i + 1).drop_last() =~= bytes@.take(i as int));
            assert(bytes@.take(i + 1).last() == b);
        }
        if (0x41 <= b && b <= 0x5a) || (0x61 <= b && b <= 0x7a) || (0x30 <= b && b <= 0x39) || b == 0x2d
            || b == 0x2e || b == 0x5f || b == 0x7e {
            r.push(b as char);
            assert(r@ =~= before + escape_byte(b));
        } else {
            r.push('%');
            r.push(hex_text(b / 16));
            r.push(hex_text(b % 16));
            assert(r@ =~= before + escape_byte(b));
        }
        i = i + 1;
    }
    proof {
        assert(bytes@.take(bytes@.len() as int) =~= bytes@);
    }
    r
}

/// Text with no percent sign in it decodes to itself, where it is ASCII.
pub proof fn lemma_decoded_plain(s: Seq<char>)
    requires
        is_ascii_chars(s),
        !s.contains('%'),
    ensures
        decoded(s) == s,
{
    is_ascii_chars_encode_utf8(s);
    let b = encode_utf8(s);
    assert forall|i: int| 0 <= i < b.len() implies b[i] != 0x25 by {
        assert(s[i] as u8 == b[i]);
        assert(s.contains(s[i]));
    }
    lemma_unescape_plain(b);
    encode_utf8_valid_utf8(s);
    encode_utf8_decode_utf8(s);
}

proof fn lemma_unescape_plain(b: Seq<u8>)
    requires
        forall|i: int| 0 <= i < b.len() ==> b[i] != 0x25,
    ensures
        unescape(b) == b,
    decreases b.len(),
{
    if b.len() > 0 {
        lemma_unescape_plain(b.skip(1));
        assert(seq![b[0]] + b.skip(1) =~= b);
    } else {
        assert(b =~= Seq::<u8>::empty());
    }
}

/// Decoding never makes text empty, nor text out of nothing.
pub proof fn lemma_decoded_empty(s: Seq<char>)
    ensures
        decoded(s).len() == 0 <==> s.len() == 0,
{
    let b = encode_utf8(s);
    let u = unescape(b);
    if s.len() > 0 {
        assert(encode_scalar(s[0] as u32).len() > 0);
        assert(b.len() > 0);
        assert(u.len() > 0);
    }
}

/// The bytes of ASCII text.
spec fn ascii(s: Seq<char>) -> Seq<u8> {
    s.map_values(|c: char| c as u8)
}

proof fn lemma_unescape_byte(b: u8, rest: Seq<u8>)
    ensures
        unescape(ascii(escape_byte(b)) + rest) == seq![b] + unescape(rest),
{
    let head = ascii(escape_byte(b));
    let all = head + rest;
    if is_unreserved(b) {
        assert(head =~= seq![b]);
        assert(all[0] == b);
        assert(all.skip(1) =~= rest);
    } else {
        let high = b as int / 16;
        let low = b as int % 16;
        assert(all[0] == 0x25);
        assert(all[1] == hex_char(high) as u8);
        assert(all[2] == hex_char(low) as u8);
        assert(hex_value(all[1]) == high && is_hex(all[1]));
        assert(hex_value(all[2]) == low && is_hex(all[2]));
        assert(all.skip(3) =~= rest);
        assert(high * 16 + low == b as int);
    }
}

proof fn lemma_unescape_escape(b: Seq<u8>, rest: Seq<u8>)
    ensures
        unescape(ascii(escape(b)) + rest) == b + unescape(rest),
    decreases b.len(),
{
    if b.len() == 0 {
        assert(ascii(escape(b)) + rest =~= rest);
        assert(b + unescape(rest) =~= unescape(rest));
    } else {
        let tail = ascii(escape_byte(b.last()));
        assert(ascii(escape(b)) + rest =~= ascii(escape(b.drop_last())) + (tail + rest));
        lemma_unescape_escape(b.drop_last(), tail + rest);
        lemma_unescape_byte(b.last(), rest);
        assert(b.drop_last() + (seq![b.last()] + unescape(rest)) =~= b + unescape(rest));
    }
}

proof fn lemma_escape_plain(b: Seq<u8>)
    ensures
        is_ascii_chars(escape(b)),
        !escape(b).contains('/'),
        b.len() > 0 ==> escape(b).len() > 0,
    decreases b.len(),
{
    if b.len() > 0 {
        lemma_escape_plain(b.drop_last());
        let s = escape(b);
        let front = escape(b.drop_last());
        let tail = escape_byte(b.last());
        assert forall|i: int| 0 <= i < s.len() implies '\0' <= #[trigger] s[i] <= '\u{7f}' && s[i] != '/' by {
            if i < front.len() {
                assert(s[i] == front[i]);
                assert(front.contains(front[i]));
            } else {
                assert(s[i] == tail[i - front.len()]);
            }
        }
    }
}

/// Encoded text is ASCII, holds no `/`, and is empty only if the text was.
pub proof fn lemma_encoded_is_one_segment(s: Seq<char>)
    ensures
        is_ascii_chars(encoded(s)),
        !encoded(s).contains('/'),
        s.len() > 0 ==> encoded(s).len() > 0,
{
    lemma_escape_plain(encode_utf8(s));
    if s.len() > 0 {
        assert(encode_scalar(s[0] as u32).len() > 0);
        assert(encode_utf8(s).len() > 0);
    }
}

proof fn lemma_escape_delimiters(b: Seq<u8>)
    ensures
        !escape(b).contains('&'),
        !escape(b).contains('+'),
        !escape(b).contains('@'),
    decreases b.len(),
{
    if b.len() > 0 {
        lemma_escape_delimiters(b.drop_last());
        let s = escape(b);
        let front = escape(b.drop_last());
        let tail = escape_byte(b.last());
        assert forall|i: int| 0 <= i < s.len() implies #[trigger] s[i] != '&' && s[i] != '+' && s[i]
            != '@' by {
            if i < front.len() {
                assert(s[i] == front[i]);
                assert(front.contains(front[i]));
            } else {
                assert(s[i] == tail[i - front.len()]);
            }
        }
    }
}

/// Encoded text holds no `&`, no `+` and no `@`.
pub proof fn lemma_encoded_has_no_delimiter(s: Seq<char>)
    ensures
        !encoded(s).contains('&'),
        !encoded(s).contains('+'),
        !encoded(s).contains('@'),
{
    lemma_escape_delimiters(encode_utf8(s));
}

/// Decoding undoes encoding, whatever the text.
pub proof fn lemma_decoded_of_encoded(s: Seq<char>)
    ensures
        decoded(encoded(s)) == s,
{
    let b = encode_utf8(s);
    let e = escape(b);
    lemma_escape_plain(b);
    is_ascii_chars_encode_utf8(e);
    assert(encode_utf8(e) =~= ascii(e));
    lemma_unescape_escape(b, Seq::<u8>::empty());
    assert(ascii(e) + Seq::<u8>::empty() =~= ascii(e));
    assert(b + unescape(Seq::<u8>::empty()) =~= b);
    encode_utf8_valid_utf8(s);
    encode_utf8_decode_utf8(s);
}

// ---- parameters --------------------------------------------------------------

/// `s` with every `+` read as a space, the way a form writes one.
pub open spec fn plus_as_space(s: Seq<char>) -> Seq<char> {
    s.map_values(
        |c: char|
            if c == '+' {
                ' '
            } else {
                c
            },
    )
}

/// What a name or a value in a query string says.
pub open spec fn param_text(s: Seq<char>) -> Seq<char> {
    decoded(plus_as_space(s))
}

/// One `name=value`. A name on its own has the empty value.
pub open spec fn pair_of(s: Seq<char>) -> (Seq<char>, Seq<char>) {
    match s.index_of_first('=') {
        Some(i) => (param_text(s.take(i)), param_text(s.skip(i + 1))),
        None => (param_text(s), Seq::<char>::empty()),
    }
}

/// The pairs of the pieces that hold anything, in order.
pub open spec fn pairs_of(pieces: Seq<Seq<char>>) -> Seq<(Seq<char>, Seq<char>)>
    decreases pieces.len(),
{
    if pieces.len() == 0 {
        Seq::empty()
    } else if pieces.last().len() == 0 {
        pairs_of(pieces.drop_last())
    } else {
        pairs_of(pieces.drop_last()).push(pair_of(pieces.last()))
    }
}

/// The views of a list of pairs.
pub open spec fn pair_texts(v: Seq<(String, String)>) -> Seq<(Seq<char>, Seq<char>)> {
    v.map_values(|p: (String, String)| (p.0@, p.1@))
}

/// The value of the first pair named `key`.
pub open spec fn value_of(pairs: Seq<(Seq<char>, Seq<char>)>, key: Seq<char>) -> Option<Seq<char>>
    decreases pairs.len(),
{
    if pairs.len() == 0 {
        None
    } else if pairs[0].0 == key {
        Some(pairs[0].1)
    } else {
        value_of(pairs.drop_first(), key)
    }
}

fn param_decode(v: &Vec<char>, from: usize, to: usize) -> (r: String)
    requires
        from <= to <= v@.len(),
    ensures
        r@ == param_text(v@.subrange(from as int, to as int)),
{
    let mut s = String::new();
    let mut i: usize = from;
    while i < to
        invariant
            from <= i <= to <= v@.len(),
            s@ == plus_as_space(v@.subrange(from as int, i as int)),
        decreases to - i,
    {
        let c = v[i];
        if c == '+' {
            s.push(' ');
        } else {
            s.push(c);
        }
        i = i + 1;
        assert(s@ =~= plus_as_space(v@.subrange(from as int, i as int)));
    }
    path_decode(s.as_str())
}

/// The parameters of a query string, in the order they were written.
pub fn pairs(query: &str) -> (r: Vec<(String, String)>)
    ensures
        pair_texts(r@) == pairs_of(text::split(query@, '&')),
{
    let pieces = text::split_text(query, '&');
    let ghost all = text::split(query@, '&');
    let mut r: Vec<(String, String)> = Vec::new();
    let mut i: usize = 0;
    proof {
        assert(pair_texts(r@) =~= pairs_of(all.take(0)));
    }
    while i < pieces.len()
        invariant
            text::texts(pieces@) == all,
            0 <= i <= pieces@.len(),
            pair_texts(r@) == pairs_of(all.take(i as int)),
        decreases pieces@.len() - i,
    {
        let v = text::to_chars(pieces[i].as_str());
        let ghost before = r@;
        proof {
            assert(all[i as int] == pieces@[i as int]@);
            assert(all.take(i + 1).drop_last() =~= all.take(i as int));
            assert(all.take(i + 1).last() == v@);
            assert(v@.subrange(0, v@.len() as int) =~= v@);
        }
        if v.len() > 0 {
            let pair: (String, String) = match text::find_first(&v, '=') {
                Some(at) => {
                    proof {
                        assert(v@.subrange(0, at as int) =~= v@.take(at as int));
                        assert(v@.subrange(at + 1, v@.len() as int) =~= v@.skip(at + 1));
                    }
                    (param_decode(&v, 0, at), param_decode(&v, at + 1, v.len()))
                },
                None => (param_decode(&v, 0, v.len()), String::new()),
            };
            proof {
                assert((pair.0@, pair.1@) == pair_of(v@));
            }
            r.push(pair);
            proof {
                assert(pair_texts(r@) =~= pair_texts(before).push(pair_of(v@)));
            }
        }
        i = i + 1;
    }
    proof {
        assert(all.take(all.len() as int) =~= all);
    }
    r
}

/// The value of the first parameter named `key`.
pub fn first<'a>(pairs: &'a Vec<(String, String)>, key: &str) -> (r: Option<&'a str>)
    ensures
        match r {
            Some(v) => value_of(pair_texts(pairs@), key@) == Some(v@),
            None => value_of(pair_texts(pairs@), key@) is None,
        },
{
    let mut i: usize = 0;
    proof {
        assert(pair_texts(pairs@).skip(0) =~= pair_texts(pairs@));
    }
    while i < pairs.len()
        invariant
            0 <= i <= pairs@.len(),
            value_of(pair_texts(pairs@), key@) == value_of(pair_texts(pairs@).skip(i as int), key@),
        decreases pairs@.len() - i,
    {
        let ghost rest = pair_texts(pairs@).skip(i as int);
        proof {
            assert(rest[0] == (pairs@[i as int].0@, pairs@[i as int].1@));
            assert(rest.drop_first() =~= pair_texts(pairs@).skip(i + 1));
        }
        if text::same(pairs[i].0.as_str(), key) {
            return Some(pairs[i].1.as_str());
        }
        i = i + 1;
    }
    None
}

/// A parameter has the value of the first pair of its name, and none exactly where
/// no pair has that name.
pub proof fn law_first_value_counts(
    pairs: Seq<(Seq<char>, Seq<char>)>,
    key: Seq<char>,
    i: int,
)
    ensures
        0 <= i < pairs.len() && pairs[i].0 == key && (forall|j: int|
            0 <= j < i ==> (#[trigger] pairs[j]).0 != key) ==> value_of(pairs, key) == Some(
            pairs[i].1,
        ),
        value_of(pairs, key) is None <==> forall|j: int|
            0 <= j < pairs.len() ==> (#[trigger] pairs[j]).0 != key,
    decreases pairs.len(),
{
    if pairs.len() > 0 {
        let rest = pairs.drop_first();
        law_first_value_counts(rest, key, i - 1);
        assert(forall|j: int| 0 <= j < rest.len() ==> #[trigger] rest[j] == pairs[j + 1]);
        if forall|j: int| 0 <= j < pairs.len() ==> (#[trigger] pairs[j]).0 != key {
            assert(pairs[0].0 != key);
            assert forall|j: int| 0 <= j < rest.len() implies (#[trigger] rest[j]).0 != key by {
                assert(pairs[j + 1].0 != key);
            }
        }
        if pairs[0].0 != key && (forall|j: int|
            0 <= j < rest.len() ==> (#[trigger] rest[j]).0 != key) {
            assert forall|j: int| 0 <= j < pairs.len() implies (#[trigger] pairs[j]).0 != key by {
                if j > 0 {
                    assert(rest[j - 1].0 != key);
                }
            }
        }
        if 0 < i < pairs.len() && pairs[i].0 == key && (forall|j: int|
            0 <= j < i ==> (#[trigger] pairs[j]).0 != key) {
            assert(pairs[0].0 != key);
            assert(rest[i - 1] == pairs[i]);
            assert forall|j: int| 0 <= j < i - 1 implies (#[trigger] rest[j]).0 != key by {
                assert(pairs[j + 1].0 != key);
            }
        }
        if i == 0 {
            assert(pairs[i].0 == key ==> value_of(pairs, key) == Some(pairs[i].1));
        }
    }
}

/// A parameter without `=` has the empty value, and one with it the value behind
/// the first, each decoded and with a `+` read as a space.
pub proof fn law_parameter_is_split_at_its_first_equals(name: Seq<char>, value: Seq<char>)
    requires
        !name.contains('='),
    ensures
        pair_of(name + seq!['='] + value) == (
            decoded(plus_as_space(name)),
            decoded(plus_as_space(value)),
        ),
        pair_of(name) == (decoded(plus_as_space(name)), Seq::<char>::empty()),
        plus_as_space(value).len() == value.len(),
        forall|i: int|
            0 <= i < value.len() ==> #[trigger] plus_as_space(value)[i] == (if value[i] == '+' {
                ' '
            } else {
                value[i]
            }),
{
    let s = name + seq!['='] + value;
    s.index_of_first_ensures('=');
    name.index_of_first_ensures('=');
    let at = name.len() as int;
    assert(s[at] == '=');
    assert(s.contains('='));
    let i = s.index_of_first('=')->0;
    assert(i == at) by {
        if i < at {
            assert(name[i] == '=');
        }
    }
    assert(s.take(at) =~= name);
    assert(s.skip(at + 1) =~= value);
}

/// The parameters are those of the pieces, in order, and an empty piece is none.
pub proof fn law_parameters_are_those_of_their_pieces(
    a: Seq<Seq<char>>,
    b: Seq<Seq<char>>,
    piece: Seq<char>,
)
    ensures
        pairs_of(a + b) == pairs_of(a) + pairs_of(b),
        piece.len() == 0 ==> pairs_of(seq![piece]).len() == 0,
        piece.len() > 0 ==> pairs_of(seq![piece]) == seq![pair_of(piece)],
    decreases b.len(),
{
    assert(seq![piece].drop_last() =~= Seq::<Seq<char>>::empty());
    assert(pairs_of(seq![piece].drop_last()) =~= Seq::empty());
    assert(pairs_of(seq![piece].drop_last()).push(pair_of(piece)) =~= seq![pair_of(piece)]);
    if b.len() == 0 {
        assert(a + b =~= a);
        assert(pairs_of(a) + pairs_of(b) =~= pairs_of(a));
    } else {
        law_parameters_are_those_of_their_pieces(a, b.drop_last(), piece);
        assert((a + b).drop_last() =~= a + b.drop_last());
        assert((a + b).last() == b.last());
        assert(pairs_of(a + b) =~= pairs_of(a) + pairs_of(b));
    }
}

/// An escape stands for the byte that its two digits name, in either case, and a
/// percent sign that no two such digits follow for itself.
#[verifier::spinoff_prover]
pub proof fn law_escapes_name_their_byte(k: int, j: int, b: Seq<u8>, rest: Seq<u8>)
    requires
        0 <= k < 16,
        0 <= j < 16,
        b.len() == 3,
        b[0] == 0x25,
        b[1] == (if k < 10 {
            0x30 + k
        } else {
            0x41 + (k - 10)
        }) || (k >= 10 && b[1] == 0x61 + (k - 10)),
        b[2] == (if j < 10 {
            0x30 + j
        } else {
            0x41 + (j - 10)
        }) || (j >= 10 && b[2] == 0x61 + (j - 10)),
    ensures
        unescape(b + rest) == seq![(16 * k + j) as u8] + unescape(rest),
        rest.len() > 0 && !starts_escaped(rest) ==> unescape(rest) == seq![rest[0]] + unescape(
            rest.skip(1),
        ),
        rest.len() >= 3 && rest[0] == 0x25 && is_hex(rest[1]) && is_hex(rest[2])
            <==> starts_escaped(rest),
        is_hex(b[1]) && is_hex(b[2]),
{
    assert((b + rest).skip(3) =~= rest);
    assert((b + rest)[0] == b[0] && (b + rest)[1] == b[1] && (b + rest)[2] == b[2]);
}

/// What a URI may carry as it is stands for itself when it is encoded, and every
/// other byte becomes a percent sign and two digits.
pub proof fn law_encoding_changes_only_what_it_must(b: u8)
    ensures
        (0x41 <= b <= 0x5a || 0x61 <= b <= 0x7a || 0x30 <= b <= 0x39 || b == 0x2d || b == 0x2e || b
            == 0x5f || b == 0x7e) ==> escape(seq![b]) == seq![b as char],
        !(0x41 <= b <= 0x5a || 0x61 <= b <= 0x7a || 0x30 <= b <= 0x39 || b == 0x2d || b == 0x2e || b
            == 0x5f || b == 0x7e) ==> escape(seq![b]).len() == 3 && escape(seq![b])[0] == '%' && (
        text::is_digit(escape(seq![b])[1]) || text::is_upper(escape(seq![b])[1])) && (
        text::is_digit(escape(seq![b])[2]) || text::is_upper(escape(seq![b])[2])),
{
    assert(seq![b].drop_last() =~= Seq::<u8>::empty());
    assert(escape(seq![b].drop_last()) =~= Seq::<char>::empty());
    assert(escape(seq![b]) =~= escape_byte(b));
}

/// A query string's parameters are those of what stands before and behind an
/// ampersand.
pub proof fn law_ampersands_separate(
    a: &str,
    b: &str,
    both: &str,
    ra: Vec<(String, String)>,
    rb: Vec<(String, String)>,
    r: Vec<(String, String)>,
)
    requires
        both@ == a@.push('&') + b@,
        call_ensures(pairs, (a,), ra),
        call_ensures(pairs, (b,), rb),
        call_ensures(pairs, (both,), r),
    ensures
        pair_texts(r@) == pair_texts(ra@) + pair_texts(rb@),
{
    text::lemma_split_after(a@, b@, '&');
    law_parameters_are_those_of_their_pieces(
        text::split(a@, '&'),
        text::split(b@, '&'),
        Seq::empty(),
    );
}

/// A request's parameter is that of the first pair that carries its name.
pub proof fn law_parameter_is_found(list: Vec<(String, String)>, key: &str, r: Option<&str>, i: int)
    requires
        call_ensures(first, (&list, key), r),
    ensures
        0 <= i < list@.len() && list@[i].0@ == key@ && (forall|j: int|
            0 <= j < i ==> (#[trigger] list@[j]).0@ != key@) ==> r is Some && r->0@ == list@[i].1@,
        r is None <==> forall|j: int| 0 <= j < list@.len() ==> (#[trigger] list@[j]).0@ != key@,
{
    let texts = pair_texts(list@);
    law_first_value_counts(texts, key@, i);
    assert(forall|j: int|
        0 <= j < list@.len() ==> #[trigger] texts[j] == (list@[j].0@, list@[j].1@));
    if forall|j: int| 0 <= j < list@.len() ==> (#[trigger] list@[j]).0@ != key@ {
        assert forall|j: int| 0 <= j < texts.len() implies (#[trigger] texts[j]).0 != key@ by {
            assert(list@[j].0@ != key@);
        }
    }
    if forall|j: int| 0 <= j < texts.len() ==> (#[trigger] texts[j]).0 != key@ {
        assert forall|j: int| 0 <= j < list@.len() implies (#[trigger] list@[j]).0@ != key@ by {
            assert(texts[j].0 != key@);
        }
    }
    if 0 <= i < list@.len() && (forall|j: int|
        0 <= j < i ==> (#[trigger] list@[j]).0@ != key@) {
        assert forall|j: int| 0 <= j < i implies (#[trigger] texts[j]).0 != key@ by {
            assert(list@[j].0@ != key@);
        }
    }
}

} // verus!
