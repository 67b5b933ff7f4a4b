//! Random identifiers.

use vstd::prelude::*;

use crate::text;

verus! {

/// The lower-case hexadecimal digit of `v`.
pub open spec fn hex_char(v: int) -> char {
    if v < 10 {
        (v + 0x30) as char
    } else {
        (v - 10 + 0x61) as char
    }
}

/// Bytes in lower-case hexadecimal, two digits each.
pub open spec fn hex_of(b: Seq<u8>) -> Seq<char>
    decreases b.len(),
{
    if b.len() == 0 {
        Seq::empty()
    } else {
        hex_of(b.drop_last()) + seq![hex_char(b.last() as int / 16), hex_char(b.last() as int % 16)]
    }
}

/// A digit or one of `a` to `f`.
pub open spec fn is_hex_char(c: char) -> bool {
    text::is_digit(c) || ('a' <= c && c <= 'f')
}

/// Hexadecimal text of `n` characters.
pub open spec fn is_hex_text(s: Seq<char>, n: nat) -> bool {
    s.len() == n && forall|i: int| 0 <= i < s.len() ==> is_hex_char(#[trigger] s[i])
}

pub proof fn lemma_hex_of(b: Seq<u8>)
    ensures
        is_hex_text(hex_of(b), 2 * b.len()),
    decreases b.len(),
{
    if b.len() > 0 {
        lemma_hex_of(b.drop_last());
        let front = hex_of(b.drop_last());
        assert forall|i: int| 0 <= i < hex_of(b).len() implies is_hex_char(#[trigger] hex_of(b)[i]) by {
            if i < front.len() {
                assert(hex_of(b)[i] == front[i]);
            }
        }
    }
}

/// The lower-case hexadecimal digit of `v`.
pub fn hex_digit(v: u8) -> (c: char)
    requires
        v < 16,
    ensures
        c == hex_char(v as int),
{
    if v < 10 {
        (v + 0x30) as char
    } else {
        (v - 10 + 0x61) as char
    }
}

/// The sixteen bytes of a random UUID: the version in byte 6 and the variant in
/// byte 8 are fixed, and nothing else is.
pub open spec fn is_random_uuid(b: Seq<u8>) -> bool {
    b.len() == 16 && 0x40 <= b[6] <= 0x4f && 0x80 <= b[8] <= 0xbf
}

/// `Uuid::new_v4` and `Uuid::as_bytes` of the `uuid` crate: sixteen bytes from
/// the operating system's random source, with the version bits of byte 6 and
/// the variant bits of byte 8 fixed. Nothing else is claimed of them.
#[verifier::external_body]
pub(crate) fn random_uuid() -> (r: [u8; 16])
    ensures
        is_random_uuid(r@),
{
    *uuid::Uuid::new_v4().as_bytes()
}

/// Thirty-two hexadecimal digits with a hyphen after the 8th, 12th, 16th and
/// 20th.
pub open spec fn hyphenated(hex: Seq<char>) -> Seq<char> {
    hex.subrange(0, 8) + seq!['-'] + hex.subrange(8, 12) + seq!['-'] + hex.subrange(12, 16)
        + seq!['-'] + hex.subrange(16, 20) + seq!['-'] + hex.subrange(20, 32)
}

/// `Uuid::from_bytes` and the `Display` of the `uuid` crate: the bytes in
/// lower-case hexadecimal, hyphenated.
#[verifier::external_body]
pub(crate) fn uuid_text(bytes: [u8; 16]) -> (r: String)
    ensures
        r@ == hyphenated(hex_of(bytes@)),
{
    uuid::Uuid::from_bytes(bytes).to_string()
}

/// A name for a staging file: `prefix`, a hyphen and the bytes as a UUID.
pub fn staging_name(prefix: &str, bytes: [u8; 16]) -> (r: String)
    ensures
        r@ == prefix@ + seq!['-'] + hyphenated(hex_of(bytes@)),
{
    let mut r = text::copy(prefix);
    r.push('-');
    r.append(uuid_text(bytes).as_str());
    assert(r@ =~= prefix@ + seq!['-'] + hyphenated(hex_of(bytes@)));
    r
}

/// `s` is `prefix`, a hyphen and a random UUID.
pub open spec fn is_staging_id(s: Seq<char>, prefix: Seq<char>) -> bool {
    exists|bytes: Seq<u8>|
        is_random_uuid(bytes) && s == prefix + seq!['-'] + hyphenated(#[trigger] hex_of(bytes))
}

/// A fresh name for a staging file.
///
/// It exists for as long as it takes to rename the file to its digest, and
/// never enters a batch.
pub fn staging_id(prefix: &str) -> (r: String)
    ensures
        is_staging_id(r@, prefix@),
{
    let bytes = random_uuid();
    assert(is_random_uuid(bytes@));
    staging_name(prefix, bytes)
}

/// A byte in hexadecimal is its high digit and its low digit, in lower case.
pub proof fn law_hex_digits(b: u8)
    ensures
        hex_of(seq![b]).len() == 2,
        ({
            let high = b as int / 16;
            let low = b as int % 16;
            let digits = hex_of(seq![b]);
            &&& high < 10 ==> digits[0] as int == '0' as int + high
            &&& high >= 10 ==> digits[0] as int == 'a' as int + high - 10
            &&& low < 10 ==> digits[1] as int == '0' as int + low
            &&& low >= 10 ==> digits[1] as int == 'a' as int + low - 10
        }),
{
    assert(seq![b].drop_last() =~= Seq::<u8>::empty());
    assert(hex_of(seq![b].drop_last()) =~= Seq::<char>::empty());
}

/// A staging file's name is its prefix, a hyphen, and thirty-two hexadecimal digits in
/// groups of eight, four, four, four and twelve.
#[verifier::spinoff_prover]
pub proof fn law_staging_names_are_hyphenated(prefix: &str, bytes: [u8; 16], r: String, i: int)
    requires
        call_ensures(staging_name, (prefix, bytes), r),
        0 <= i < 36,
    ensures
        r@.len() == prefix@.len() + 37,
        text::starts_with(r@, prefix@),
        r@[prefix@.len() as int] == '-',
        i == 8 || i == 13 || i == 18 || i == 23 <==> r@[prefix@.len() + 1 + i] == '-',
        r@[prefix@.len() + 1 + i] == '-' || is_hex_char(r@[prefix@.len() + 1 + i]),
{
    let hex = hex_of(bytes@);
    lemma_hex_of(bytes@);
    let id = hyphenated(hex);
    assert(r@.take(prefix@.len() as int) =~= prefix@);
    assert(r@[prefix@.len() + 1 + i] == id[i]);
    let at = if i < 8 {
        i
    } else if i < 13 {
        i - 1
    } else if i < 18 {
        i - 2
    } else if i < 23 {
        i - 3
    } else {
        i - 4
    };
    if !(i == 8 || i == 13 || i == 18 || i == 23) {
        assert(id[i] == hex[at]);
        assert(is_hex_char(hex[at]));
    }
}

} // verus!
