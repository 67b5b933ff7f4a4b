//! The grammars of a repository name, a tag and a digest.

use vstd::prelude::*;
use vstd::utf8::*;

use crate::text;

verus! {

// ---- names -------------------------------------------------------------------

/// A lower-case letter or a digit.
pub open spec fn is_alnum(c: char) -> bool {
    text::is_lower(c) || text::is_digit(c)
}

/// The separator at `i` stands between letters or digits, and the run it is
/// part of is `.`, `_`, `__` or any number of `-`.
pub open spec fn separates(s: Seq<char>, i: int) -> bool {
    &&& 0 < i < s.len() - 1
    &&& {
        ||| s[i] == '.' && is_alnum(s[i - 1]) && is_alnum(s[i + 1])
        ||| s[i] == '-' && (is_alnum(s[i - 1]) || s[i - 1] == '-') && (is_alnum(s[i + 1]) || s[i
            + 1] == '-')
        ||| s[i] == '_' && (is_alnum(s[i - 1]) || s[i - 1] == '_') && (is_alnum(s[i + 1]) || s[i
            + 1] == '_') && !(s[i - 1] == '_' && s[i + 1] == '_')
    }
}

/// One component of a repository name: letters and digits, with separators
/// only inside.
pub open spec fn is_component(s: Seq<char>) -> bool {
    &&& s.len() > 0
    &&& forall|i: int| 0 <= i < s.len() ==> is_alnum(#[trigger] s[i]) || separates(s, i)
}

/// A repository name: components with `/` between them.
pub open spec fn is_name(s: Seq<char>) -> bool {
    forall|i: int|
        0 <= i < text::split(s, '/').len() ==> is_component(#[trigger] text::split(s, '/')[i])
}

fn alnum(c: char) -> (r: bool)
    ensures
        r == is_alnum(c),
{
    ('a' <= c && c <= 'z') || ('0' <= c && c <= '9')
}

fn valid_component(s: &str) -> (r: bool)
    ensures
        r == is_component(s@),
{
    let v = text::to_chars(s);
    let n = v.len();
    if n == 0 {
        return false;
    }
    let mut i: usize = 0;
    while i < n
        invariant
            v@ == s@,
            n == v@.len(),
            0 <= i <= n,
            forall|j: int| 0 <= j < i ==> is_alnum(#[trigger] v@[j]) || separates(v@, j),
        decreases n - i,
    {
        let c = v[i];
        if !alnum(c) {
            if i == 0 || i + 1 >= n {
                assert(!separates(s@, i as int));
                return false;
            }
            let p = v[i - 1];
            let q = v[i + 1];
            let ok = (c == '.' && alnum(p) && alnum(q)) || (c == '-' && (alnum(p) || p == '-') && (
            alnum(q) || q == '-')) || (c == '_' && (alnum(p) || p == '_') && (alnum(q) || q == '_')
                && !(p == '_' && q == '_'));
            if !ok {
                assert(!separates(s@, i as int));
                return false;
            }
        }
        i = i + 1;
    }
    true
}

/// Whether `name` is a repository name.
pub fn valid_name(name: &str) -> (r: bool)
    ensures
        r == is_name(name@),
{
    let pieces = text::split_text(name, '/');
    let mut i: usize = 0;
    while i < pieces.len()
        invariant
            text::texts(pieces@) == text::split(name@, '/'),
            0 <= i <= pieces@.len(),
            forall|j: int| 0 <= j < i ==> is_component(#[trigger] text::split(name@, '/')[j]),
        decreases pieces@.len() - i,
    {
        assert(text::texts(pieces@)[i as int] == pieces@[i as int]@);
        if !valid_component(pieces[i].as_str()) {
            return false;
        }
        i = i + 1;
    }
    true
}

/// The characters a repository name is made of.
pub open spec fn is_name_char(c: char) -> bool {
    is_alnum(c) || c == '.' || c == '-' || c == '_' || c == '/'
}

/// A repository name is never empty, and holds lower-case letters, digits,
/// `.`, `-`, `_` and `/` alone: no `@`, no `:`, no percent sign, no capital.
pub proof fn lemma_name_chars(s: Seq<char>)
    requires
        is_name(s),
    ensures
        s.len() > 0,
        forall|i: int| 0 <= i < s.len() ==> is_name_char(#[trigger] s[i]),
        is_ascii_chars(s),
        !s.contains('@'),
        !s.contains(':'),
        !s.contains('%'),
{
    let pieces = text::split(s, '/');
    text::lemma_split_pieces(s, '/');
    if s.len() == 0 {
        assert(is_component(pieces[0]));
        assert(false);
    }
    assert forall|i: int| 0 <= i < s.len() implies is_name_char(#[trigger] s[i]) by {
        if s[i] != '/' {
            text::lemma_split_covers(s, '/', i);
            let k = choose|k: int| 0 <= k < pieces.len() && (#[trigger] pieces[k]).contains(s[i]);
            let j = choose|j: int| 0 <= j < pieces[k].len() && pieces[k][j] == s[i];
            assert(is_component(pieces[k]));
            assert(is_alnum(pieces[k][j]) || separates(pieces[k], j));
        }
    }
}

/// Components joined by `/` are a repository name, however many there are.
pub proof fn law_components_make_a_name(pieces: Seq<Seq<char>>)
    requires
        pieces.len() >= 1,
        forall|i: int| 0 <= i < pieces.len() ==> is_component(#[trigger] pieces[i]),
    ensures
        is_name(text::join(pieces, '/')),
{
    assert forall|i: int| 0 <= i < pieces.len() implies !(#[trigger] pieces[i]).contains('/') by {
        let p = pieces[i];
        if p.contains('/') {
            let j = choose|j: int| 0 <= j < p.len() && p[j] == '/';
            assert(is_alnum(p[j]) || separates(p, j));
        }
    }
    text::lemma_split_join(pieces, '/');
}

/// Two components with a separator between them are one component: a dot, one or
/// two underscores, or any number of hyphens.
#[verifier::spinoff_prover]
pub proof fn law_separated_components_are_one(a: Seq<char>, sep: Seq<char>, b: Seq<char>)
    requires
        is_component(a),
        is_component(b),
        sep == seq!['.'] || sep == seq!['_'] || sep == seq!['_', '_'] || (sep.len() > 0 && forall|
            i: int,
        |
            0 <= i < sep.len() ==> #[trigger] sep[i] == '-'),
    ensures
        is_component(a + sep + b),
{
    let s = a + sep + b;
    let n = a.len() as int;
    let m = n + sep.len();
    law_components_begin_and_end_plainly(a);
    law_components_begin_and_end_plainly(b);
    assert forall|i: int| 0 <= i < s.len() implies is_alnum(#[trigger] s[i]) || separates(s, i) by {
        if i < n {
            assert(s[i] == a[i]);
            if !is_alnum(a[i]) {
                assert(separates(a, i));
                assert(s[i - 1] == a[i - 1] && s[i + 1] == a[i + 1]);
            }
        } else if i < m {
            assert(s[i] == sep[i - n]);
            assert(s[n - 1] == a.last());
            assert(s[m] == b[0]);
            if i > n {
                assert(s[i - 1] == sep[i - 1 - n]);
            }
            if i + 1 < m {
                assert(s[i + 1] == sep[i + 1 - n]);
            }
        } else {
            assert(s[i] == b[i - m]);
            if !is_alnum(b[i - m]) {
                assert(separates(b, i - m));
                assert(s[i - 1] == b[i - m - 1] && s[i + 1] == b[i - m + 1]);
            }
        }
    }
}

/// A component begins and ends with a letter or a digit; it holds lower-case letters,
/// digits, dots, underscores and hyphens alone; and no dot in it stands beside
/// another separator, nor three underscores in a row. Any text of lower-case letters
/// and digits is one.
pub proof fn law_components_begin_and_end_plainly(s: Seq<char>)
    ensures
        is_component(s) ==> s.len() > 0 && is_alnum(s[0]) && is_alnum(s.last()),
        is_component(s) ==> forall|i: int|
            0 <= i < s.len() ==> is_alnum(#[trigger] s[i]) || s[i] == '.' || s[i] == '_' || s[i]
                == '-',
        is_component(s) ==> forall|i: int|
            0 < i < s.len() - 1 && #[trigger] s[i] == '.' ==> is_alnum(s[i - 1]) && is_alnum(
                s[i + 1],
            ),
        is_component(s) ==> forall|i: int|
            0 < i < s.len() - 1 && #[trigger] s[i] == '_' ==> !(s[i - 1] == '_' && s[i + 1] == '_'),
        s.len() > 0 && (forall|i: int|
            0 <= i < s.len() ==> ('a' <= #[trigger] s[i] && s[i] <= 'z') || ('0' <= s[i] && s[i]
                <= '9')) ==> is_component(s),
{
    if is_component(s) {
        assert(is_alnum(s[0]) || separates(s, 0));
        assert(is_alnum(s[s.len() - 1]) || separates(s, s.len() - 1));
    }
}

/// A name is made of components, each of them one by itself.
#[verifier::spinoff_prover]
pub proof fn law_a_name_is_its_components(s: Seq<char>)
    requires
        !s.contains('/'),
    ensures
        is_name(s) <==> is_component(s),
        forall|rest: Seq<char>|
            is_name(#[trigger] (s.push('/') + rest)) <==> is_component(s) && is_name(rest),
{
    text::lemma_split_single(s, '/');
    assert(text::split(s, '/') =~= seq![s]);
    assert(is_name(s) <==> is_component(s)) by {
        if is_name(s) {
            assert(is_component(text::split(s, '/')[0]));
        }
    }
    assert forall|rest: Seq<char>| is_name(#[trigger] (s.push('/') + rest)) <==> is_component(s)
        && is_name(rest) by {
        let whole = s.push('/') + rest;
        text::lemma_split_after(s, rest, '/');
        let pieces = text::split(whole, '/');
        let tail = text::split(rest, '/');
        assert(pieces =~= seq![s] + tail);
        if is_name(whole) {
            assert(is_component(pieces[0]));
            assert forall|i: int| 0 <= i < tail.len() implies is_component(#[trigger] tail[i]) by {
                assert(is_component(pieces[i + 1]));
            }
        }
        if is_component(s) && is_name(rest) {
            assert forall|i: int| 0 <= i < pieces.len() implies is_component(#[trigger] pieces[i]) by {
                if i > 0 {
                    assert(pieces[i] == tail[i - 1]);
                    assert(is_component(tail[i - 1]));
                }
            }
        }
    }
}

// ---- tags --------------------------------------------------------------------

/// A letter, a digit or `_`: what a tag may start with.
pub open spec fn is_tag_start(c: char) -> bool {
    text::is_lower(c) || text::is_upper(c) || text::is_digit(c) || c == '_'
}

/// What a tag is made of.
pub open spec fn is_tag_char(c: char) -> bool {
    is_tag_start(c) || c == '.' || c == '-'
}

/// A tag: 1 to 128 characters, the first a letter, a digit or `_`.
pub open spec fn is_tag(s: Seq<char>) -> bool {
    &&& 1 <= s.len() <= 128
    &&& is_tag_start(s[0])
    &&& forall|i: int| 0 <= i < s.len() ==> is_tag_char(#[trigger] s[i])
}

/// Whether `tag` is a tag.
pub fn valid_tag(tag: &str) -> (r: bool)
    ensures
        r == is_tag(tag@),
{
    let v = text::to_chars(tag);
    if v.len() < 1 || v.len() > 128 {
        return false;
    }
    let mut i: usize = 0;
    while i < v.len()
        invariant
            v@ == tag@,
            0 <= i <= v@.len(),
            i > 0 ==> is_tag_start(v@[0]),
            forall|j: int| 0 <= j < i ==> is_tag_char(#[trigger] v@[j]),
        decreases v@.len() - i,
    {
        let c = v[i];
        let start = ('a' <= c && c <= 'z') || ('A' <= c && c <= 'Z') || ('0' <= c && c <= '9') || c
            == '_';
        if !start && (i == 0 || (c != '.' && c != '-')) {
            return false;
        }
        i = i + 1;
    }
    true
}

/// A tag has one to a hundred and twenty-eight characters: letters of either case,
/// digits and underscores, and behind the first also dots and hyphens.
pub proof fn law_tags_are_spelled(s: Seq<char>)
    ensures
        is_tag(s) <==> 1 <= s.len() <= 128 && s[0] != '.' && s[0] != '-' && forall|i: int|
            0 <= i < s.len() ==> ('a' <= #[trigger] s[i] && s[i] <= 'z') || ('A' <= s[i] && s[i]
                <= 'Z') || ('0' <= s[i] && s[i] <= '9') || s[i] == '_' || s[i] == '.' || s[i] == '-',
{
    if is_tag(s) {
        assert forall|i: int| 0 <= i < s.len() implies ('a' <= #[trigger] s[i] && s[i] <= 'z') || (
        'A' <= s[i] && s[i] <= 'Z') || ('0' <= s[i] && s[i] <= '9') || s[i] == '_' || s[i] == '.'
            || s[i] == '-' by {
            assert(is_tag_char(s[i]));
        }
    }
}

// ---- digests -----------------------------------------------------------------

/// The hash a digest was made with.
#[derive(Debug, Clone, Copy, PartialEq, Eq, Structural)]
pub enum DigestAlgorithm {
    Sha256,
    Sha512,
}

impl DigestAlgorithm {
    /// The name before the colon.
    pub open spec fn spec_name(self) -> Seq<char> {
        match self {
            DigestAlgorithm::Sha256 => "sha256"@,
            DigestAlgorithm::Sha512 => "sha512"@,
        }
    }

    /// How many hexadecimal digits the hash takes.
    pub open spec fn spec_hex_len(self) -> nat {
        match self {
            DigestAlgorithm::Sha256 => 64,
            DigestAlgorithm::Sha512 => 128,
        }
    }

    /// The name before the colon.
    pub fn name(self) -> (r: &'static str)
        ensures
            r@ == self.spec_name(),
    {
        match self {
            DigestAlgorithm::Sha256 => "sha256",
            DigestAlgorithm::Sha512 => "sha512",
        }
    }

    /// How many hexadecimal digits the hash takes.
    pub fn hex_len(self) -> (r: usize)
        ensures
            r == self.spec_hex_len(),
    {
        match self {
            DigestAlgorithm::Sha256 => 64,
            DigestAlgorithm::Sha512 => 128,
        }
    }

    /// The algorithm with this name.
    pub fn from_name(name: &str) -> (r: Option<DigestAlgorithm>)
        ensures
            r == algorithm_named(name@),
    {
        if text::same(name, "sha256") {
            Some(DigestAlgorithm::Sha256)
        } else if text::same(name, "sha512") {
            Some(DigestAlgorithm::Sha512)
        } else {
            None
        }
    }
}

/// The algorithm with this name.
pub open spec fn algorithm_named(name: Seq<char>) -> Option<DigestAlgorithm> {
    if name == "sha256"@ {
        Some(DigestAlgorithm::Sha256)
    } else if name == "sha512"@ {
        Some(DigestAlgorithm::Sha512)
    } else {
        None
    }
}

/// A digit or one of `a` to `f`.
pub open spec fn is_hex_char(c: char) -> bool {
    text::is_digit(c) || ('a' <= c && c <= 'f')
}

/// A content digest.
#[derive(Debug, Clone, PartialEq, Eq)]
pub struct Digest {
    pub algorithm: DigestAlgorithm,
    pub hex: String,
}

/// A content digest, its hash as characters.
pub struct DigestView {
    pub algorithm: DigestAlgorithm,
    pub hex: Seq<char>,
}

impl DigestView {
    /// The hash has its algorithm's length and is lower-case hexadecimal.
    pub open spec fn wf(self) -> bool {
        &&& self.hex.len() == self.algorithm.spec_hex_len()
        &&& forall|i: int| 0 <= i < self.hex.len() ==> is_hex_char(#[trigger] self.hex[i])
    }

    /// `<algorithm>:<hash>`.
    pub open spec fn text(self) -> Seq<char> {
        self.algorithm.spec_name().push(':') + self.hex
    }
}

impl View for Digest {
    type V = DigestView;

    open spec fn view(&self) -> DigestView {
        DigestView { algorithm: self.algorithm, hex: self.hex@ }
    }
}

/// The digest that `s` writes out, if it writes one.
pub open spec fn digest_of(s: Seq<char>) -> Option<DigestView> {
    match s.index_of_first(':') {
        None => None,
        Some(i) => match algorithm_named(s.take(i)) {
            None => None,
            Some(algorithm) => {
                let d = DigestView { algorithm, hex: s.skip(i + 1) };
                if d.wf() {
                    Some(d)
                } else {
                    None
                }
            },
        },
    }
}

/// The view of an optional digest.
pub open spec fn opt_digest(o: Option<Digest>) -> Option<DigestView> {
    match o {
        Some(d) => Some(d@),
        None => None,
    }
}

impl Digest {
    /// `<algorithm>:<hash>`.
    pub fn to_text(&self) -> (r: String)
        ensures
            r@ == self@.text(),
    {
        let mut r = text::copy(self.algorithm.name());
        r.push(':');
        r.append(self.hex.as_str());
        r
    }

    /// A copy of the digest.
    pub fn copy(&self) -> (r: Digest)
        ensures
            r@ == self@,
    {
        Digest { algorithm: self.algorithm, hex: text::copy(self.hex.as_str()) }
    }
}

/// Text that is no digest, kept to be quoted back.
#[derive(Debug, Clone, PartialEq, Eq)]
pub struct InvalidDigest(pub String);

/// Read a digest.
pub fn parse_digest(raw: &str) -> (r: Result<Digest, InvalidDigest>)
    ensures
        match r {
            Ok(d) => digest_of(raw@) == Some(d@),
            Err(e) => digest_of(raw@) is None && e.0@ == raw@,
        },
{
    let v = text::to_chars(raw);
    let at: usize = match text::find_first(&v, ':') {
        Some(at) => at,
        None => return Err(InvalidDigest(text::copy(raw))),
    };
    proof {
        assert(v@.subrange(0, at as int) =~= raw@.take(at as int));
        assert(v@.subrange(at + 1, v@.len() as int) =~= raw@.skip(at + 1));
    }
    let name = text::text_range(&v, 0, at);
    let algorithm = match DigestAlgorithm::from_name(name.as_str()) {
        Some(algorithm) => algorithm,
        None => return Err(InvalidDigest(text::copy(raw))),
    };
    if v.len() - (at + 1) != algorithm.hex_len() {
        return Err(InvalidDigest(text::copy(raw)));
    }
    let ghost d = DigestView { algorithm, hex: raw@.skip(at + 1) };
    let mut i: usize = at + 1;
    while i < v.len()
        invariant
            v@ == raw@,
            at + 1 <= i <= v@.len(),
            d == (DigestView { algorithm, hex: raw@.skip(at + 1) }),
            digest_of(raw@) == (if d.wf() {
                Some(d)
            } else {
                None::<DigestView>
            }),
            forall|j: int| 0 <= j < i - (at + 1) ==> is_hex_char(#[trigger] d.hex[j]),
        decreases v@.len() - i,
    {
        let c = v[i];
        assert(d.hex[i - (at + 1)] == c);
        if !(('0' <= c && c <= '9') || ('a' <= c && c <= 'f')) {
            return Err(InvalidDigest(text::copy(raw)));
        }
        i = i + 1;
    }
    Ok(Digest { algorithm, hex: text::text_range(&v, at + 1, v.len()) })
}

/// A digest reads back from what it is written as.
pub proof fn lemma_digest_round_trip(d: DigestView)
    requires
        d.wf(),
    ensures
        digest_of(d.text()) == Some(d),
{
    reveal_strlit("sha256");
    reveal_strlit("sha512");
    let s = d.text();
    let name = d.algorithm.spec_name();
    s.index_of_first_ensures(':');
    assert(s[6] == ':');
    assert(s.contains(':'));
    let i = s.index_of_first(':')->0;
    assert(i == 6) by {
        if i < 6 {
            assert(s[i] == name[i]);
        }
    }
    assert(s.take(6) =~= name);
    assert(s.skip(7) =~= d.hex);
    assert("sha256"@[3] != "sha512"@[3]);
}

/// What reads as a digest is written the same way again, and the digest is
/// well formed: no two spellings name one digest.
pub proof fn lemma_digest_spelling(s: Seq<char>)
    requires
        digest_of(s) is Some,
    ensures
        digest_of(s)->0.wf(),
        digest_of(s)->0.text() == s,
{
    s.index_of_first_ensures(':');
    let i = s.index_of_first(':')->0;
    assert(s.take(i).push(':') + s.skip(i + 1) =~= s);
}

/// A tag holds no `:` and no `@`, and a digest always holds a `:`: the two
/// cannot be mistaken for one another.
pub proof fn lemma_tag_is_no_digest(s: Seq<char>)
    requires
        is_tag(s),
    ensures
        !s.contains(':'),
        !s.contains('@'),
        digest_of(s) is None,
{
    assert forall|i: int| 0 <= i < s.len() implies s[i] != ':' && s[i] != '@' by {
        assert(is_tag_char(s[i]));
    }
    s.index_of_first_ensures(':');
}

/// A digest's text holds no `@`.
pub proof fn lemma_digest_chars(d: DigestView)
    requires
        d.wf(),
    ensures
        !d.text().contains('@'),
        d.text().contains(':'),
{
    reveal_strlit("sha256");
    reveal_strlit("sha512");
    let s = d.text();
    assert forall|i: int| 0 <= i < s.len() implies s[i] != '@' by {
        if i > 6 {
            assert(s[i] == d.hex[i - 7]);
            assert(is_hex_char(d.hex[i - 7]));
        }
    }
    assert(s[6] == ':');
}

/// A digest is its algorithm, a colon and its hash in lower-case hexadecimal,
/// sixty-four digits of it for SHA-256 and a hundred and twenty-eight for SHA-512;
/// nothing else is one.
#[verifier::spinoff_prover]
pub proof fn law_digests_are_spelled(s: Seq<char>, hex: Seq<char>)
    ensures
        ({
            let lower = forall|i: int|
                0 <= i < hex.len() ==> ('0' <= #[trigger] hex[i] && hex[i] <= '9') || ('a' <= hex[i]
                    && hex[i] <= 'f');
            &&& lower && hex.len() == 64 ==> digest_of("sha256:"@ + hex) == Some(
                DigestView { algorithm: DigestAlgorithm::Sha256, hex },
            )
            &&& lower && hex.len() == 128 ==> digest_of("sha512:"@ + hex) == Some(
                DigestView { algorithm: DigestAlgorithm::Sha512, hex },
            )
        }),
        digest_of(s) matches Some(d) ==> {
            &&& s == (if d.algorithm == DigestAlgorithm::Sha256 {
                "sha256:"@
            } else {
                "sha512:"@
            }) + d.hex
            &&& d.hex.len() == (if d.algorithm == DigestAlgorithm::Sha256 {
                64int
            } else {
                128
            })
            &&& forall|i: int|
                0 <= i < d.hex.len() ==> ('0' <= #[trigger] d.hex[i] && d.hex[i] <= '9') || ('a'
                    <= d.hex[i] && d.hex[i] <= 'f')
        },
{
    reveal_strlit("sha256");
    reveal_strlit("sha512");
    reveal_strlit("sha256:");
    reveal_strlit("sha512:");
    assert("sha256"@.push(':') =~= "sha256:"@);
    assert("sha512"@.push(':') =~= "sha512:"@);
    let a = DigestView { algorithm: DigestAlgorithm::Sha256, hex };
    let b = DigestView { algorithm: DigestAlgorithm::Sha512, hex };
    if forall|i: int|
        0 <= i < hex.len() ==> ('0' <= #[trigger] hex[i] && hex[i] <= '9') || ('a' <= hex[i]
            && hex[i] <= 'f') {
        if hex.len() == 64 {
            assert(a.wf());
            lemma_digest_round_trip(a);
        }
        if hex.len() == 128 {
            assert(b.wf());
            lemma_digest_round_trip(b);
        }
    }
    if digest_of(s) is Some {
        lemma_digest_spelling(s);
        let d = digest_of(s)->0;
        assert forall|i: int| 0 <= i < d.hex.len() implies ('0' <= #[trigger] d.hex[i] && d.hex[i]
            <= '9') || ('a' <= d.hex[i] && d.hex[i] <= 'f') by {
            assert(is_hex_char(d.hex[i]));
        }
    }
}

// ---- references --------------------------------------------------------------

/// A manifest, by tag or by digest.
#[derive(Debug, Clone, PartialEq, Eq)]
pub enum Reference {
    Tag(String),
    Digest(Digest),
}

/// A manifest, by tag or by digest.
pub enum ReferenceView {
    Tag(Seq<char>),
    Digest(DigestView),
}

impl View for Reference {
    type V = ReferenceView;

    open spec fn view(&self) -> ReferenceView {
        match self {
            Reference::Tag(t) => ReferenceView::Tag(t@),
            Reference::Digest(d) => ReferenceView::Digest(d@),
        }
    }
}

} // verus!
