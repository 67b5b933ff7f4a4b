//! Text as a sequence of characters: splitting, trimming, joining and numbers.
//!
//! Every contract in this crate that speaks of a string speaks of its
//! `Seq<char>`; the functions here are the bridge between the two.

use vstd::prelude::*;

verus! {

// ---- characters ----------------------------------------------------------

/// `0` to `9`.
pub open spec fn is_digit(c: char) -> bool {
    '0' <= c && c <= '9'
}

/// `a` to `z`.
pub open spec fn is_lower(c: char) -> bool {
    'a' <= c && c <= 'z'
}

/// `A` to `Z`.
pub open spec fn is_upper(c: char) -> bool {
    'A' <= c && c <= 'Z'
}

/// The characters of Unicode's `White_Space` property.
pub open spec fn is_space(c: char) -> bool {
    ||| '\u{9}' <= c && c <= '\u{d}'
    ||| c == '\u{20}'
    ||| c == '\u{85}'
    ||| c == '\u{a0}'
    ||| c == '\u{1680}'
    ||| '\u{2000}' <= c && c <= '\u{200a}'
    ||| c == '\u{2028}'
    ||| c == '\u{2029}'
    ||| c == '\u{202f}'
    ||| c == '\u{205f}'
    ||| c == '\u{3000}'
}

/// Whether `c` is white space.
pub fn space(c: char) -> (r: bool)
    ensures
        r == is_space(c),
{
    ('\u{9}' <= c && c <= '\u{d}') || c == '\u{20}' || c == '\u{85}' || c == '\u{a0}' || c
        == '\u{1680}' || ('\u{2000}' <= c && c <= '\u{200a}') || c == '\u{2028}' || c == '\u{2029}'
        || c == '\u{202f}' || c == '\u{205f}' || c == '\u{3000}'
}

/// `c` in lower case if it is an ASCII capital, otherwise `c`.
pub open spec fn lower_char(c: char) -> char {
    if is_upper(c) {
        ((c as u32 + 32) as u32) as char
    } else {
        c
    }
}

/// `s` with its ASCII capitals in lower case.
pub open spec fn lower(s: Seq<char>) -> Seq<char> {
    s.map_values(|c: char| lower_char(c))
}

// ---- between strings and their characters ---------------------------------

/// `String::push` of the standard library: the string grows by the one
/// character, at its end.
pub assume_specification[ String::push ](s: &mut String, c: char)
    ensures
        final(s)@ == old(s)@.push(c),
;

/// The views of a sequence of strings.
pub open spec fn texts(v: Seq<String>) -> Seq<Seq<char>> {
    v.map_values(|s: String| s@)
}

/// The view of an optional string.
pub open spec fn opt_text(o: Option<String>) -> Option<Seq<char>> {
    match o {
        Some(s) => Some(s@),
        None => None,
    }
}

/// The characters of `s`.
pub fn to_chars(s: &str) -> (v: Vec<char>)
    ensures
        v@ == s@,
{
    let mut v: Vec<char> = Vec::new();
    for c in it: s.chars()
        invariant
            it.seq() == s@,
            v@ == s@.take(it.index() as int),
    {
        v.push(c);
        assert(v@ =~= s@.take(it.index() + 1));
    }
    assert(s@.take(s@.len() as int) =~= s@);
    v
}

/// The characters of `v` from `from` up to `to`, as a string.
pub fn text_range(v: &Vec<char>, from: usize, to: usize) -> (r: String)
    requires
        from <= to <= v@.len(),
    ensures
        r@ == v@.subrange(from as int, to as int),
{
    let mut r = String::new();
    let mut i: usize = from;
    while i < to
        invariant
            from <= i <= to <= v@.len(),
            r@ == v@.subrange(from as int, i as int),
        decreases to - i,
    {
        r.push(v[i]);
        i = i + 1;
        assert(r@ =~= v@.subrange(from as int, i as int));
    }
    r
}

/// A copy of `s`.
pub fn copy(s: &str) -> (r: String)
    ensures
        r@ == s@,
{
    let mut r = String::new();
    r.append(s);
    assert(r@ =~= s@);
    r
}

/// Whether two strings hold the same characters.
pub fn same(a: &str, b: &str) -> (r: bool)
    ensures
        r == (a@ == b@),
{
    let x = to_chars(a);
    let y = to_chars(b);
    if x.len() != y.len() {
        return false;
    }
    let mut i: usize = 0;
    while i < x.len()
        invariant
            x@ == a@,
            y@ == b@,
            x@.len() == y@.len(),
            0 <= i <= x@.len(),
            forall|j: int| 0 <= j < i ==> x@[j] == y@[j],
        decreases x@.len() - i,
    {
        if x[i] != y[i] {
            return false;
        }
        i = i + 1;
    }
    assert(x@ =~= y@);
    true
}


/// `s` with its ASCII capitals in lower case.
pub fn lower_text(s: &str) -> (r: String)
    ensures
        r@ == lower(s@),
{
    let v = to_chars(s);
    let mut r = String::new();
    let mut i: usize = 0;
    while i < v.len()
        invariant
            v@ == s@,
            0 <= i <= v@.len(),
            r@ == lower(v@.take(i as int)),
        decreases v@.len() - i,
    {
        let c = v[i];
        if 'A' <= c && c <= 'Z' {
            r.push((c as u8 + 32) as char);
        } else {
            r.push(c);
        }
        i = i + 1;
        assert(r@ =~= lower(v@.take(i as int)));
    }
    assert(v@.take(v@.len() as int) =~= s@);
    r
}

// ---- splitting and joining -------------------------------------------------

/// The pieces of `s` between occurrences of `sep`: always one more piece than
/// there are separators.
pub open spec fn split(s: Seq<char>, sep: char) -> Seq<Seq<char>>
    decreases s.len(),
{
    if s.len() == 0 {
        seq![Seq::<char>::empty()]
    } else {
        let front = split(s.drop_last(), sep);
        if s.last() == sep {
            front.push(Seq::<char>::empty())
        } else {
            front.drop_last().push(front.last().push(s.last()))
        }
    }
}

/// The pieces with `sep` between them.
pub open spec fn join(pieces: Seq<Seq<char>>, sep: char) -> Seq<char>
    decreases pieces.len(),
{
    if pieces.len() == 0 {
        Seq::<char>::empty()
    } else if pieces.len() == 1 {
        pieces[0]
    } else {
        join(pieces.drop_last(), sep).push(sep) + pieces.last()
    }
}

/// A split has at least one piece, and no piece holds the separator.
pub proof fn lemma_split_pieces(s: Seq<char>, sep: char)
    ensures
        split(s, sep).len() >= 1,
        forall|i: int| 0 <= i < split(s, sep).len() ==> !(#[trigger] split(s, sep)[i]).contains(sep),
    decreases s.len(),
{
    if s.len() > 0 {
        let front = split(s.drop_last(), sep);
        lemma_split_pieces(s.drop_last(), sep);
        if s.last() != sep {
            let grown = front.last().push(s.last());
            assert(!front[front.len() - 1].contains(sep));
            assert(!grown.contains(sep)) by {
                if grown.contains(sep) {
                    let k = choose|k: int| 0 <= k < grown.len() && grown[k] == sep;
                    assert(k < front.last().len());
                    assert(front.last()[k] == sep);
                }
            }
        }
        assert forall|i: int| 0 <= i < split(s, sep).len() implies !(#[trigger] split(s, sep)[i]).contains(sep) by {
            if i < front.len() - 1 {
                assert(split(s, sep)[i] == front[i]);
            } else if s.last() == sep && i < front.len() {
                assert(split(s, sep)[i] == front[i]);
            }
        }
    }
}

/// Joining undoes splitting.
pub proof fn lemma_join_split(s: Seq<char>, sep: char)
    ensures
        join(split(s, sep), sep) == s,
    decreases s.len(),
{
    lemma_split_pieces(s, sep);
    if s.len() > 0 {
        let front = split(s.drop_last(), sep);
        lemma_split_pieces(s.drop_last(), sep);
        lemma_join_split(s.drop_last(), sep);
        if s.last() == sep {
            assert(split(s, sep).drop_last() =~= front);
            assert(join(split(s, sep), sep) =~= s);
        } else {
            let all = split(s, sep);
            assert(all.drop_last() =~= front.drop_last());
            assert(all.last() == front.last().push(s.last()));
            if front.len() == 1 {
                assert(all[0] == all.last());
                assert(front[0] == front.last());
            }
            assert(join(all, sep) =~= join(front, sep).push(s.last()));
            assert(join(all, sep) =~= s);
        }
    } else {
        assert(join(split(s, sep), sep) =~= s);
    }
}

/// Splitting after a separator continues the pieces before it.
pub proof fn lemma_split_after(a: Seq<char>, b: Seq<char>, sep: char)
    ensures
        split(a.push(sep) + b, sep) == split(a, sep) + split(b, sep),
    decreases b.len(),
{
    let whole = a.push(sep) + b;
    lemma_split_pieces(b, sep);
    if b.len() == 0 {
        assert(whole =~= a.push(sep));
        assert(whole.drop_last() =~= a);
        assert(split(whole, sep) =~= split(a, sep) + split(b, sep));
    } else {
        lemma_split_after(a, b.drop_last(), sep);
        lemma_split_pieces(b.drop_last(), sep);
        assert(whole.drop_last() =~= a.push(sep) + b.drop_last());
        assert(whole.last() == b.last());
        assert(split(whole, sep) =~= split(a, sep) + split(b, sep));
    }
}

/// Text without the separator is a single piece.
pub proof fn lemma_split_single(s: Seq<char>, sep: char)
    requires
        !s.contains(sep),
    ensures
        split(s, sep) == seq![s],
    decreases s.len(),
{
    if s.len() > 0 {
        assert(!s.drop_last().contains(sep)) by {
            if s.drop_last().contains(sep) {
                let k = choose|k: int| 0 <= k < s.drop_last().len() && s.drop_last()[k] == sep;
                assert(s[k] == sep);
            }
        }
        lemma_split_single(s.drop_last(), sep);
        assert(s.last() != sep) by {
            assert(s[s.len() - 1] == s.last());
        }
        assert(s.drop_last().push(s.last()) =~= s);
        assert(split(s, sep) =~= seq![s]);
    } else {
        assert(s =~= Seq::<char>::empty());
    }
}

/// Splitting undoes joining, for pieces that do not hold the separator.
pub proof fn lemma_split_join(pieces: Seq<Seq<char>>, sep: char)
    requires
        pieces.len() >= 1,
        forall|i: int| 0 <= i < pieces.len() ==> !(#[trigger] pieces[i]).contains(sep),
    ensures
        split(join(pieces, sep), sep) == pieces,
    decreases pieces.len(),
{
    if pieces.len() == 1 {
        lemma_split_single(pieces[0], sep);
        assert(pieces =~= seq![pieces[0]]);
    } else {
        let front = pieces.drop_last();
        assert forall|i: int| 0 <= i < front.len() implies !(#[trigger] front[i]).contains(sep) by {
            assert(front[i] == pieces[i]);
        }
        lemma_split_join(front, sep);
        lemma_split_after(join(front, sep), pieces.last(), sep);
        lemma_split_single(pieces[pieces.len() - 1], sep);
        assert(front + seq![pieces.last()] =~= pieces);
    }
}

/// A piece of a split holds no character that the text does not.
pub proof fn lemma_piece_chars(s: Seq<char>, sep: char, i: int)
    requires
        0 <= i < split(s, sep).len(),
    ensures
        forall|c: char| split(s, sep)[i].contains(c) ==> #[trigger] s.contains(c),
    decreases s.len(),
{
    if s.len() > 0 {
        let before = s.drop_last();
        let front = split(before, sep);
        let p = split(s, sep)[i];
        lemma_split_pieces(before, sep);
        assert forall|c: char| p.contains(c) implies #[trigger] s.contains(c) by {
            let k = choose|k: int| 0 <= k < p.len() && p[k] == c;
            if i < front.len() {
                lemma_piece_chars(before, sep, i);
                if k < front[i].len() {
                    assert(front[i][k] == c);
                    assert(front[i].contains(c));
                    assert(before.contains(c));
                    let m = choose|m: int| 0 <= m < before.len() && before[m] == c;
                    assert(s[m] == c);
                } else {
                    assert(s[s.len() - 1] == c);
                }
            }
        }
    }
}

/// Every character is a separator or stands in some piece.
pub proof fn lemma_split_covers(s: Seq<char>, sep: char, i: int)
    requires
        0 <= i < s.len(),
        s[i] != sep,
    ensures
        exists|k: int| 0 <= k < split(s, sep).len() && (#[trigger] split(s, sep)[k]).contains(s[i]),
    decreases s.len(),
{
    let front = split(s.drop_last(), sep);
    let all = split(s, sep);
    lemma_split_pieces(s.drop_last(), sep);
    if i < s.len() - 1 {
        lemma_split_covers(s.drop_last(), sep, i);
        let k = choose|k: int| 0 <= k < front.len() && (#[trigger] front[k]).contains(s[i]);
        if s.last() == sep || k < front.len() - 1 {
            assert(all[k] == front[k]);
        } else {
            let j = choose|j: int| 0 <= j < front[k].len() && front[k][j] == s[i];
            assert(all[k] == front[k].push(s.last()));
            assert(all[k][j] == s[i]);
        }
    } else {
        let k = front.len() - 1;
        assert(all[k] == front.last().push(s.last()));
        assert(all[k][front.last().len() as int] == s[i]);
    }
}

/// The pieces of `s` between occurrences of `sep`.
pub fn split_text(s: &str, sep: char) -> (r: Vec<String>)
    ensures
        texts(r@) == split(s@, sep),
{
    let v = to_chars(s);
    let mut r: Vec<String> = Vec::new();
    let mut piece = String::new();
    let mut i: usize = 0;
    proof {
        assert(v@.take(0) =~= Seq::<char>::empty());
        assert(texts(r@).push(piece@) =~= split(v@.take(0), sep));
    }
    while i < v.len()
        invariant
            v@ == s@,
            0 <= i <= v@.len(),
            texts(r@).push(piece@) == split(v@.take(i as int), sep),
        decreases v@.len() - i,
    {
        let ghost before = texts(r@).push(piece@);
        proof {
            assert(v@.take(i + 1).drop_last() =~= v@.take(i as int));
            assert(v@.take(i + 1).last() == v@[i as int]);
        }
        if v[i] == sep {
            let ghost old_r = r@;
            let ghost old_piece = piece@;
            r.push(piece);
            piece = String::new();
            proof {
                assert(texts(r@) =~= texts(old_r).push(old_piece));
                assert(texts(r@).push(piece@) =~= before.push(Seq::<char>::empty()));
            }
        } else {
            let ghost old_piece = piece@;
            piece.push(v[i]);
            proof {
                assert(before.drop_last() =~= texts(r@));
                assert(before.last() == old_piece);
                assert(texts(r@).push(piece@) =~= before.drop_last().push(before.last().push(v@[i as int])));
            }
        }
        i = i + 1;
    }
    let ghost last_r = r@;
    let ghost last_piece = piece@;
    r.push(piece);
    proof {
        assert(v@.take(v@.len() as int) =~= s@);
        assert(texts(r@) =~= texts(last_r).push(last_piece));
    }
    r
}

/// The first `count` strings with `sep` between them.
pub fn join_text(pieces: &Vec<String>, count: usize, sep: char) -> (r: String)
    requires
        count <= pieces@.len(),
    ensures
        r@ == join(texts(pieces@).take(count as int), sep),
{
    let mut r = String::new();
    let mut i: usize = 0;
    while i < count
        invariant
            0 <= i <= count <= pieces@.len(),
            r@ == join(texts(pieces@).take(i as int), sep),
        decreases count - i,
    {
        let ghost before = r@;
        if i > 0 {
            r.push(sep);
        }
        r.append(pieces[i].as_str());
        proof {
            let done = texts(pieces@).take(i + 1);
            assert(done.drop_last() =~= texts(pieces@).take(i as int));
            assert(done.last() == pieces@[i as int]@);
            if i == 0 {
                assert(r@ =~= pieces@[0]@);
            } else {
                assert(r@ =~= before.push(sep) + pieces@[i as int]@);
            }
        }
        i = i + 1;
    }
    r
}

/// The place of the first `c` in `v`, if there is one.
pub fn find_first(v: &Vec<char>, c: char) -> (r: Option<usize>)
    ensures
        match r {
            Some(i) => v@.index_of_first(c) == Some(i as int) && i < v@.len() && v@[i as int] == c,
            None => v@.index_of_first(c) is None && !v@.contains(c),
        },
{
    proof {
        v@.index_of_first_ensures(c);
    }
    let mut i: usize = 0;
    while i < v.len()
        invariant
            0 <= i <= v@.len(),
            forall|j: int| 0 <= j < i ==> v@[j] != c,
            v@.contains(c) ==> v@.index_of_first(c) is Some,
            v@.index_of_first(c) matches Some(k) ==> 0 <= k < v@.len() && v@[k] == c && forall|j: int|
                0 <= j < k ==> v@[j] != c,
            v@.index_of_first(c) is None ==> !v@.contains(c),
        decreases v@.len() - i,
    {
        if v[i] == c {
            assert(v@.contains(c));
            return Some(i);
        }
        i = i + 1;
    }
    assert(!v@.contains(c));
    None
}

/// The place of the last `c` in `v`, if there is one.
pub fn find_last(v: &Vec<char>, c: char) -> (r: Option<usize>)
    ensures
        match r {
            Some(i) => v@.index_of_last(c) == Some(i as int) && i < v@.len() && v@[i as int] == c,
            None => v@.index_of_last(c) is None && !v@.contains(c),
        },
{
    proof {
        v@.index_of_last_ensures(c);
    }
    let mut i: usize = v.len();
    while i > 0
        invariant
            0 <= i <= v@.len(),
            forall|j: int| i <= j < v@.len() ==> v@[j] != c,
            v@.contains(c) ==> v@.index_of_last(c) is Some,
            v@.index_of_last(c) matches Some(k) ==> 0 <= k < v@.len() && v@[k] == c && forall|j: int|
                k < j < v@.len() ==> v@[j] != c,
            v@.index_of_last(c) is None ==> !v@.contains(c),
        decreases i,
    {
        if v[i - 1] == c {
            assert(v@[i - 1] == c);
            assert(v@.contains(c));
            return Some(i - 1);
        }
        i = i - 1;
    }
    assert(!v@.contains(c));
    None
}

/// `s` begins with `prefix`.
pub open spec fn starts_with(s: Seq<char>, prefix: Seq<char>) -> bool {
    s.len() >= prefix.len() && s.take(prefix.len() as int) == prefix
}

/// What follows `prefix` in `s`, if `s` begins with it.
pub fn strip_prefix(s: &str, prefix: &str) -> (r: Option<String>)
    ensures
        match r {
            Some(rest) => starts_with(s@, prefix@) && rest@ == s@.skip(prefix@.len() as int),
            None => !starts_with(s@, prefix@),
        },
{
    let v = to_chars(s);
    let p = to_chars(prefix);
    if v.len() < p.len() {
        return None;
    }
    let mut i: usize = 0;
    while i < p.len()
        invariant
            v@ == s@,
            p@ == prefix@,
            0 <= i <= p@.len() <= v@.len(),
            forall|j: int| 0 <= j < i ==> v@[j] == p@[j],
        decreases p@.len() - i,
    {
        if v[i] != p[i] {
            assert(s@.take(p@.len() as int)[i as int] != prefix@[i as int]);
            return None;
        }
        i = i + 1;
    }
    assert(s@.take(p@.len() as int) =~= prefix@);
    assert(v@.subrange(p@.len() as int, v@.len() as int) =~= s@.skip(p@.len() as int));
    Some(text_range(&v, p.len(), v.len()))
}

// ---- trimming ----------------------------------------------------------------

/// `s` without the white space at its start.
pub open spec fn trim_start(s: Seq<char>) -> Seq<char>
    decreases s.len(),
{
    if s.len() > 0 && is_space(s[0]) {
        trim_start(s.drop_first())
    } else {
        s
    }
}

/// `s` without the white space at its end.
pub open spec fn trim_end(s: Seq<char>) -> Seq<char>
    decreases s.len(),
{
    if s.len() > 0 && is_space(s.last()) {
        trim_end(s.drop_last())
    } else {
        s
    }
}

/// `s` without the white space around it.
pub open spec fn trim(s: Seq<char>) -> Seq<char> {
    trim_end(trim_start(s))
}

/// Where the text of `v` from `from` up to `to` begins and ends once the white
/// space around it is left out.
pub fn trim_bounds(v: &Vec<char>, from: usize, to: usize) -> (r: (usize, usize))
    requires
        from <= to <= v@.len(),
    ensures
        from <= r.0 <= r.1 <= to,
        v@.subrange(r.0 as int, r.1 as int) == trim(v@.subrange(from as int, to as int)),
{
    let mut a: usize = from;
    while a < to && space(v[a])
        invariant
            from <= a <= to <= v@.len(),
            trim_start(v@.subrange(from as int, to as int)) == trim_start(
                v@.subrange(a as int, to as int),
            ),
        decreases to - a,
    {
        proof {
            assert(v@.subrange(a as int, to as int).drop_first() =~= v@.subrange(a + 1, to as int));
        }
        a = a + 1;
    }
    let mut b: usize = to;
    while b > a && space(v[b - 1])
        invariant
            from <= a <= b <= to <= v@.len(),
            trim_end(v@.subrange(a as int, to as int)) == trim_end(v@.subrange(a as int, b as int)),
        decreases b - a,
    {
        proof {
            assert(v@.subrange(a as int, b as int).drop_last() =~= v@.subrange(a as int, b - 1));
            assert(v@.subrange(a as int, b as int).last() == v@[b - 1]);
        }
        b = b - 1;
    }
    proof {
        let tail = v@.subrange(a as int, to as int);
        assert(trim_start(tail) == tail);
        let body = v@.subrange(a as int, b as int);
        if body.len() > 0 {
            assert(body.last() == v@[b - 1]);
        }
        assert(trim_end(body) == body);
    }
    (a, b)
}

/// The text of `v` from `from` up to `to` without the white space around it.
pub fn trim_range(v: &Vec<char>, from: usize, to: usize) -> (r: String)
    requires
        from <= to <= v@.len(),
    ensures
        r@ == trim(v@.subrange(from as int, to as int)),
{
    let (a, b) = trim_bounds(v, from, to);
    text_range(v, a, b)
}

/// `s` without the white space around it.
pub fn trim_text(s: &str) -> (r: String)
    ensures
        r@ == trim(s@),
{
    let v = to_chars(s);
    proof {
        assert(v@.subrange(0, v@.len() as int) =~= s@);
    }
    trim_range(&v, 0, v.len())
}

// ---- numbers -----------------------------------------------------------------

/// The value a decimal numeral stands for.
pub open spec fn numeral_value(s: Seq<char>) -> nat
    decreases s.len(),
{
    if s.len() == 0 {
        0
    } else {
        (numeral_value(s.drop_last()) * 10 + (s.last() as int - '0' as int)) as nat
    }
}

/// Only digits, and at least one.
pub open spec fn is_numeral(s: Seq<char>) -> bool {
    &&& s.len() > 0
    &&& forall|i: int| 0 <= i < s.len() ==> is_digit(#[trigger] s[i])
}

/// The number written in `s`: digits, with one optional `+` before them.
pub open spec fn written(s: Seq<char>) -> Option<nat> {
    let digits = if s.len() > 0 && s[0] == '+' {
        s.drop_first()
    } else {
        s
    };
    if is_numeral(digits) {
        Some(numeral_value(digits))
    } else {
        None
    }
}

/// The number written in `s`, where it is no more than `max`.
pub open spec fn number(s: Seq<char>, max: nat) -> Option<nat> {
    match written(s) {
        Some(n) => if n <= max {
            Some(n)
        } else {
            None
        },
        None => None,
    }
}

/// What is written where a number is expected.
enum Numeral {
    /// No number.
    Invalid,
    /// A number that fits.
    Fits(u64),
    /// A number that does not.
    Beyond,
}

/// Read a number, telling one that is larger than `max` from what is none.
fn read_number(s: &str, max: u64) -> (r: Numeral)
    ensures
        match r {
            Numeral::Invalid => written(s@) is None,
            Numeral::Fits(n) => written(s@) == Some(n as nat) && n <= max,
            Numeral::Beyond => written(s@) is Some && written(s@)->0 > max,
        },
{
    let v = to_chars(s);
    let start: usize = if v.len() > 0 && v[0] == '+' {
        1
    } else {
        0
    };
    let ghost digits = v@.subrange(start as int, v@.len() as int);
    proof {
        if start == 1 {
            assert(digits =~= s@.drop_first());
        } else {
            assert(digits =~= s@);
        }
    }
    if start == v.len() {
        return Numeral::Invalid;
    }
    let mut n: u64 = 0;
    let mut beyond = false;
    let mut i: usize = start;
    proof {
        assert(digits.take(0) =~= Seq::<char>::empty());
    }
    while i < v.len()
        invariant
            0 <= start <= i <= v@.len(),
            digits == v@.subrange(start as int, v@.len() as int),
            written(s@) == (if is_numeral(digits) {
                Some(numeral_value(digits))
            } else {
                None::<nat>
            }),
            !beyond ==> n == numeral_value(digits.take(i - start)) && n <= max,
            beyond ==> numeral_value(digits.take(i - start)) > max,
            forall|j: int| 0 <= j < i - start ==> is_digit(#[trigger] digits[j]),
        decreases v@.len() - i,
    {
        let c = v[i];
        proof {
            assert(digits[i - start] == c);
            assert(digits.take(i - start + 1).drop_last() =~= digits.take(i - start));
            assert(digits.take(i - start + 1).last() == c);
        }
        if c < '0' || c > '9' {
            return Numeral::Invalid;
        }
        let d: u64 = c as u64 - 48;
        proof {
            assert(numeral_value(digits.take(i - start + 1)) == numeral_value(
                digits.take(i - start),
            ) * 10 + d);
        }
        if !beyond {
            if d > max || n > (max - d) / 10 {
                beyond = true;
            } else {
                n = n * 10 + d;
            }
        }
        i = i + 1;
    }
    proof {
        assert(digits.take(v@.len() - start) =~= digits);
    }
    if beyond {
        Numeral::Beyond
    } else {
        Numeral::Fits(n)
    }
}

/// Read a number no larger than `max`.
pub fn parse_number(s: &str, max: u64) -> (r: Option<u64>)
    ensures
        match r {
            Some(n) => number(s@, max as nat) == Some(n as nat),
            None => number(s@, max as nat) is None,
        },
{
    match read_number(s, max) {
        Numeral::Fits(n) => Some(n),
        _ => None,
    }
}

/// Read a number of any size, one larger than `max` as `max`: only what is no
/// number is refused.
pub fn clamped_number(s: &str, max: u64) -> (r: Option<u64>)
    ensures
        match r {
            Some(n) => written(s@) is Some && n as nat == (if written(s@)->0 <= max {
                written(s@)->0
            } else {
                max as nat
            }),
            None => written(s@) is None,
        },
{
    match read_number(s, max) {
        Numeral::Fits(n) => Some(n),
        Numeral::Beyond => Some(max),
        Numeral::Invalid => None,
    }
}

/// `s` sorts before `t`: up to some place they agree, and there `s` ends or has
/// the smaller character.
pub open spec fn sorts_before(s: Seq<char>, t: Seq<char>) -> bool {
    exists|i: int|
        0 <= i <= s.len() && i < t.len() && #[trigger] s.take(i) == t.take(i) && (i == s.len()
            || (s[i] as u32) < (t[i] as u32))
}

/// No text sorts before itself.
pub proof fn lemma_sorts_before_itself(s: Seq<char>)
    ensures
        !sorts_before(s, s),
{
}

/// The decimal digit of `d`.
pub open spec fn digit_char(d: nat) -> char {
    (('0' as u32 + d) as u32) as char
}

/// `n` in decimal, without leading zeros.
pub open spec fn decimal(n: nat) -> Seq<char>
    decreases n,
{
    if n < 10 {
        seq![digit_char(n)]
    } else {
        decimal(n / 10).push(digit_char(n % 10))
    }
}

/// The character of a decimal digit.
pub fn digit(d: u8) -> (c: char)
    requires
        d < 10,
    ensures
        c == digit_char(d as nat),
        is_digit(c),
{
    (48 + d) as char
}

/// `n` in decimal.
pub fn decimal_text(n: u64) -> (r: String)
    ensures
        r@ == decimal(n as nat),
    decreases n,
{
    if n < 10 {
        let mut r = String::new();
        r.push(digit(n as u8));
        assert(r@ =~= seq![digit_char(n as nat)]);
        r
    } else {
        let mut r = decimal_text(n / 10);
        r.push(digit((n % 10) as u8));
        r
    }
}

/// Reading a number that was written in decimal gives the number back.
pub proof fn lemma_number_of_decimal(n: nat)
    ensures
        is_numeral(decimal(n)),
        numeral_value(decimal(n)) == n,
        written(decimal(n)) == Some(n),
    decreases n,
{
    let s = decimal(n);
    if n >= 10 {
        lemma_number_of_decimal(n / 10);
        let front = decimal(n / 10);
        assert(s.drop_last() =~= front);
        assert forall|i: int| 0 <= i < s.len() implies is_digit(#[trigger] s[i]) by {
            if i < front.len() {
                assert(is_digit(front[i]));
            }
        }
    } else {
        assert(s.drop_last() =~= Seq::<char>::empty());
        assert(numeral_value(s.drop_last()) == 0);
    }
    assert(is_digit(s[0]));
}

/// A numeral stands for the number that its digits make: one more digit behind it
/// makes it ten times as much and that digit.
pub proof fn law_numerals_count_in_tens(s: Seq<char>, c: char)
    ensures
        is_digit(c) ==> numeral_value(s.push(c)) == numeral_value(s) * 10 + (c as int - '0' as int),
        is_digit(c) ==> numeral_value(seq![c]) == c as int - '0' as int,
        numeral_value(Seq::empty()) == 0,
{
    assert(s.push(c).drop_last() =~= s);
    assert(seq![c].drop_last() =~= Seq::<char>::empty());
    assert(numeral_value(seq![c].drop_last()) == 0);
}

/// A number is written in digits, at least one of them, with or without one `+`
/// before them, and in no other way.
pub proof fn law_numbers_are_written_in_digits(s: Seq<char>, max: nat)
    ensures
        s.len() > 0 && (forall|i: int| 0 <= i < s.len() ==> '0' <= #[trigger] s[i] && s[i] <= '9')
            ==> written(s) == Some(numeral_value(s)) && written(seq!['+'] + s) == Some(
            numeral_value(s),
        ),
        written(s) is Some ==> {
            let digits = if s[0] == '+' {
                s.drop_first()
            } else {
                s
            };
            &&& digits.len() > 0
            &&& forall|i: int| 0 <= i < digits.len() ==> '0' <= #[trigger] digits[i] && digits[i] <= '9'
            &&& written(s) == Some(numeral_value(digits))
        },
        number(s, max) is Some <==> written(s) is Some && written(s)->0 <= max,
        number(s, max) is Some ==> number(s, max) == written(s),
{
    assert((seq!['+'] + s).drop_first() =~= s);
}

/// Lower-casing changes the ASCII capitals and nothing else, and does it once.
pub proof fn law_lower_case(s: Seq<char>)
    ensures
        lower(s).len() == s.len(),
        forall|i: int|
            0 <= i < s.len() ==> if 'A' <= s[i] && s[i] <= 'Z' {
                #[trigger] lower(s)[i] as u32 == s[i] as u32 + 32
            } else {
                lower(s)[i] == s[i]
            },
        lower(lower(s)) == lower(s),
{
    assert(lower(lower(s)) =~= lower(s));
}

/// Trimming takes white space from both ends and nothing else: what is left begins
/// and ends with something, or is nothing.
pub proof fn law_trimming_takes_white_space_alone(s: Seq<char>)
    ensures
        trim(s).len() > 0 ==> !is_space(trim(s)[0]) && !is_space(trim(s).last()),
        exists|a: int, b: int|
            0 <= a <= b <= s.len() && trim(s) == #[trigger] s.subrange(a, b) && (forall|i: int|
                0 <= i < a ==> is_space(#[trigger] s[i])) && (forall|i: int|
                b <= i < s.len() ==> is_space(#[trigger] s[i])),
{
    let t = trim_start(s);
    let a = lemma_trim_start(s);
    let n = lemma_trim_end(t);
    let r = trim(s);
    assert(s.skip(a).take(n) =~= s.subrange(a, a + n));
    assert forall|i: int| a + n <= i < s.len() implies is_space(#[trigger] s[i]) by {
        assert(is_space(t[i - a]));
    }
    if r.len() > 0 {
        assert(r[0] == t[0]);
    }
}

proof fn lemma_trim_start(s: Seq<char>) -> (a: int)
    ensures
        0 <= a <= s.len(),
        trim_start(s) == s.skip(a),
        forall|i: int| 0 <= i < a ==> is_space(#[trigger] s[i]),
        a < s.len() ==> !is_space(s[a]),
    decreases s.len(),
{
    if s.len() > 0 && is_space(s[0]) {
        let b = lemma_trim_start(s.drop_first());
        assert(s.drop_first().skip(b) =~= s.skip(b + 1));
        assert forall|i: int| 0 <= i < b + 1 implies is_space(#[trigger] s[i]) by {
            if i > 0 {
                assert(is_space(s.drop_first()[i - 1]));
            }
        }
        b + 1
    } else {
        assert(s.skip(0) =~= s);
        0
    }
}

proof fn lemma_trim_end(s: Seq<char>) -> (n: int)
    ensures
        0 <= n <= s.len(),
        trim_end(s) == s.take(n),
        forall|i: int| n <= i < s.len() ==> is_space(#[trigger] s[i]),
        n > 0 ==> !is_space(s[n - 1]),
    decreases s.len(),
{
    if s.len() > 0 && is_space(s.last()) {
        let n = lemma_trim_end(s.drop_last());
        assert(s.drop_last().take(n) =~= s.take(n));
        assert forall|i: int| n <= i < s.len() implies is_space(#[trigger] s[i]) by {
            if i < s.len() - 1 {
                assert(is_space(s.drop_last()[i]));
            }
        }
        n
    } else {
        assert(s.take(s.len() as int) =~= s);
        s.len() as int
    }
}

/// A number is written without leading zeros.
pub proof fn law_no_leading_zeros(n: nat)
    ensures
        decimal(n).len() > 0,
        n > 0 ==> decimal(n)[0] != '0',
        n == 0 ==> decimal(n) == seq!['0'],
    decreases n,
{
    if n >= 10 {
        law_no_leading_zeros(n / 10);
        assert(decimal(n)[0] == decimal(n / 10)[0]);
    }
}

} // verus!
