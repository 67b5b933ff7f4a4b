//! Methods, headers and replies, as the rest of the crate speaks of them.

use axum::http::HeaderMap;
use vstd::prelude::*;

use crate::text;

verus! {

// ---- methods -----------------------------------------------------------------

/// A request method.
#[derive(Debug, Clone, PartialEq, Eq)]
pub enum Method {
    Get,
    Head,
    Options,
    Put,
    Post,
    Patch,
    Delete,
    /// Any other token, spelled as it was sent.
    Other(String),
}

/// A request method, the token as characters.
pub enum MethodView {
    Get,
    Head,
    Options,
    Put,
    Post,
    Patch,
    Delete,
    Other(Seq<char>),
}

impl View for Method {
    type V = MethodView;

    open spec fn view(&self) -> MethodView {
        match self {
            Method::Get => MethodView::Get,
            Method::Head => MethodView::Head,
            Method::Options => MethodView::Options,
            Method::Put => MethodView::Put,
            Method::Post => MethodView::Post,
            Method::Patch => MethodView::Patch,
            Method::Delete => MethodView::Delete,
            Method::Other(token) => MethodView::Other(token@),
        }
    }
}

/// The method a token names. A method's name is case-sensitive.
pub open spec fn method_named(token: Seq<char>) -> MethodView {
    if token == "GET"@ {
        MethodView::Get
    } else if token == "HEAD"@ {
        MethodView::Head
    } else if token == "OPTIONS"@ {
        MethodView::Options
    } else if token == "PUT"@ {
        MethodView::Put
    } else if token == "POST"@ {
        MethodView::Post
    } else if token == "PATCH"@ {
        MethodView::Patch
    } else if token == "DELETE"@ {
        MethodView::Delete
    } else {
        MethodView::Other(token)
    }
}

impl Method {
    /// The method a token names.
    pub fn from_token(token: &str) -> (r: Method)
        ensures
            r@ == method_named(token@),
    {
        if text::same(token, "GET") {
            Method::Get
        } else if text::same(token, "HEAD") {
            Method::Head
        } else if text::same(token, "OPTIONS") {
            Method::Options
        } else if text::same(token, "PUT") {
            Method::Put
        } else if text::same(token, "POST") {
            Method::Post
        } else if text::same(token, "PATCH") {
            Method::Patch
        } else if text::same(token, "DELETE") {
            Method::Delete
        } else {
            Method::Other(text::copy(token))
        }
    }
}

// ---- request headers ---------------------------------------------------------

/// The header map of the `http` crate.
#[verifier::external_type_specification]
#[verifier::external_body]
#[verifier::reject_recursive_types(T)]
pub struct ExHeaderMap<T>(axum::http::HeaderMap<T>);

/// A header value of the `http` crate.
#[verifier::external_type_specification]
#[verifier::external_body]
pub struct ExHeaderValue(axum::http::HeaderValue);

/// What a header map holds: under each name, in lower case, the bytes of the
/// first value.
pub uninterp spec fn header_values(headers: HeaderMap) -> Map<Seq<char>, Seq<u8>>;

/// The bytes of an optional header value.
pub open spec fn opt_bytes(o: Option<Vec<u8>>) -> Option<Seq<u8>> {
    match o {
        Some(v) => Some(v@),
        None => None,
    }
}

/// `HeaderMap::get` and `HeaderValue::as_bytes` of the `http` crate: the bytes
/// of the first value under `name`, whose letters' case does not matter, or
/// nothing where there is none. A name that no header can have finds nothing.
#[verifier::external_body]
pub(crate) fn header_value(headers: &HeaderMap, name: &str) -> (r: Option<Vec<u8>>)
    ensures
        opt_bytes(r) == header_values(*headers).get(text::lower(name@)),
{
    headers.get(name).map(|value| value.as_bytes().to_vec())
}

/// A byte of printable ASCII, a space or a tab.
pub open spec fn is_visible(b: u8) -> bool {
    (0x20 <= b && b < 0x7f) || b == 0x09
}

/// The text of a header value, if every byte of it is visible ASCII.
pub open spec fn header_text(bytes: Seq<u8>) -> Option<Seq<char>> {
    if forall|i: int| 0 <= i < bytes.len() ==> is_visible(#[trigger] bytes[i]) {
        Some(bytes.map_values(|b: u8| b as char))
    } else {
        None
    }
}

/// The text of a header value, if every byte of it is visible ASCII.
pub fn to_str(bytes: &Vec<u8>) -> (r: Option<String>)
    ensures
        text::opt_text(r) == header_text(bytes@),
{
    let mut s = String::new();
    let mut i: usize = 0;
    while i < bytes.len()
        invariant
            0 <= i <= bytes@.len(),
            forall|j: int| 0 <= j < i ==> is_visible(#[trigger] bytes@[j]),
            s@ == bytes@.take(i as int).map_values(|b: u8| b as char),
        decreases bytes@.len() - i,
    {
        let b = bytes[i];
        if !((0x20 <= b && b < 0x7f) || b == 0x09) {
            return None;
        }
        s.push(b as char);
        i = i + 1;
        assert(s@ =~= bytes@.take(i as int).map_values(|b: u8| b as char));
    }
    assert(bytes@.take(bytes@.len() as int) =~= bytes@);
    Some(s)
}

// ---- replies -----------------------------------------------------------------

/// A response: its status, its headers and its body.
#[derive(Debug, Clone, PartialEq, Eq)]
pub struct Reply {
    pub status: u16,
    pub headers: Vec<(String, String)>,
    pub body: Vec<u8>,
}

/// A response, its headers as characters.
pub struct ReplyView {
    pub status: u16,
    pub headers: Seq<(Seq<char>, Seq<char>)>,
    pub body: Seq<u8>,
}

/// The views of a list of headers.
pub open spec fn header_list(v: Seq<(String, String)>) -> Seq<(Seq<char>, Seq<char>)> {
    v.map_values(|p: (String, String)| (p.0@, p.1@))
}

impl View for Reply {
    type V = ReplyView;

    open spec fn view(&self) -> ReplyView {
        ReplyView { status: self.status, headers: header_list(self.headers@), body: self.body@ }
    }
}

/// `headers` with the one value under `name` taking the place of any it had.
pub open spec fn insert_header(
    headers: Seq<(Seq<char>, Seq<char>)>,
    name: Seq<char>,
    value: Seq<char>,
) -> Seq<(Seq<char>, Seq<char>)> {
    headers.filter(|h: (Seq<char>, Seq<char>)| h.0 != name).push((name, value))
}

/// `headers` with each of `extra` inserted in turn.
pub open spec fn insert_all(
    headers: Seq<(Seq<char>, Seq<char>)>,
    extra: Seq<(Seq<char>, Seq<char>)>,
) -> Seq<(Seq<char>, Seq<char>)>
    decreases extra.len(),
{
    if extra.len() == 0 {
        headers
    } else {
        insert_header(insert_all(headers, extra.drop_last()), extra.last().0, extra.last().1)
    }
}

/// A header, from literals or other text.
pub fn header(name: &str, value: &str) -> (r: (String, String))
    ensures
        r.0@ == name@,
        r.1@ == value@,
{
    (text::copy(name), text::copy(value))
}

/// Put `name: value` in the place of any `name` that `headers` holds.
fn insert(headers: Vec<(String, String)>, name: &str, value: &str) -> (r: Vec<(String, String)>)
    ensures
        header_list(r@) == insert_header(header_list(headers@), name@, value@),
{
    let ghost keep = |h: (Seq<char>, Seq<char>)| h.0 != name@;
    let mut r: Vec<(String, String)> = Vec::new();
    let mut i: usize = 0;
    proof {
        assert(header_list(headers@).take(0) =~= Seq::empty());
        assert(header_list(r@) =~= header_list(headers@).take(0).filter(keep));
    }
    while i < headers.len()
        invariant
            0 <= i <= headers@.len(),
            keep == (|h: (Seq<char>, Seq<char>)| h.0 != name@),
            header_list(r@) == header_list(headers@).take(i as int).filter(keep),
        decreases headers@.len() - i,
    {
        let ghost before = header_list(r@);
        let ghost all = header_list(headers@);
        proof {
            reveal(Seq::filter);
            assert(all.take(i + 1).drop_last() =~= all.take(i as int));
            assert(all.take(i + 1).last() == (headers@[i as int].0@, headers@[i as int].1@));
        }
        if !text::same(headers[i].0.as_str(), name) {
            r.push(header(headers[i].0.as_str(), headers[i].1.as_str()));
            proof {
                assert(header_list(r@) =~= before.push(all[i as int]));
            }
        }
        i = i + 1;
    }
    proof {
        assert(header_list(headers@).take(headers@.len() as int) =~= header_list(headers@));
    }
    let ghost kept = header_list(r@);
    r.push(header(name, value));
    proof {
        assert(header_list(r@) =~= kept.push((name@, value@)));
    }
    r
}

/// Insert each of `extra` into `headers`, in order.
pub fn with_headers(headers: Vec<(String, String)>, extra: &Vec<(String, String)>) -> (r: Vec<
    (String, String),
>)
    ensures
        header_list(r@) == insert_all(header_list(headers@), header_list(extra@)),
{
    let ghost start = header_list(headers@);
    let mut r = headers;
    let mut i: usize = 0;
    while i < extra.len()
        invariant
            0 <= i <= extra@.len(),
            header_list(r@) == insert_all(start, header_list(extra@).take(i as int)),
        decreases extra@.len() - i,
    {
        r = insert(r, extra[i].0.as_str(), extra[i].1.as_str());
        proof {
            let all = header_list(extra@);
            assert(all.take(i + 1).drop_last() =~= all.take(i as int));
            assert(all.take(i + 1).last() == (extra@[i as int].0@, extra@[i as int].1@));
        }
        i = i + 1;
    }
    proof {
        assert(header_list(extra@).take(extra@.len() as int) =~= header_list(extra@));
    }
    r
}

/// Inserting into one header more keeps that header, unless it has the name that is
/// inserted.
proof fn lemma_insert_one_more(
    headers: Seq<(Seq<char>, Seq<char>)>,
    name: Seq<char>,
    value: Seq<char>,
)
    requires
        headers.len() > 0,
    ensures
        ({
            let before = insert_header(headers.drop_last(), name, value).drop_last();
            let kept = if headers.last().0 != name {
                before.push(headers.last())
            } else {
                before
            };
            insert_header(headers, name, value) == kept.push((name, value))
        }),
{
    reveal(Seq::filter);
    let front = insert_header(headers.drop_last(), name, value);
    let all = insert_header(headers, name, value);
    assert(front.last() == (name, value));
    if headers.last().0 != name {
        assert(all =~= front.drop_last().push(headers.last()).push((name, value)));
    } else {
        assert(all =~= front.drop_last().push((name, value)));
    }
}

/// A header that is inserted is there once, with the value it was inserted with,
/// and every other header stays as it was.
pub proof fn law_inserted_header_replaces_its_own(
    headers: Seq<(Seq<char>, Seq<char>)>,
    name: Seq<char>,
    value: Seq<char>,
    other: (Seq<char>, Seq<char>),
)
    ensures
        insert_header(headers, name, value).len() > 0,
        insert_header(headers, name, value).last() == (name, value),
        other.0 == name ==> !insert_header(headers, name, value).drop_last().contains(other),
        other.0 != name ==> (insert_header(headers, name, value).contains(other)
            <==> headers.contains(other)),
    decreases headers.len(),
{
    let all = insert_header(headers, name, value);
    if headers.len() == 0 {
        reveal(Seq::filter);
        assert(all =~= seq![(name, value)]);
        assert(all.drop_last() =~= Seq::empty());
        assert(other.0 != name && all.contains(other) ==> other == (name, value));
    } else {
        let front = headers.drop_last();
        let before = insert_header(front, name, value);
        law_inserted_header_replaces_its_own(front, name, value, other);
        lemma_insert_one_more(headers, name, value);
        let kept = all.drop_last();
        assert(kept =~= if headers.last().0 != name {
            before.drop_last().push(headers.last())
        } else {
            before.drop_last()
        });
        if kept.contains(other) {
            let i = choose|i: int| 0 <= i < kept.len() && kept[i] == other;
            if i < before.len() - 1 {
                assert(before.drop_last()[i] == other);
                assert(before[i] == other);
                let k = choose|k: int| 0 <= k < front.len() && front[k] == other;
                assert(other.0 != name ==> headers[k] == other);
            } else {
                assert(other == headers.last());
                assert(headers[headers.len() - 1] == other);
            }
        }
        if other.0 != name && headers.contains(other) {
            let i = choose|i: int| 0 <= i < headers.len() && headers[i] == other;
            if i < front.len() {
                assert(front[i] == other);
                let k = choose|k: int| 0 <= k < before.len() && before[k] == other;
                assert(k < before.len() - 1);
                assert(all[k] == other);
            } else {
                assert(all[before.len() - 1] == other);
            }
        }
        if other.0 != name && all.contains(other) {
            let i = choose|i: int| 0 <= i < all.len() && all[i] == other;
            assert(i < all.len() - 1);
            assert(kept[i] == other);
        }
    }
}

/// A header that is inserted among others is there, unless one of the same name
/// comes behind it.
pub proof fn law_inserted_headers_are_there(
    headers: Seq<(Seq<char>, Seq<char>)>,
    extra: Seq<(Seq<char>, Seq<char>)>,
    i: int,
)
    requires
        0 <= i < extra.len(),
        forall|j: int| i < j < extra.len() ==> (#[trigger] extra[j]).0 != extra[i].0,
    ensures
        insert_all(headers, extra).contains(extra[i]),
    decreases extra.len(),
{
    let last = extra.last();
    let before = insert_all(headers, extra.drop_last());
    law_inserted_header_replaces_its_own(before, last.0, last.1, extra[i]);
    if i < extra.len() - 1 {
        let front = extra.drop_last();
        assert(extra[extra.len() - 1].0 != extra[i].0);
        assert forall|j: int| i < j < front.len() implies (#[trigger] front[j]).0 != front[i].0 by {
            assert(front[j] == extra[j]);
        }
        law_inserted_headers_are_there(headers, front, i);
        assert(front[i] == extra[i]);
    } else {
        assert(extra[i] == last);
        let all = insert_all(headers, extra);
        assert(all[all.len() - 1] == extra[i]);
    }
}

/// A method is what its name says, in capitals, and any other token is itself.
pub proof fn law_methods_are_named(token: Seq<char>)
    ensures
        method_named("GET"@) is Get,
        method_named("HEAD"@) is Head,
        method_named("OPTIONS"@) is Options,
        method_named("PUT"@) is Put,
        method_named("POST"@) is Post,
        method_named("PATCH"@) is Patch,
        method_named("DELETE"@) is Delete,
        method_named(token) matches MethodView::Other(t) ==> t == token,
        method_named(token) is Get ==> token == "GET"@,
        method_named(token) is Head ==> token == "HEAD"@,
        method_named(token) is Options ==> token == "OPTIONS"@,
        method_named(token) is Put ==> token == "PUT"@,
        method_named(token) is Post ==> token == "POST"@,
        method_named(token) is Patch ==> token == "PATCH"@,
        method_named(token) is Delete ==> token == "DELETE"@,
{
    reveal_strlit("GET");
    reveal_strlit("HEAD");
    reveal_strlit("OPTIONS");
    reveal_strlit("PUT");
    reveal_strlit("POST");
    reveal_strlit("PATCH");
    reveal_strlit("DELETE");
    assert("GET"@[0] == 'G' && "PUT"@[0] == 'P' && "HEAD"@[0] == 'H' && "POST"@[0] == 'P');
    assert("GET"@.len() == 3 && "PUT"@.len() == 3 && "HEAD"@.len() == 4 && "POST"@.len() == 4);
    assert("PATCH"@.len() == 5 && "DELETE"@.len() == 6 && "OPTIONS"@.len() == 7);
}

/// A header value is text exactly where every byte of it is visible ASCII, and the
/// text says what the bytes say.
pub proof fn law_header_text_says_what_its_bytes_say(bytes: Seq<u8>)
    ensures
        header_text(bytes) is Some <==> forall|i: int|
            0 <= i < bytes.len() ==> (0x20 <= #[trigger] bytes[i] <= 0x7e || bytes[i] == 0x09),
        header_text(bytes) matches Some(s) ==> s.len() == bytes.len() && forall|i: int|
            0 <= i < bytes.len() ==> #[trigger] s[i] as u32 == bytes[i] as u32,
{
    assert((forall|i: int| 0 <= i < bytes.len() ==> is_visible(#[trigger] bytes[i])) <==> (forall|
        i: int,
    |
        0 <= i < bytes.len() ==> (0x20 <= #[trigger] bytes[i] <= 0x7e || bytes[i] == 0x09))) by {
        assert(forall|i: int|
            #![trigger bytes[i]]
            is_visible(bytes[i]) <==> (0x20 <= bytes[i] <= 0x7e || bytes[i] == 0x09));
    }
}

} // verus!
