//! `?n=`, `?last=` and the `Link` to the next page.

use vstd::prelude::*;
use vstd::string::*;

use crate::config::ServerConfig;
use crate::error::{ApiError, ApiErrorView, ErrorCode};
use crate::query;
use crate::text;

verus! {

/// The page a request asks for.
#[derive(Debug)]
pub struct PageParams {
    pub limit: usize,
    pub last: Option<String>,
    /// `?n=0`: an explicit request for nothing, which carries no `Link`.
    pub explicit_zero: bool,
}

/// The page a request asks for, its cursor as characters.
pub struct PageView {
    pub limit: int,
    pub last: Option<Seq<char>>,
    pub explicit_zero: bool,
}

impl View for PageParams {
    type V = PageView;

    open spec fn view(&self) -> PageView {
        PageView {
            limit: self.limit as int,
            last: text::opt_text(self.last),
            explicit_zero: self.explicit_zero,
        }
    }
}

/// A parameter that is there and not empty.
pub open spec fn present(value: Option<Seq<char>>) -> Option<Seq<char>> {
    match value {
        Some(v) => if v.len() > 0 {
            Some(v)
        } else {
            None
        },
        None => None,
    }
}

/// The error for a page size that is no number.
pub open spec fn bad_page_size(raw: Seq<char>) -> ApiErrorView {
    ApiErrorView::of(ErrorCode::PaginationNumberInvalid).detail("n="@ + raw)
}

/// The page that a request's parameters ask for: the default size without
/// `?n=`, and never more than the ceiling with it.
pub open spec fn page_of(
    params: Seq<(Seq<char>, Seq<char>)>,
    default_size: int,
    max_size: int,
) -> Result<PageView, ApiErrorView> {
    let last = present(query::value_of(params, "last"@));
    match query::value_of(params, "n"@) {
        None => Ok(PageView { limit: default_size, last, explicit_zero: false }),
        Some(raw) => match text::written(raw) {
            None => Err(bad_page_size(raw)),
            Some(n) => Ok(
                PageView {
                    limit: if n <= max_size {
                        n as int
                    } else {
                        max_size
                    },
                    last,
                    explicit_zero: n == 0,
                },
            ),
        },
    }
}

/// A parameter's value, where it is there and not empty.
pub fn present_param<'a>(pairs: &'a Vec<(String, String)>, key: &str) -> (r: Option<&'a str>)
    ensures
        match r {
            Some(v) => present(query::value_of(query::pair_texts(pairs@), key@)) == Some(v@),
            None => present(query::value_of(query::pair_texts(pairs@), key@)) is None,
        },
{
    match query::first(pairs, key) {
        Some(v) => if v.is_empty() {
            None
        } else {
            Some(v)
        },
        None => None,
    }
}

/// The page that a request's parameters ask for.
pub fn parse(pairs: &Vec<(String, String)>, config: &ServerConfig) -> (r: Result<
    PageParams,
    ApiError,
>)
    ensures
        match r {
            Ok(p) => page_of(
                query::pair_texts(pairs@),
                config.default_page_size as int,
                config.max_page_size as int,
            ) == Ok::<PageView, ApiErrorView>(p@),
            Err(e) => page_of(
                query::pair_texts(pairs@),
                config.default_page_size as int,
                config.max_page_size as int,
            ) == Err::<PageView, ApiErrorView>(e@),
        },
{
    let last: Option<String> = match present_param(pairs, "last") {
        Some(v) => Some(text::copy(v)),
        None => None,
    };
    match query::first(pairs, "n") {
        None => Ok(PageParams { limit: config.default_page_size, last, explicit_zero: false }),
        Some(raw) => match text::clamped_number(raw, usize::MAX as u64) {
            Some(n) => {
                let n: usize = n as usize;
                let limit: usize = if n <= config.max_page_size {
                    n
                } else {
                    config.max_page_size
                };
                Ok(PageParams { limit, last, explicit_zero: n == 0 })
            },
            None => {
                let mut detail = text::copy("n=");
                detail.append(raw);
                Err(
                    ApiError::new(ErrorCode::PaginationNumberInvalid).with_text(detail.as_str()),
                )
            },
        },
    }
}

/// A page holds as many rows as `?n=` asks for, up to the ceiling, or the default
/// number without it; it begins behind `?last=`, where that is there and not empty;
/// asking for nothing is marked as such; and only a `?n=` that is no number is
/// refused.
pub proof fn law_page_is_what_was_asked_for(
    params: Seq<(Seq<char>, Seq<char>)>,
    default_size: int,
    max_size: int,
)
    ensures
        ({
            let size = query::value_of(params, "n"@);
            let cursor = query::value_of(params, "last"@);
            match page_of(params, default_size, max_size) {
                Ok(page) => {
                    &&& size is None ==> page.limit == default_size && !page.explicit_zero
                    &&& size is Some ==> {
                        &&& text::written(size->0) is Some
                        &&& text::written(size->0)->0 <= max_size ==> page.limit == text::written(
                            size->0,
                        )->0
                        &&& text::written(size->0)->0 > max_size ==> page.limit == max_size
                        &&& page.explicit_zero <==> text::written(size->0)->0 == 0
                    }
                    &&& page.last is Some <==> cursor is Some && cursor->0.len() > 0
                    &&& page.last is Some ==> page.last == cursor
                },
                Err(e) => {
                    &&& size is Some && text::written(size->0) is None
                    &&& e.status == 400
                    &&& e.code == ErrorCode::PaginationNumberInvalid
                    &&& e.detail == Some(crate::json::Json::Text("n="@ + size->0))
                },
            }
        }),
{
}

/// The query of the next page of a referrers listing.
pub open spec fn next_query(
    artifact_type: Option<Seq<char>>,
    last: Seq<char>,
    limit: nat,
) -> Seq<char> {
    let page = "n="@ + text::decimal(limit) + "&last="@ + query::encoded(last);
    match artifact_type {
        Some(t) => page + "&artifactType="@ + query::encoded(t),
        None => page,
    }
}

/// The `Link` to the next page of a referrers listing.
pub open spec fn next_link(
    path: Seq<char>,
    artifact_type: Option<Seq<char>>,
    last: Seq<char>,
    limit: nat,
) -> Seq<char> {
    "<"@ + path + "?"@ + next_query(artifact_type, last, limit) + ">; rel=\"next\""@
}

/// The `Link` to the next page of a referrers listing, filter and all.
pub fn link_next_referrers(
    path: &str,
    artifact_type: Option<&str>,
    last: &str,
    limit: usize,
) -> (r: String)
    ensures
        r@ == next_link(
            path@,
            match artifact_type {
                Some(t) => Some(t@),
                None => None,
            },
            last@,
            limit as nat,
        ),
{
    let mut r = text::copy("<");
    r.append(path);
    r.append("?");
    let mut q = text::copy("n=");
    q.append(text::decimal_text(limit as u64).as_str());
    q.append("&last=");
    q.append(query::percent_encode(last).as_str());
    match artifact_type {
        Some(t) => {
            q.append("&artifactType=");
            q.append(query::percent_encode(t).as_str());
        },
        None => (),
    }
    r.append(q.as_str());
    r.append(">; rel=\"next\"");
    r
}

/// One parameter, written plainly or encoded, reads as it was meant.
proof fn lemma_pair(name: Seq<char>, value: Seq<char>, raw: Seq<char>)
    requires
        vstd::utf8::is_ascii_chars(name),
        forall|i: int| 0 <= i < name.len() ==> name[i] != '=' && name[i] != '%' && name[i] != '+',
        !raw.contains('+'),
        query::decoded(raw) == value,
    ensures
        query::pair_of(name + seq!['='] + raw) == (name, value),
{
    let s = name + seq!['='] + raw;
    s.index_of_first_ensures('=');
    let at = name.len() as int;
    assert(s[at] == '=');
    assert(s.contains('='));
    let i = s.index_of_first('=')->0;
    assert(i == at) by {
        if i < at {
            assert(s[i] == name[i]);
        }
    }
    assert(s.take(at) =~= name);
    assert(s.skip(at + 1) =~= raw);
    assert(query::plus_as_space(name) =~= name);
    assert forall|k: int| 0 <= k < raw.len() implies raw[k] != '+' by {
        assert(raw.contains(raw[k]));
    }
    assert(query::plus_as_space(raw) =~= raw);
    query::lemma_decoded_plain(name);
}

/// Following the link asks for the same filter, from where this page ended,
/// with the same page size.
pub proof fn law_link_carries_the_query(
    artifact_type: Option<Seq<char>>,
    last: Seq<char>,
    limit: nat,
)
    ensures
        ({
            let params = query::pairs_of(text::split(next_query(artifact_type, last, limit), '&'));
            &&& query::value_of(params, "n"@) == Some(text::decimal(limit))
            &&& query::value_of(params, "last"@) == Some(last)
            &&& query::value_of(params, "artifactType"@) == artifact_type
        }),
{
    reveal_strlit("n");
    reveal_strlit("last");
    reveal_strlit("artifactType");
    reveal_strlit("n=");
    reveal_strlit("&last=");
    reveal_strlit("&artifactType=");
    let number = text::decimal(limit);
    text::lemma_number_of_decimal(limit);
    assert forall|i: int| 0 <= i < number.len() implies '0' <= #[trigger] number[i] && number[i] <= '9' by {
        assert(text::is_digit(number[i]));
    }
    query::lemma_decoded_plain(number);
    query::lemma_decoded_of_encoded(last);
    query::lemma_encoded_is_one_segment(last);
    query::lemma_encoded_has_no_delimiter(last);
    let a = "n="@ + number;
    let b = "last"@ + seq!['='] + query::encoded(last);
    assert(a =~= "n"@ + seq!['='] + number);
    lemma_pair("n"@, number, number);
    lemma_pair("last"@, last, query::encoded(last));
    lemma_no_amp("n"@, number);
    lemma_no_amp("last"@, query::encoded(last));
    let page = a.push('&') + b;
    assert("n="@ + number + "&last="@ + query::encoded(last) =~= page);
    text::lemma_split_after(a, b, '&');
    text::lemma_split_single(a, '&');
    text::lemma_split_single(b, '&');
    assert(text::split(page, '&') =~= seq![a, b]);
    let two = seq![a, b];
    assert(two.drop_last() =~= seq![a]);
    assert(seq![a].drop_last() =~= Seq::<Seq<char>>::empty());
    assert(query::pairs_of(seq![a].drop_last()) =~= Seq::empty());
    assert(query::pairs_of(seq![a]) =~= seq![("n"@, number)]);
    assert(query::pairs_of(two) =~= seq![("n"@, number), ("last"@, last)]);
    assert("n"@.len() != "last"@.len());
    match artifact_type {
        None => {
            let params = query::pairs_of(two);
            lemma_values(params);
            assert(params.drop_first() =~= seq![("last"@, last)]);
            lemma_values(params.drop_first());
            assert(params.drop_first().drop_first() =~= Seq::empty());
        },
        Some(t) => {
            query::lemma_decoded_of_encoded(t);
            query::lemma_encoded_has_no_delimiter(t);
            let c = "artifactType"@ + seq!['='] + query::encoded(t);
            lemma_pair("artifactType"@, t, query::encoded(t));
            lemma_no_amp("artifactType"@, query::encoded(t));
            assert(page + "&artifactType="@ + query::encoded(t) =~= page.push('&') + c);
            text::lemma_split_after(page, c, '&');
            text::lemma_split_single(c, '&');
            let three = seq![a, b, c];
            assert(text::split(page.push('&') + c, '&') =~= three);
            assert(three.drop_last() =~= two);
            let params = query::pairs_of(three);
            assert(params =~= seq![("n"@, number), ("last"@, last), ("artifactType"@, t)]);
            lemma_values(params);
            assert(params.drop_first() =~= seq![("last"@, last), ("artifactType"@, t)]);
            lemma_values(params.drop_first());
            assert(params.drop_first().drop_first() =~= seq![("artifactType"@, t)]);
        },
    }
}

/// A parameter without an ampersand in its value holds none.
proof fn lemma_no_amp(name: Seq<char>, raw: Seq<char>)
    requires
        !name.contains('&'),
        !raw.contains('&'),
    ensures
        !(name + seq!['='] + raw).contains('&'),
{
    let s = name + seq!['='] + raw;
    assert forall|i: int| 0 <= i < s.len() implies s[i] != '&' by {
        if i < name.len() {
            assert(s[i] == name[i]);
            assert(name.contains(name[i]));
        } else if i > name.len() {
            assert(s[i] == raw[i - name.len() - 1]);
            assert(raw.contains(raw[i - name.len() - 1]));
        }
    }
}

/// A value is that of the first pair, or of the rest.
proof fn lemma_values(params: Seq<(Seq<char>, Seq<char>)>)
    requires
        params.len() > 0,
    ensures
        forall|key: Seq<char>| #[trigger] query::value_of(params, key) == (if params[0].0 == key {
            Some(params[0].1)
        } else {
            query::value_of(params.drop_first(), key)
        }),
{
}

/// A link is its target between angle brackets, path and query, and says that it
/// leads to the next page.
pub proof fn law_link_leads_to_the_next_page(
    path: Seq<char>,
    artifact_type: Option<Seq<char>>,
    last: Seq<char>,
    limit: nat,
)
    ensures
        next_link(path, artifact_type, last, limit) == seq!['<'] + path + seq!['?'] + next_query(
            artifact_type,
            last,
            limit,
        ) + ">; rel=\"next\""@,
{
    reveal_strlit("<");
    reveal_strlit("?");
    assert("<"@ =~= seq!['<']);
    assert("?"@ =~= seq!['?']);
}

} // verus!
