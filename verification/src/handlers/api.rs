//! `/api/v1/`: the discovery API.
//!
//! - **The cursor is in the body, not a `Link` header.** A JSON caller that has
//!   already parsed the body should not have to parse a header to find out
//!   whether to ask again.
//! - **A count may be a floor.** Every count carries `complete`, and a `false`
//!   is shown as `10,000+`.
//! - **Pages here are small by default.** A row on the repository list costs a
//!   bounded count per repository.

use vstd::prelude::*;
use vstd::string::*;

use crate::error;
use crate::error::{ApiError, ApiErrorView, ErrorCode};
use crate::handlers;
use crate::handlers::bodies;
use crate::handlers::Ctx;
use crate::pagination;
use crate::query;
use crate::reference;
use crate::reference::{Digest, DigestView, Reference, ReferenceView};
use crate::seam::{ManifestInfo, Page, PullCountScope, TagInfo};
use crate::text;
use crate::wire;
use crate::wire::{Method, MethodView, Reply, ReplyView};

verus! {

/// Rows per page when `?n=` is absent.
pub const DEFAULT_PAGE: usize = 25;

/// Ceiling for `?n=`. Clamped rather than rejected, as everywhere else.
pub const MAX_PAGE: usize = 100;

/// Days of pull counts when `?days=` is absent.
pub const DEFAULT_PULL_COUNT_DAYS: u16 = 30;

/// Ceiling for `?days=`: a year of weeks plus slack. There is no cursor because
/// the window is the limit.
pub const MAX_PULL_COUNT_DAYS: u16 = 400;

/// One `/api/v1/` operation, with the repository name already split out.
///
/// Each collection is its own top-level resource rather than a path nested
/// under the repository, because a repository name may contain `/` and a nested
/// listing would then be ambiguous. See [`crate::app::api_route`].
#[derive(Debug, Clone, PartialEq, Eq)]
pub enum ApiEndpoint {
    /// `GET /api/v1/repositories`
    Repositories,
    /// `GET /api/v1/repositories/<name>`, and `DELETE` of the same.
    Repository { name: String },
    /// `GET /api/v1/tags/<name>`
    Tags { name: String },
    /// `GET /api/v1/manifests/<name>`
    Manifests { name: String },
    /// `GET /api/v1/manifests/<name>@<reference>`
    Manifest { name: String, reference: String },
    /// `GET /api/v1/tag-history/<name>@<reference>`, where `<reference>` is a
    /// tag or a digest and the two ask different questions.
    TagHistory { name: String, reference: String },
    /// `GET /api/v1/pull-counts/<name>` or `.../<name>@<reference>`.
    ///
    /// The reference is optional because the repository is itself a scope, and
    /// the only one carrying blob traffic.
    PullCounts { name: String, reference: Option<String> },
    /// `GET /api/v1/purge` for the last pass, `POST /api/v1/purge` to run one.
    Purge,
}

/// One `/api/v1/` operation, its names as characters.
pub enum ApiEndpointView {
    Repositories,
    Repository { name: Seq<char> },
    Tags { name: Seq<char> },
    Manifests { name: Seq<char> },
    Manifest { name: Seq<char>, reference: Seq<char> },
    TagHistory { name: Seq<char>, reference: Seq<char> },
    PullCounts { name: Seq<char>, reference: Option<Seq<char>> },
    Purge,
}

impl View for ApiEndpoint {
    type V = ApiEndpointView;

    open spec fn view(&self) -> ApiEndpointView {
        match self {
            ApiEndpoint::Repositories => ApiEndpointView::Repositories,
            ApiEndpoint::Repository { name } => ApiEndpointView::Repository { name: name@ },
            ApiEndpoint::Tags { name } => ApiEndpointView::Tags { name: name@ },
            ApiEndpoint::Manifests { name } => ApiEndpointView::Manifests { name: name@ },
            ApiEndpoint::Manifest { name, reference } => ApiEndpointView::Manifest {
                name: name@,
                reference: reference@,
            },
            ApiEndpoint::TagHistory { name, reference } => ApiEndpointView::TagHistory {
                name: name@,
                reference: reference@,
            },
            ApiEndpoint::PullCounts { name, reference } => ApiEndpointView::PullCounts {
                name: name@,
                reference: text::opt_text(*reference),
            },
            ApiEndpoint::Purge => ApiEndpointView::Purge,
        }
    }
}

// ---- parameters --------------------------------------------------------------

/// `?n=` and `?last=` under this API's own bounds.
pub open spec fn small_page(params: Seq<(Seq<char>, Seq<char>)>) -> Result<
    (int, Option<Seq<char>>),
    ApiErrorView,
> {
    let last = pagination::present(query::value_of(params, "last"@));
    match query::value_of(params, "n"@) {
        None => Ok((DEFAULT_PAGE as int, last)),
        Some(raw) => match text::written(raw) {
            None => Err(pagination::bad_page_size(raw)),
            Some(n) => Ok(
                (
                    if n < 1 {
                        1
                    } else if n > MAX_PAGE {
                        MAX_PAGE as int
                    } else {
                        n as int
                    },
                    last,
                ),
            ),
        },
    }
}

/// `?n=` and `?last=`, with this API's own bounds.
///
/// Not [`pagination::parse`]: that one carries the spec's `?n=0` rule and the
/// operator's `/v2/` page limits, which are sized for an endpoint that costs one
/// seek.
fn page_params(pairs: &Vec<(String, String)>) -> (r: Result<(usize, Option<String>), ApiError>)
    ensures
        match r {
            Ok(p) => small_page(query::pair_texts(pairs@)) == Ok::<
                (int, Option<Seq<char>>),
                ApiErrorView,
            >((p.0 as int, text::opt_text(p.1))),
            Err(e) => small_page(query::pair_texts(pairs@)) == Err::<
                (int, Option<Seq<char>>),
                ApiErrorView,
            >(e@),
        },
{
    let last: Option<String> = match pagination::present_param(pairs, "last") {
        Some(v) => Some(text::copy(v)),
        None => None,
    };
    let limit: usize = match query::first(pairs, "n") {
        None => DEFAULT_PAGE,
        Some(raw) => match text::clamped_number(raw, u64::MAX) {
            Some(n) => if n < 1 {
                1
            } else if n > 100 {
                MAX_PAGE
            } else {
                n as usize
            },
            None => {
                let mut detail = text::copy("n=");
                detail.append(raw);
                return Err(
                    ApiError::new(ErrorCode::PaginationNumberInvalid).with_text(detail.as_str()),
                );
            },
        },
    };
    Ok((limit, last))
}

/// A tag or a digest: a `:` means digest.
pub open spec fn reference_of(raw: Seq<char>) -> Result<ReferenceView, ApiErrorView> {
    if raw.contains(':') {
        match reference::digest_of(raw) {
            Some(d) => Ok(ReferenceView::Digest(d)),
            None => Err(ApiErrorView::of(ErrorCode::DigestInvalid).detail(raw)),
        }
    } else if reference::is_tag(raw) {
        Ok(ReferenceView::Tag(raw))
    } else {
        Err(ApiErrorView::of(ErrorCode::ManifestUnknown).detail(raw))
    }
}

/// A tag or a digest, under the same rule `/v2/` uses: a `:` means digest.
pub fn parse_reference(raw: &str) -> (r: Result<Reference, ApiError>)
    ensures
        match r {
            Ok(x) => reference_of(raw@) == Ok::<ReferenceView, ApiErrorView>(x@),
            Err(e) => reference_of(raw@) == Err::<ReferenceView, ApiErrorView>(e@),
        },
{
    let v = text::to_chars(raw);
    if text::find_first(&v, ':').is_some() {
        assert(raw@.contains(':'));
        return match reference::parse_digest(raw) {
            Ok(d) => Ok(Reference::Digest(d)),
            Err(e) => Err(ApiError::new(ErrorCode::DigestInvalid).with_text(e.0.as_str())),
        };
    }
    if !reference::valid_tag(raw) {
        return Err(ApiError::new(ErrorCode::ManifestUnknown).with_text(raw));
    }
    Ok(Reference::Tag(text::copy(raw)))
}

/// Every tag and every digest is understood as what it is.
pub proof fn law_references_are_understood(raw: Seq<char>)
    ensures
        reference::is_tag(raw) ==> reference_of(raw) == Ok::<ReferenceView, ApiErrorView>(
            ReferenceView::Tag(raw),
        ),
        reference::digest_of(raw) matches Some(d) ==> reference_of(raw) == Ok::<
            ReferenceView,
            ApiErrorView,
        >(ReferenceView::Digest(d)),
        reference_of(raw) is Ok ==> reference::is_tag(raw) || reference::digest_of(raw) is Some,
{
    if reference::is_tag(raw) {
        reference::lemma_tag_is_no_digest(raw);
    }
    if reference::digest_of(raw) is Some {
        reference::lemma_digest_spelling(raw);
        reference::lemma_digest_chars(reference::digest_of(raw)->0);
    }
}

/// The instant behind `?before=`.
pub open spec fn before_of(params: Seq<(Seq<char>, Seq<char>)>) -> Result<Option<nat>, ApiErrorView> {
    match query::value_of(params, "before"@) {
        None => Ok(None),
        Some(raw) => match text::number(raw, u64::MAX as nat) {
            Some(n) => Ok(Some(n)),
            None => Err(
                ApiErrorView::of(ErrorCode::PaginationNumberInvalid).message(
                    "invalid before"@,
                ).detail("before="@ + raw),
            ),
        },
    }
}

fn before_param(pairs: &Vec<(String, String)>) -> (r: Result<Option<u64>, ApiError>)
    ensures
        match r {
            Ok(None) => before_of(query::pair_texts(pairs@)) == Ok::<Option<nat>, ApiErrorView>(
                None,
            ),
            Ok(Some(n)) => before_of(query::pair_texts(pairs@)) == Ok::<
                Option<nat>,
                ApiErrorView,
            >(Some(n as nat)),
            Err(e) => before_of(query::pair_texts(pairs@)) == Err::<Option<nat>, ApiErrorView>(e@),
        },
{
    match query::first(pairs, "before") {
        None => Ok(None),
        Some(raw) => match text::parse_number(raw, u64::MAX) {
            Some(n) => Ok(Some(n)),
            None => {
                let mut detail = text::copy("before=");
                detail.append(raw);
                Err(
                    ApiError::new(ErrorCode::PaginationNumberInvalid).with_message(
                        "invalid before",
                    ).with_text(detail.as_str()),
                )
            },
        },
    }
}

/// How many days of pull counts are asked for. A number outside the bounds is
/// clamped; only something that is no number is an error.
pub open spec fn days_of(params: Seq<(Seq<char>, Seq<char>)>) -> Result<int, ApiErrorView> {
    match query::value_of(params, "days"@) {
        None => Ok(DEFAULT_PULL_COUNT_DAYS as int),
        Some(raw) => match text::written(raw) {
            Some(n) => Ok(
                if n < 1 {
                    1
                } else if n > MAX_PULL_COUNT_DAYS {
                    MAX_PULL_COUNT_DAYS as int
                } else {
                    n as int
                },
            ),
            None => Err(
                ApiErrorView::of(ErrorCode::PaginationNumberInvalid).message(
                    "invalid days"@,
                ).detail("days="@ + raw),
            ),
        },
    }
}

fn days_param(pairs: &Vec<(String, String)>) -> (r: Result<u16, ApiError>)
    ensures
        match r {
            Ok(n) => days_of(query::pair_texts(pairs@)) == Ok::<int, ApiErrorView>(n as int) && 1
                <= n <= MAX_PULL_COUNT_DAYS,
            Err(e) => days_of(query::pair_texts(pairs@)) == Err::<int, ApiErrorView>(e@),
        },
{
    match query::first(pairs, "days") {
        None => Ok(DEFAULT_PULL_COUNT_DAYS),
        Some(raw) => match text::clamped_number(raw, u64::MAX) {
            Some(n) => Ok(
                if n < 1 {
                    1
                } else if n > 400 {
                    MAX_PULL_COUNT_DAYS
                } else {
                    n as u16
                },
            ),
            None => {
                let mut detail = text::copy("days=");
                detail.append(raw);
                Err(
                    ApiError::new(ErrorCode::PaginationNumberInvalid).with_message(
                        "invalid days",
                    ).with_text(detail.as_str()),
                )
            },
        },
    }
}

// ---- dispatch ----------------------------------------------------------------

/// What the registry is asked to do.
#[derive(Debug)]
pub enum ApiCall {
    Repositories { query: String, last: Option<String>, limit: usize },
    Repository { name: String },
    DeleteRepository { name: String },
    Tags { name: String, last: Option<String>, limit: usize },
    Manifests { name: String, last: Option<Digest>, limit: usize },
    Manifest { name: String, reference: Reference },
    TagHistory {
        name: String,
        reference: Reference,
        before: Option<u64>,
        last: Option<String>,
        limit: usize,
    },
    PullCounts {
        name: String,
        reference: Option<String>,
        scope: PullCountScope,
        from: u16,
        days: u16,
    },
    Purge { dry_run: bool },
    LastPurge,
}

/// What the registry is asked to do, its text as characters.
pub enum ApiCallView {
    Repositories { query: Seq<char>, last: Option<Seq<char>>, limit: int },
    Repository { name: Seq<char> },
    DeleteRepository { name: Seq<char> },
    Tags { name: Seq<char>, last: Option<Seq<char>>, limit: int },
    Manifests { name: Seq<char>, last: Option<DigestView>, limit: int },
    Manifest { name: Seq<char>, reference: ReferenceView },
    TagHistory {
        name: Seq<char>,
        reference: ReferenceView,
        before: Option<nat>,
        last: Option<Seq<char>>,
        limit: int,
    },
    PullCounts {
        name: Seq<char>,
        reference: Option<Seq<char>>,
        scope: ScopeView,
        from: int,
        days: int,
    },
    Purge { dry_run: bool },
    LastPurge,
}

/// What a series of pull counts is about.
pub enum ScopeView {
    Repository,
    Tag(Seq<char>),
    Manifest(DigestView),
}

/// The view of a scope.
pub open spec fn scope_view(scope: PullCountScope) -> ScopeView {
    match scope {
        PullCountScope::Repository => ScopeView::Repository,
        PullCountScope::Tag(t) => ScopeView::Tag(t@),
        PullCountScope::Manifest(d) => ScopeView::Manifest(d@),
    }
}

impl View for ApiCall {
    type V = ApiCallView;

    open spec fn view(&self) -> ApiCallView {
        match self {
            ApiCall::Repositories { query, last, limit } => ApiCallView::Repositories {
                query: query@,
                last: text::opt_text(*last),
                limit: *limit as int,
            },
            ApiCall::Repository { name } => ApiCallView::Repository { name: name@ },
            ApiCall::DeleteRepository { name } => ApiCallView::DeleteRepository { name: name@ },
            ApiCall::Tags { name, last, limit } => ApiCallView::Tags {
                name: name@,
                last: text::opt_text(*last),
                limit: *limit as int,
            },
            ApiCall::Manifests { name, last, limit } => ApiCallView::Manifests {
                name: name@,
                last: reference::opt_digest(*last),
                limit: *limit as int,
            },
            ApiCall::Manifest { name, reference } => ApiCallView::Manifest {
                name: name@,
                reference: reference@,
            },
            ApiCall::TagHistory { name, reference, before, last, limit } => {
                ApiCallView::TagHistory {
                    name: name@,
                    reference: reference@,
                    before: match before {
                        Some(n) => Some(*n as nat),
                        None => None,
                    },
                    last: text::opt_text(*last),
                    limit: *limit as int,
                }
            },
            ApiCall::PullCounts { name, reference, scope, from, days } => ApiCallView::PullCounts {
                name: name@,
                reference: text::opt_text(*reference),
                scope: scope_view(*scope),
                from: *from as int,
                days: *days as int,
            },
            ApiCall::Purge { dry_run } => ApiCallView::Purge { dry_run: *dry_run },
            ApiCall::LastPurge => ApiCallView::LastPurge,
        }
    }
}

/// The methods an endpoint takes, as `Allow` lists them.
pub open spec fn allowed(endpoint: ApiEndpointView) -> Seq<char> {
    match endpoint {
        ApiEndpointView::Repository { .. } => "GET, HEAD, DELETE"@,
        ApiEndpointView::Purge => "GET, HEAD, POST"@,
        _ => "GET, HEAD"@,
    }
}

/// The methods an endpoint takes, as `Allow` lists them.
fn allow(endpoint: &ApiEndpoint) -> (r: &'static str)
    ensures
        r@ == allowed(endpoint@),
{
    match endpoint {
        ApiEndpoint::Repository { .. } => "GET, HEAD, DELETE",
        ApiEndpoint::Purge => "GET, HEAD, POST",
        _ => "GET, HEAD",
    }
}

/// What a `GET` or `HEAD` of an endpoint asks the registry.
pub open spec fn read_call(
    endpoint: ApiEndpointView,
    params: Seq<(Seq<char>, Seq<char>)>,
    today: int,
) -> Result<ApiCallView, ApiErrorView> {
    match endpoint {
        ApiEndpointView::Repositories => match small_page(params) {
            Err(e) => Err(e),
            Ok((limit, last)) => Ok(
                ApiCallView::Repositories {
                    query: match query::value_of(params, "q"@) {
                        Some(q) => text::lower(q),
                        None => Seq::empty(),
                    },
                    last,
                    limit,
                },
            ),
        },
        ApiEndpointView::Repository { name } => Ok(ApiCallView::Repository { name }),
        ApiEndpointView::Tags { name } => match small_page(params) {
            Err(e) => Err(e),
            Ok((limit, last)) => Ok(ApiCallView::Tags { name, last, limit }),
        },
        ApiEndpointView::Manifests { name } => match small_page(params) {
            Err(e) => Err(e),
            Ok((limit, None)) => Ok(ApiCallView::Manifests { name, last: None, limit }),
            Ok((limit, Some(raw))) => match reference::digest_of(raw) {
                Some(d) => Ok(ApiCallView::Manifests { name, last: Some(d), limit }),
                None => Err(
                    ApiErrorView::of(ErrorCode::DigestInvalid).message("invalid cursor"@).detail(
                        raw,
                    ),
                ),
            },
        },
        ApiEndpointView::Manifest { name, reference } => match reference_of(reference) {
            Err(e) => Err(e),
            Ok(reference) => Ok(ApiCallView::Manifest { name, reference }),
        },
        ApiEndpointView::TagHistory { name, reference } => match small_page(params) {
            Err(e) => Err(e),
            Ok((limit, last)) => match reference_of(reference) {
                Err(e) => Err(e),
                Ok(reference) => match before_of(params) {
                    Err(e) => Err(e),
                    Ok(before) => Ok(
                        ApiCallView::TagHistory { name, reference, before, last, limit },
                    ),
                },
            },
        },
        ApiEndpointView::PullCounts { name, reference } => match days_of(params) {
            Err(e) => Err(e),
            Ok(days) => match scope_of(reference) {
                Err(e) => Err(e),
                Ok(scope) => Ok(
                    ApiCallView::PullCounts {
                        name,
                        reference,
                        scope,
                        from: window_start(today, days),
                        days,
                    },
                ),
            },
        },
        ApiEndpointView::Purge => Ok(ApiCallView::LastPurge),
    }
}

/// The scope an optional reference names.
pub open spec fn scope_of(reference: Option<Seq<char>>) -> Result<ScopeView, ApiErrorView> {
    match reference {
        None => Ok(ScopeView::Repository),
        Some(raw) => match reference_of(raw) {
            Err(e) => Err(e),
            Ok(ReferenceView::Tag(t)) => Ok(ScopeView::Tag(t)),
            Ok(ReferenceView::Digest(d)) => Ok(ScopeView::Manifest(d)),
        },
    }
}

/// The first day of a window of `days` that ends today, no earlier than the
/// epoch.
pub open spec fn window_start(today: int, days: int) -> int {
    if today >= days - 1 {
        today - (days - 1)
    } else {
        0
    }
}

/// What a request asks the registry, or the error it is answered with.
///
/// Reads are `GET` and `HEAD`. Deleting a repository is the one `DELETE` and
/// running a purge pass the one `POST`.
pub open spec fn api_call(
    method: MethodView,
    endpoint: ApiEndpointView,
    params: Seq<(Seq<char>, Seq<char>)>,
    today: int,
) -> Result<ApiCallView, ApiErrorView> {
    match method {
        MethodView::Delete => match endpoint {
            ApiEndpointView::Repository { name } => Ok(ApiCallView::DeleteRepository { name }),
            _ => Err(handlers::not_allowed(allowed(endpoint))),
        },
        MethodView::Post => match endpoint {
            ApiEndpointView::Purge => Ok(
                ApiCallView::Purge {
                    dry_run: handlers::switch(query::value_of(params, "dry-run"@)),
                },
            ),
            _ => Err(handlers::not_allowed(allowed(endpoint))),
        },
        MethodView::Get => read_call(endpoint, params, today),
        MethodView::Head => read_call(endpoint, params, today),
        _ => Err(handlers::not_allowed(allowed(endpoint))),
    }
}

fn parse_scope(reference: &Option<String>) -> (r: Result<PullCountScope, ApiError>)
    ensures
        match r {
            Ok(x) => scope_of(text::opt_text(*reference)) == Ok::<ScopeView, ApiErrorView>(
                scope_view(x),
            ),
            Err(e) => scope_of(text::opt_text(*reference)) == Err::<ScopeView, ApiErrorView>(e@),
        },
{
    match reference {
        None => Ok(PullCountScope::Repository),
        Some(raw) => match parse_reference(raw.as_str()) {
            Ok(Reference::Tag(t)) => Ok(PullCountScope::Tag(t)),
            Ok(Reference::Digest(d)) => Ok(PullCountScope::Manifest(d)),
            Err(e) => Err(e),
        },
    }
}

fn plan_read<R: ?Sized>(ctx: &Ctx<R>, endpoint: ApiEndpoint, today: u16) -> (r: Result<
    ApiCall,
    ApiError,
>)
    ensures
        match r {
            Ok(c) => read_call(endpoint@, ctx.params(), today as int) == Ok::<
                ApiCallView,
                ApiErrorView,
            >(c@),
            Err(e) => read_call(endpoint@, ctx.params(), today as int) == Err::<
                ApiCallView,
                ApiErrorView,
            >(e@),
        },
{
    match endpoint {
        ApiEndpoint::Repositories => {
            let (limit, last): (usize, Option<String>) = match page_params(&ctx.query) {
                Ok(page) => page,
                Err(e) => return Err(e),
            };
            // A repository name holds no capital, so a search for one is folded
            // rather than left to find nothing.
            let query = match ctx.param("q") {
                Some(q) => text::lower_text(q),
                None => String::new(),
            };
            Ok(ApiCall::Repositories { query, last, limit })
        },
        ApiEndpoint::Repository { name } => Ok(ApiCall::Repository { name }),
        ApiEndpoint::Tags { name } => {
            let (limit, last): (usize, Option<String>) = match page_params(&ctx.query) {
                Ok(page) => page,
                Err(e) => return Err(e),
            };
            Ok(ApiCall::Tags { name, last, limit })
        },
        ApiEndpoint::Manifests { name } => {
            let (limit, last): (usize, Option<String>) = match page_params(&ctx.query) {
                Ok(page) => page,
                Err(e) => return Err(e),
            };
            // The manifest range is digest-ordered, so its cursor is a digest. One
            // that does not parse is a `400`, not a silent restart from the top.
            let last: Option<Digest> = match last {
                None => None,
                Some(raw) => match reference::parse_digest(raw.as_str()) {
                    Ok(d) => Some(d),
                    Err(e) => return Err(
                        ApiError::new(ErrorCode::DigestInvalid).with_message(
                            "invalid cursor",
                        ).with_text(e.0.as_str()),
                    ),
                },
            };
            Ok(ApiCall::Manifests { name, last, limit })
        },
        ApiEndpoint::Manifest { name, reference } => match parse_reference(reference.as_str()) {
            Ok(reference) => Ok(ApiCall::Manifest { name, reference }),
            Err(e) => Err(e),
        },
        ApiEndpoint::TagHistory { name, reference } => {
            let (limit, last): (usize, Option<String>) = match page_params(&ctx.query) {
                Ok(page) => page,
                Err(e) => return Err(e),
            };
            let reference = match parse_reference(reference.as_str()) {
                Ok(reference) => reference,
                Err(e) => return Err(e),
            };
            let before: Option<u64> = match before_param(&ctx.query) {
                Ok(before) => before,
                Err(e) => return Err(e),
            };
            Ok(ApiCall::TagHistory { name, reference, before, last, limit })
        },
        ApiEndpoint::PullCounts { name, reference } => {
            let days: u16 = match days_param(&ctx.query) {
                Ok(days) => days,
                Err(e) => return Err(e),
            };
            let scope = match parse_scope(&reference) {
                Ok(scope) => scope,
                Err(e) => return Err(e),
            };
            // The window ends on today's bucket, in UTC, which is the same
            // boundary the counters were written against.
            let from: u16 = if today >= days - 1 {
                today - (days - 1)
            } else {
                0
            };
            Ok(ApiCall::PullCounts { name, reference, scope, from, days })
        },
        ApiEndpoint::Purge => Ok(ApiCall::LastPurge),
    }
}

/// What a request asks the registry, on the day `today`.
pub fn plan<R: ?Sized>(ctx: &Ctx<R>, endpoint: ApiEndpoint, today: u16) -> (r: Result<
    ApiCall,
    ApiError,
>)
    ensures
        match r {
            Ok(c) => api_call(ctx.method@, endpoint@, ctx.params(), today as int) == Ok::<
                ApiCallView,
                ApiErrorView,
            >(c@),
            Err(e) => api_call(ctx.method@, endpoint@, ctx.params(), today as int) == Err::<
                ApiCallView,
                ApiErrorView,
            >(e@),
        },
{
    match ctx.method {
        Method::Delete => match endpoint {
            ApiEndpoint::Repository { name } => Ok(ApiCall::DeleteRepository { name }),
            other => Err(handlers::method_not_allowed(allow(&other))),
        },
        Method::Post => match endpoint {
            ApiEndpoint::Purge => Ok(ApiCall::Purge { dry_run: ctx.flag("dry-run") }),
            other => Err(handlers::method_not_allowed(allow(&other))),
        },
        Method::Get | Method::Head => plan_read(ctx, endpoint, today),
        _ => Err(handlers::method_not_allowed(allow(&endpoint))),
    }
}

/// Nothing but `DELETE` of a repository and `POST` of a purge pass asks the
/// registry to change anything, and a purge pass only where it is no dry run.
pub open spec fn mutates(call: ApiCallView) -> bool {
    match call {
        ApiCallView::DeleteRepository { .. } => true,
        ApiCallView::Purge { dry_run } => !dry_run,
        _ => false,
    }
}

/// A request that changes the registry is a write to the access rule too: what
/// the read key or an anonymous pull is admitted to never mutates.
pub proof fn law_mutations_are_writes(
    method: MethodView,
    endpoint: ApiEndpointView,
    params: Seq<(Seq<char>, Seq<char>)>,
    today: int,
)
    ensures
        api_call(method, endpoint, params, today) matches Ok(call) ==> (mutates(call)
            ==> crate::auth::access_of(method) == crate::auth::Access::Write),
{
}

/// Nothing asks for an unbounded set: every listing has a limit of its own,
/// between one row and a hundred, and every window of counts a number of days.
pub proof fn law_no_listing_is_unbounded(
    method: MethodView,
    endpoint: ApiEndpointView,
    params: Seq<(Seq<char>, Seq<char>)>,
    today: int,
)
    ensures
        match api_call(method, endpoint, params, today) {
            Ok(ApiCallView::Repositories { limit, .. }) => 1 <= limit <= 100,
            Ok(ApiCallView::Tags { limit, .. }) => 1 <= limit <= 100,
            Ok(ApiCallView::Manifests { limit, .. }) => 1 <= limit <= 100,
            Ok(ApiCallView::TagHistory { limit, .. }) => 1 <= limit <= 100,
            Ok(ApiCallView::PullCounts { days, .. }) => 1 <= days <= 400,
            _ => true,
        },
{
}

/// A repository takes `GET`, `HEAD` and `DELETE`, purge takes `GET`, `HEAD` and
/// `POST`, every other resource takes `GET` and `HEAD`, and any other method is a
/// `405` whose `Allow` header lists the methods that the resource takes.
pub proof fn law_methods(
    method: MethodView,
    endpoint: ApiEndpointView,
    params: Seq<(Seq<char>, Seq<char>)>,
    today: int,
)
    ensures
        ({
            let taken = method is Get || method is Head || (method is Delete
                && endpoint is Repository) || (method is Post && endpoint is Purge);
            &&& !taken <==> (api_call(method, endpoint, params, today) matches Err(e) && e.status
                == 405)
            &&& api_call(method, endpoint, params, today) matches Err(e) ==> (e.status == 405
                ==> e.extra == seq![
                (
                    "allow"@,
                    match endpoint {
                        ApiEndpointView::Repository { .. } => "GET, HEAD, DELETE"@,
                        ApiEndpointView::Purge => "GET, HEAD, POST"@,
                        _ => "GET, HEAD"@,
                    },
                ),
            ])
        }),
{
}

/// `HEAD` asks the registry what `GET` asks it.
pub proof fn law_head_asks_what_get_asks(
    endpoint: ApiEndpointView,
    params: Seq<(Seq<char>, Seq<char>)>,
    today: int,
)
    ensures
        api_call(MethodView::Head, endpoint, params, today) == api_call(
            MethodView::Get,
            endpoint,
            params,
            today,
        ),
{
}

/// A `DELETE` of a repository asks for that repository to go, and a `GET` of a
/// resource asks for that resource, by the name in its path.
pub proof fn law_the_named_resource_is_asked_for(
    name: Seq<char>,
    raw: Seq<char>,
    params: Seq<(Seq<char>, Seq<char>)>,
    today: int,
)
    ensures
        api_call(MethodView::Delete, ApiEndpointView::Repository { name }, params, today) == Ok::<
            ApiCallView,
            ApiErrorView,
        >(ApiCallView::DeleteRepository { name }),
        api_call(MethodView::Get, ApiEndpointView::Repository { name }, params, today) == Ok::<
            ApiCallView,
            ApiErrorView,
        >(ApiCallView::Repository { name }),
        api_call(MethodView::Get, ApiEndpointView::Purge, params, today) == Ok::<
            ApiCallView,
            ApiErrorView,
        >(ApiCallView::LastPurge),
        reference::is_tag(raw) ==> api_call(
            MethodView::Get,
            ApiEndpointView::Manifest { name, reference: raw },
            params,
            today,
        ) == Ok::<ApiCallView, ApiErrorView>(
            ApiCallView::Manifest { name, reference: ReferenceView::Tag(raw) },
        ),
        reference::digest_of(raw) matches Some(d) ==> api_call(
            MethodView::Get,
            ApiEndpointView::Manifest { name, reference: raw },
            params,
            today,
        ) == Ok::<ApiCallView, ApiErrorView>(
            ApiCallView::Manifest { name, reference: ReferenceView::Digest(d) },
        ),
{
    law_references_are_understood(raw);
}

/// A `POST` of the purge resource asks for a pass, and one that is no dry run
/// exactly where `?dry-run` is absent or its first value is `false`, `0` or `no`:
/// with any other value, an empty one among them, nothing is changed.
pub proof fn law_purge_changes_nothing_where_it_is_a_dry_run(
    params: Seq<(Seq<char>, Seq<char>)>,
    today: int,
)
    ensures
        ({
            let call = api_call(MethodView::Post, ApiEndpointView::Purge, params, today);
            let value = query::value_of(params, "dry-run"@);
            let off = value is None || value->0 == "false"@ || value->0 == "0"@ || value->0
                == "no"@;
            &&& call == Ok::<ApiCallView, ApiErrorView>(ApiCallView::Purge { dry_run: !off })
            &&& mutates(call->Ok_0) <==> off
        }),
{
}

/// `cursor` is the value of `?last=`, where there is one and it is not empty.
pub open spec fn resumes_at(
    params: Seq<(Seq<char>, Seq<char>)>,
    cursor: Option<Seq<char>>,
) -> bool {
    match query::value_of(params, "last"@) {
        Some(last) => if last.len() > 0 {
            cursor == Some(last)
        } else {
            cursor is None
        },
        None => cursor is None,
    }
}

/// `limit` is the number in `?n=`, brought between one row and a hundred, or
/// twenty-five rows without one.
pub open spec fn holds_rows(params: Seq<(Seq<char>, Seq<char>)>, limit: int) -> bool {
    match query::value_of(params, "n"@) {
        Some(raw) => text::written(raw) matches Some(n) && {
            &&& n == 0 ==> limit == 1
            &&& 1 <= n <= 100 ==> limit == n
            &&& n > 100 ==> limit == 100
        },
        None => limit == 25,
    }
}

/// `?n=` is absent or a number.
pub open spec fn page_is_readable(params: Seq<(Seq<char>, Seq<char>)>) -> bool {
    query::value_of(params, "n"@) matches Some(raw) ==> text::written(raw) is Some
}

/// A listing resumes at its cursor: a page of repositories, tags or manifests is
/// asked for behind the value of `?last=`, from the start where there is none, and
/// of the resource that the path names. Nothing but an unreadable `?n=`, or a
/// manifest cursor that is no digest, is refused.
#[verifier::spinoff_prover]
pub proof fn law_listings_resume_at_their_cursor(
    name: Seq<char>,
    params: Seq<(Seq<char>, Seq<char>)>,
    today: int,
)
    ensures
        match api_call(MethodView::Get, ApiEndpointView::Repositories, params, today) {
            Ok(ApiCallView::Repositories { query, last, limit }) => {
                &&& page_is_readable(params)
                &&& resumes_at(params, last)
                &&& holds_rows(params, limit)
                &&& query == (match query::value_of(params, "q"@) {
                    Some(q) => text::lower(q),
                    None => Seq::empty(),
                })
            },
            Ok(_) => false,
            Err(e) => !page_is_readable(params) && e.status == 400 && e.code
                == ErrorCode::PaginationNumberInvalid,
        },
        match api_call(MethodView::Get, ApiEndpointView::Tags { name }, params, today) {
            Ok(ApiCallView::Tags { name: asked, last, limit }) => {
                &&& page_is_readable(params)
                &&& asked == name
                &&& resumes_at(params, last)
                &&& holds_rows(params, limit)
            },
            Ok(_) => false,
            Err(e) => !page_is_readable(params) && e.status == 400 && e.code
                == ErrorCode::PaginationNumberInvalid,
        },
        match api_call(MethodView::Get, ApiEndpointView::Manifests { name }, params, today) {
            Ok(ApiCallView::Manifests { name: asked, last, limit }) => {
                &&& page_is_readable(params)
                &&& asked == name
                &&& resumes_at(
                    params,
                    match last {
                        Some(d) => Some(d.text()),
                        None => None,
                    },
                )
                &&& holds_rows(params, limit)
            },
            Ok(_) => false,
            Err(e) => e.status == 400 && if page_is_readable(params) {
                &&& e.code == ErrorCode::DigestInvalid
                &&& query::value_of(params, "last"@) matches Some(last)
                &&& last.len() > 0
                &&& reference::digest_of(last) is None
            } else {
                e.code == ErrorCode::PaginationNumberInvalid
            },
        },
{
    if let Some(last) = query::value_of(params, "last"@) {
        if reference::digest_of(last) is Some {
            reference::lemma_digest_spelling(last);
        }
    }
}

/// Following a page's `next` asks for what lies behind its last row: the cursor of
/// a tag list or a manifest list, handed back as `?last=`, reaches the registry as
/// the tag or the digest that the page ended on.
pub proof fn law_next_asks_for_what_lies_behind(
    name: Seq<char>,
    params: Seq<(Seq<char>, Seq<char>)>,
    today: int,
    tags: Page<TagInfo>,
    manifests: Page<ManifestInfo>,
)
    requires
        page_is_readable(params),
    ensures
        bodies::tags_next(tags) is Some && tags.items@.last().name@.len() > 0 && query::value_of(
            params,
            "last"@,
        ) == bodies::tags_next(tags) ==> (api_call(
            MethodView::Get,
            ApiEndpointView::Tags { name },
            params,
            today,
        ) matches Ok(ApiCallView::Tags { last, .. }) && last == Some(tags.items@.last().name@)),
        bodies::manifests_next(manifests) is Some && manifests.items@.last().digest@.wf()
            && query::value_of(params, "last"@) == bodies::manifests_next(manifests) ==> (api_call(
            MethodView::Get,
            ApiEndpointView::Manifests { name },
            params,
            today,
        ) matches Ok(ApiCallView::Manifests { last, .. }) && last == Some(
            manifests.items@.last().digest@,
        )),
{
    if bodies::manifests_next(manifests) is Some && manifests.items@.last().digest@.wf() {
        let d = manifests.items@.last().digest@;
        reference::lemma_digest_round_trip(d);
        reference::lemma_digest_chars(d);
    }
}

/// A history is asked for of the reference in the path, from the instant in
/// `?before=` and the tag in `?last=` where they are there, and from the newest
/// event where they are not.
#[verifier::spinoff_prover]
pub proof fn law_history_asks_what_was_asked(
    name: Seq<char>,
    raw: Seq<char>,
    params: Seq<(Seq<char>, Seq<char>)>,
    today: int,
)
    ensures
        match api_call(
            MethodView::Get,
            ApiEndpointView::TagHistory { name, reference: raw },
            params,
            today,
        ) {
            Ok(ApiCallView::TagHistory { name: asked, reference, before, last, limit }) => {
                &&& asked == name
                &&& reference matches ReferenceView::Tag(t) ==> reference::is_tag(raw) && t == raw
                &&& reference matches ReferenceView::Digest(d) ==> d.text() == raw
                &&& resumes_at(params, last)
                &&& holds_rows(params, limit)
                &&& match query::value_of(params, "before"@) {
                    None => before is None,
                    Some(written) => before is Some && text::number(written, u64::MAX as nat)
                        == before,
                }
            },
            Ok(_) => false,
            Err(e) => {
                ||| !page_is_readable(params) && e.status == 400
                ||| reference_of(raw) is Err && e == reference_of(raw)->Err_0
                ||| e.status == 400 && e.code == ErrorCode::PaginationNumberInvalid && (
                query::value_of(params, "before"@) matches Some(written) && text::number(
                    written,
                    u64::MAX as nat,
                ) is None)
            },
        },
{
    if reference::digest_of(raw) is Some {
        reference::lemma_digest_spelling(raw);
    }
}

/// Pull counts are asked for of the repository where the path names no reference,
/// and otherwise of the tag or the manifest that it names, over the number of days
/// in `?days=`, brought between one and four hundred, or thirty without one.
#[verifier::spinoff_prover]
pub proof fn law_pull_counts_asks_what_was_asked(
    name: Seq<char>,
    raw: Option<Seq<char>>,
    params: Seq<(Seq<char>, Seq<char>)>,
    today: int,
)
    requires
        0 <= today <= 65535,
    ensures
        match api_call(
            MethodView::Get,
            ApiEndpointView::PullCounts { name, reference: raw },
            params,
            today,
        ) {
            Ok(ApiCallView::PullCounts { name: asked, reference, scope, from, days }) => {
                &&& asked == name
                &&& reference == raw
                &&& raw is None <==> scope is Repository
                &&& scope matches ScopeView::Tag(t) ==> raw == Some(t) && reference::is_tag(t)
                &&& scope matches ScopeView::Manifest(d) ==> raw == Some(d.text())
                &&& match query::value_of(params, "days"@) {
                    None => days == 30,
                    Some(written) => text::written(written) matches Some(n) && {
                        &&& n == 0 ==> days == 1
                        &&& 1 <= n <= 400 ==> days == n
                        &&& n > 400 ==> days == 400
                    },
                }
                &&& from + days - 1 == today || (from == 0 && days - 1 > today)
            },
            Ok(_) => false,
            Err(e) => {
                ||| e.status == 400 && e.code == ErrorCode::PaginationNumberInvalid && (
                query::value_of(params, "days"@) matches Some(written) && text::written(
                    written,
                ) is None)
                ||| raw matches Some(r) && reference_of(r) is Err && e == reference_of(r)->Err_0
            },
        },
{
    if let Some(r) = raw {
        if reference::digest_of(r) is Some {
            reference::lemma_digest_spelling(r);
        }
    }
}

/// Text that is neither a tag nor a digest names nothing: with a `:` in it it is a
/// malformed digest, and without one an unknown manifest.
pub proof fn law_what_names_nothing_is_refused(raw: Seq<char>)
    requires
        !reference::is_tag(raw),
        reference::digest_of(raw) is None,
    ensures
        reference_of(raw) matches Err(e) && (if raw.contains(':') {
            e.status == 400 && e.code == ErrorCode::DigestInvalid
        } else {
            e.status == 404 && e.code == ErrorCode::ManifestUnknown
        }) && e.detail == Some(crate::json::Json::Text(raw)),
{
}

/// A history's cursor, handed back as `?before=` and `?last=`, resumes exactly
/// there: both halves reach the registry as they were given, because several
/// events can share an instant.
pub proof fn law_history_cursor_resumes(
    name: Seq<char>,
    reference: Seq<char>,
    params: Seq<(Seq<char>, Seq<char>)>,
    today: int,
    before: u64,
    last: Seq<char>,
)
    requires
        reference_of(reference) is Ok,
        small_page(params) is Ok,
        last.len() > 0,
        query::value_of(params, "before"@) == Some(text::decimal(before as nat)),
        query::value_of(params, "last"@) == Some(last),
    ensures
        api_call(
            MethodView::Get,
            ApiEndpointView::TagHistory { name, reference },
            params,
            today,
        ) == Ok::<ApiCallView, ApiErrorView>(
            ApiCallView::TagHistory {
                name,
                reference: reference_of(reference)->Ok_0,
                before: Some(before as nat),
                last: Some(last),
                limit: (small_page(params)->Ok_0).0,
            },
        ),
{
    text::lemma_number_of_decimal(before as nat);
}

/// The pull-count window has between 1 and 400 days, ends today wherever the
/// epoch leaves room for it, and never starts after today.
pub proof fn law_window_ends_today(params: Seq<(Seq<char>, Seq<char>)>, today: int)
    requires
        0 <= today <= 65535,
    ensures
        days_of(params) matches Ok(days) ==> {
            &&& 1 <= days <= 400
            &&& 0 <= window_start(today, days) <= today
            &&& today >= days - 1 ==> window_start(today, days) + days - 1 == today
        },
{
}

// ---- responses ---------------------------------------------------------------

/// The response that carries an encoded body.
pub open spec fn json_reply(method: MethodView, encoded: Seq<u8>) -> ReplyView {
    ReplyView {
        status: error::OK,
        headers: seq![
            ("content-type"@, "application/json"@),
            ("content-length"@, text::decimal(encoded.len())),
            ("cache-control"@, "no-store"@),
        ],
        body: if method is Head {
            Seq::empty()
        } else {
            encoded
        },
    }
}

/// The response that carries an encoded body: a `HEAD` keeps the
/// `Content-Length` the body would have had, and nothing is cached, because a
/// discovery answer is true only until the next push lands.
pub fn json(method: &Method, encoded: Vec<u8>) -> (r: Reply)
    ensures
        r@ == json_reply(method@, encoded@),
{
    let mut headers: Vec<(String, String)> = Vec::new();
    headers.push(wire::header("content-type", "application/json"));
    headers.push(wire::header("content-length", text::decimal_text(encoded.len() as u64).as_str()));
    headers.push(wire::header("cache-control", "no-store"));
    proof {
        assert(wire::header_list(headers@) =~= json_reply(method@, encoded@).headers);
    }
    let body: Vec<u8> = match method {
        Method::Head => Vec::new(),
        _ => encoded,
    };
    proof {
        if method@ is Head {
            assert(body@ =~= Seq::empty());
        }
    }
    Reply { status: error::OK, headers, body }
}

/// A `HEAD` is answered as the `GET` would be, but for the body: the same status
/// and the same headers, the length of the body that is not sent among them.
pub proof fn law_head_is_get_without_the_body(encoded: Seq<u8>)
    ensures
        json_reply(MethodView::Head, encoded) == (ReplyView {
            body: Seq::empty(),
            ..json_reply(MethodView::Get, encoded)
        }),
        json_reply(MethodView::Get, encoded).body == encoded,
{
}

/// The answer to a repository delete: `202`, because the name is gone from
/// every listing while the keys beneath it may still be being swept.
pub fn deleted() -> (r: Reply)
    ensures
        r@ == (ReplyView {
            status: error::ACCEPTED,
            headers: seq![("content-length"@, text::decimal(0))],
            body: Seq::empty(),
        }),
{
    let r = handlers::empty_with_length(error::ACCEPTED, 0, Vec::new());
    assert(r@.headers =~= seq![("content-length"@, text::decimal(0))]);
    r
}

/// An answer is a `200` of JSON that nobody caches, as long as the body it carries
/// or would carry.
pub proof fn law_answers_are_fresh_json(method: MethodView, encoded: Seq<u8>)
    ensures
        json_reply(method, encoded).status == 200,
        json_reply(method, encoded).headers.contains(("content-type"@, "application/json"@)),
        json_reply(method, encoded).headers.contains(
            ("content-length"@, text::decimal(encoded.len())),
        ),
        json_reply(method, encoded).headers.contains(("cache-control"@, "no-store"@)),
        !(method is Head) ==> json_reply(method, encoded).body == encoded,
{
    let headers = json_reply(method, encoded).headers;
    assert(headers[0] == ("content-type"@, "application/json"@));
    assert(headers[1] == ("content-length"@, text::decimal(encoded.len())));
    assert(headers[2] == ("cache-control"@, "no-store"@));
}

/// A repository delete is accepted, with nothing to read in the answer.
pub proof fn law_delete_is_accepted(r: Reply)
    requires
        call_ensures(deleted, (), r),
    ensures
        r@.status == 202,
        r@.headers == seq![("content-length"@, "0"@)],
        r@.body.len() == 0,
{
    reveal_strlit("0");
    assert(text::decimal(0) =~= "0"@);
}

} // verus!
