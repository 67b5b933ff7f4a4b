//! The route tables.
//!
//! A repository name may contain `/`, so a `/v2/` operation is recognised by
//! the end of its path and the name is whatever stands before it.

use std::sync::Arc;

use axum::http::HeaderMap;
use vstd::prelude::*;

use crate::auth;
use crate::config::ServerConfig;
use crate::counters::PullCounters;
use crate::error::{ApiError, ApiErrorView, ErrorCode};
use crate::handlers::api::{ApiEndpoint, ApiEndpointView};
use crate::query;
use crate::reference;
use crate::text;
use crate::wire;
use crate::wire::Method;

verus! {

/// The header every response carries unless it already does.
pub const API_VERSION_HEADER: &'static str = "docker-distribution-api-version";

/// What every request is served from.
pub struct AppState<R: ?Sized> {
    pub registry: Arc<R>,
    pub config: Arc<ServerConfig>,
    /// Where a served pull is counted.
    pub counters: Arc<PullCounters>,
}

impl<R: ?Sized> AppState<R> {
    /// A registry that counts nothing.
    ///
    /// The default because every embedding that is not the server itself has no
    /// flush task behind it, and counters that accumulate with nothing draining
    /// them are a leak rather than a feature.
    pub fn new(registry: Arc<R>, config: ServerConfig) -> (r: AppState<R>)
        ensures
            r.registry == registry,
            *r.config == config,
            !r.counters.spec_enabled(),
    {
        AppState::with_counters(registry, config, Arc::new(PullCounters::disabled()))
    }

    /// A registry that counts into `counters`.
    pub fn with_counters(registry: Arc<R>, config: ServerConfig, counters: Arc<PullCounters>) -> (r:
        AppState<R>)
        ensures
            r.registry == registry,
            *r.config == config,
            r.counters == counters,
    {
        AppState { registry, config: Arc::new(config), counters }
    }
}

/// One `/v2/` operation, with the repository name already split out.
#[derive(Debug, Clone, PartialEq, Eq)]
pub enum Endpoint {
    /// `GET /v2/`
    Base,
    /// `GET /v2/_catalog`
    Catalog,
    /// `/v2/<name>/tags/list`
    TagList { name: String },
    /// `/v2/<name>/manifests/<reference>`
    Manifest { name: String, reference: String },
    /// `/v2/<name>/blobs/<digest>`
    Blob { name: String, digest: String },
    /// `POST /v2/<name>/blobs/uploads/`
    Uploads { name: String },
    /// `/v2/<name>/blobs/uploads/<id>`
    Upload { name: String, id: String },
    /// `/v2/<name>/referrers/<digest>`
    Referrers { name: String, digest: String },
}

/// One `/v2/` operation, its names as characters.
pub enum EndpointView {
    Base,
    Catalog,
    TagList { name: Seq<char> },
    Manifest { name: Seq<char>, reference: Seq<char> },
    Blob { name: Seq<char>, digest: Seq<char> },
    Uploads { name: Seq<char> },
    Upload { name: Seq<char>, id: Seq<char> },
    Referrers { name: Seq<char>, digest: Seq<char> },
}

impl View for Endpoint {
    type V = EndpointView;

    open spec fn view(&self) -> EndpointView {
        match self {
            Endpoint::Base => EndpointView::Base,
            Endpoint::Catalog => EndpointView::Catalog,
            Endpoint::TagList { name } => EndpointView::TagList { name: name@ },
            Endpoint::Manifest { name, reference } => EndpointView::Manifest {
                name: name@,
                reference: reference@,
            },
            Endpoint::Blob { name, digest } => EndpointView::Blob { name: name@, digest: digest@ },
            Endpoint::Uploads { name } => EndpointView::Uploads { name: name@ },
            Endpoint::Upload { name, id } => EndpointView::Upload { name: name@, id: id@ },
            Endpoint::Referrers { name, digest } => EndpointView::Referrers {
                name: name@,
                digest: digest@,
            },
        }
    }
}

/// Why a path did not become an [`Endpoint`].
#[derive(Debug, Clone, PartialEq, Eq)]
pub enum RouteError {
    /// The shape matched but the repository name violated the grammar.
    InvalidName(String),
    /// No endpoint has this shape.
    NoMatch,
}

/// Why a path did not become an endpoint, the name as characters.
pub enum RouteErrorView {
    InvalidName(Seq<char>),
    NoMatch,
}

impl View for RouteError {
    type V = RouteErrorView;

    open spec fn view(&self) -> RouteErrorView {
        match self {
            RouteError::InvalidName(name) => RouteErrorView::InvalidName(name@),
            RouteError::NoMatch => RouteErrorView::NoMatch,
        }
    }
}

/// A result of [`route`] as the specification states it.
pub open spec fn routed(r: Result<Endpoint, RouteError>) -> Result<EndpointView, RouteErrorView> {
    match r {
        Ok(e) => Ok(e@),
        Err(e) => Err(e@),
    }
}

/// The segments of a path, each decoded after the split.
pub open spec fn decoded_segments(rest: Seq<char>) -> Seq<Seq<char>> {
    text::split(rest, '/').map_values(|piece: Seq<char>| query::decoded(piece))
}

/// The segments of a path, one trailing slash disregarded.
pub open spec fn segments_of(rest: Seq<char>) -> Seq<Seq<char>> {
    let all = decoded_segments(rest);
    if all.last().len() == 0 {
        all.drop_last()
    } else {
        all
    }
}

/// The repository name that `segments` spell, or why they spell none.
pub open spec fn name_in(segments: Seq<Seq<char>>) -> Result<Seq<char>, RouteErrorView> {
    let name = text::join(segments, '/');
    if reference::is_name(name) {
        Ok(name)
    } else {
        Err(RouteErrorView::InvalidName(name))
    }
}

/// The endpoint that `segments` end in: the longest ending first, so that an
/// upload's id is not read as a digest.
pub open spec fn endpoint_at(segments: Seq<Seq<char>>) -> Result<EndpointView, RouteErrorView> {
    let n = segments.len() as int;
    if n >= 4 && segments[n - 3] == "blobs"@ && segments[n - 2] == "uploads"@ {
        match name_in(segments.take(n - 3)) {
            Ok(name) => Ok(EndpointView::Upload { name, id: segments[n - 1] }),
            Err(e) => Err(e),
        }
    } else if n < 3 {
        Err(RouteErrorView::NoMatch)
    } else {
        let kind = segments[n - 2];
        let last = segments[n - 1];
        let named = name_in(segments.take(n - 2));
        if kind == "blobs"@ && last == "uploads"@ {
            match named {
                Ok(name) => Ok(EndpointView::Uploads { name }),
                Err(e) => Err(e),
            }
        } else if kind == "manifests"@ {
            match named {
                Ok(name) => Ok(EndpointView::Manifest { name, reference: last }),
                Err(e) => Err(e),
            }
        } else if kind == "blobs"@ {
            match named {
                Ok(name) => Ok(EndpointView::Blob { name, digest: last }),
                Err(e) => Err(e),
            }
        } else if kind == "tags"@ && last == "list"@ {
            match named {
                Ok(name) => Ok(EndpointView::TagList { name }),
                Err(e) => Err(e),
            }
        } else if kind == "referrers"@ {
            match named {
                Ok(name) => Ok(EndpointView::Referrers { name, digest: last }),
                Err(e) => Err(e),
            }
        } else {
            Err(RouteErrorView::NoMatch)
        }
    }
}

/// Some segment is empty.
pub open spec fn has_gap(segments: Seq<Seq<char>>) -> bool {
    exists|i: int| 0 <= i < segments.len() && (#[trigger] segments[i]).len() == 0
}

/// The endpoint a request path names.
pub open spec fn route_spec(path: Seq<char>) -> Result<EndpointView, RouteErrorView> {
    if path == "/v2"@ || path == "/v2/"@ {
        Ok(EndpointView::Base)
    } else if !text::starts_with(path, "/v2/"@) {
        Err(RouteErrorView::NoMatch)
    } else {
        let segments = segments_of(path.skip(4));
        if has_gap(segments) {
            Err(RouteErrorView::NoMatch)
        } else if segments == seq!["_catalog"@] {
            Ok(EndpointView::Catalog)
        } else {
            endpoint_at(segments)
        }
    }
}

/// Every segment of `rest`, decoded.
fn decode_segments(rest: &str) -> (r: Vec<String>)
    ensures
        text::texts(r@) == decoded_segments(rest@),
        r@.len() >= 1,
{
    let pieces = text::split_text(rest, '/');
    let mut r: Vec<String> = Vec::new();
    let mut i: usize = 0;
    while i < pieces.len()
        invariant
            text::texts(pieces@) == text::split(rest@, '/'),
            0 <= i <= pieces@.len(),
            r@.len() == i,
            forall|j: int| 0 <= j < i ==> (#[trigger] r@[j])@ == query::decoded(pieces@[j]@),
        decreases pieces@.len() - i,
    {
        r.push(query::path_decode(pieces[i].as_str()));
        i = i + 1;
    }
    proof {
        text::lemma_split_pieces(rest@, '/');
        assert forall|j: int| 0 <= j < r@.len() implies text::texts(r@)[j] == decoded_segments(
            rest@,
        )[j] by {
            assert(text::texts(pieces@)[j] == pieces@[j]@);
        }
        assert(text::texts(r@) =~= decoded_segments(rest@));
    }
    r
}

/// The name that the first `count` segments spell.
fn name_of(segments: &Vec<String>, count: usize) -> (r: Result<String, RouteError>)
    requires
        count <= segments@.len(),
    ensures
        match r {
            Ok(name) => name_in(text::texts(segments@).take(count as int)) == Ok::<
                Seq<char>,
                RouteErrorView,
            >(name@),
            Err(e) => name_in(text::texts(segments@).take(count as int)) == Err::<
                Seq<char>,
                RouteErrorView,
            >(e@),
        },
{
    let name = text::join_text(segments, count, '/');
    if reference::valid_name(name.as_str()) {
        Ok(name)
    } else {
        Err(RouteError::InvalidName(name))
    }
}

/// Split a request path into an [`Endpoint`].
///
/// The suffix is matched from the right, longest form first, because the name
/// occupies everything to the left of it. A repository legitimately called
/// `foo/blobs` is therefore routable: `/v2/foo/blobs/manifests/v1` matches the
/// `manifests/<ref>` suffix and leaves `foo/blobs` as the name.
///
/// Segments are percent-decoded individually *after* splitting on `/`, so an
/// encoded `%2F` inside a tag can never be mistaken for a path separator.
///
/// A path whose *shape* matches an endpoint but whose name violates the grammar
/// is [`RouteError::InvalidName`], not [`RouteError::NoMatch`].
pub fn route(path: &str) -> (r: Result<Endpoint, RouteError>)
    ensures
        routed(r) == route_spec(path@),
{
    if text::same(path, "/v2") || text::same(path, "/v2/") {
        return Ok(Endpoint::Base);
    }
    let rest = match text::strip_prefix(path, "/v2/") {
        Some(rest) => rest,
        None => return Err(RouteError::NoMatch),
    };
    proof {
        reveal_strlit("/v2/");
    }
    let mut segments = decode_segments(rest.as_str());
    let ghost all = text::texts(segments@);
    if segments[segments.len() - 1].as_str().is_empty() {
        segments.pop();
    }
    let ghost segs = segments_of(path@.skip(4));
    proof {
        assert(all.last() == all[all.len() - 1]);
        assert(text::texts(segments@) =~= segs);
    }
    let n = segments.len();
    let mut i: usize = 0;
    while i < n
        invariant
            n == segments@.len(),
            text::texts(segments@) == segs,
            0 <= i <= n,
            path@ != "/v2"@ && path@ != "/v2/"@ && text::starts_with(path@, "/v2/"@),
            segs == segments_of(path@.skip(4)),
            forall|j: int| 0 <= j < i ==> (#[trigger] segs[j]).len() > 0,
        decreases n - i,
    {
        assert(segs[i as int] == segments@[i as int]@);
        if segments[i].as_str().is_empty() {
            assert(has_gap(segs));
            return Err(RouteError::NoMatch);
        }
        i = i + 1;
    }
    assert(!has_gap(segs));
    assert(forall|j: int| 0 <= j < n ==> segs[j] == (#[trigger] segments@[j])@);

    if n == 1 && text::same(segments[0].as_str(), "_catalog") {
        assert(segs =~= seq!["_catalog"@]);
        return Ok(Endpoint::Catalog);
    }
    assert(segs != seq!["_catalog"@]) by {
        if segs == seq!["_catalog"@] {
            assert(segs.len() == 1 && segs[0] == "_catalog"@);
        }
    }

    if n >= 4 && text::same(segments[n - 3].as_str(), "blobs") && text::same(
        segments[n - 2].as_str(),
        "uploads",
    ) {
        return match name_of(&segments, n - 3) {
            Ok(name) => Ok(Endpoint::Upload { name, id: text::copy(segments[n - 1].as_str()) }),
            Err(e) => Err(e),
        };
    }
    if n < 3 {
        return Err(RouteError::NoMatch);
    }
    let kind = segments[n - 2].as_str();
    let last = text::copy(segments[n - 1].as_str());
    if text::same(kind, "blobs") && text::same(last.as_str(), "uploads") {
        return match name_of(&segments, n - 2) {
            Ok(name) => Ok(Endpoint::Uploads { name }),
            Err(e) => Err(e),
        };
    }
    if text::same(kind, "manifests") {
        return match name_of(&segments, n - 2) {
            Ok(name) => Ok(Endpoint::Manifest { name, reference: last }),
            Err(e) => Err(e),
        };
    }
    if text::same(kind, "blobs") {
        return match name_of(&segments, n - 2) {
            Ok(name) => Ok(Endpoint::Blob { name, digest: last }),
            Err(e) => Err(e),
        };
    }
    if text::same(kind, "tags") && text::same(last.as_str(), "list") {
        return match name_of(&segments, n - 2) {
            Ok(name) => Ok(Endpoint::TagList { name }),
            Err(e) => Err(e),
        };
    }
    if text::same(kind, "referrers") {
        return match name_of(&segments, n - 2) {
            Ok(name) => Ok(Endpoint::Referrers { name, digest: last }),
            Err(e) => Err(e),
        };
    }
    Err(RouteError::NoMatch)
}


// ---- the discovery API -------------------------------------------------------

/// A result of [`api_route`] as the specification states it.
pub open spec fn api_routed(r: Result<ApiEndpoint, RouteError>) -> Result<
    ApiEndpointView,
    RouteErrorView,
> {
    match r {
        Ok(e) => Ok(e@),
        Err(e) => Err(e@),
    }
}

/// The repository name written in `raw`, each segment decoded after the split.
pub open spec fn api_name(raw: Seq<char>) -> Result<Seq<char>, RouteErrorView> {
    let name = text::join(decoded_segments(raw), '/');
    if name.len() == 0 {
        Err(RouteErrorView::NoMatch)
    } else if reference::is_name(name) {
        Ok(name)
    } else {
        Err(RouteErrorView::InvalidName(name))
    }
}

/// `rest` up to its first `/`, and what follows it without one trailing slash.
pub open spec fn resource_of(rest: Seq<char>) -> (Seq<char>, Seq<char>) {
    match rest.index_of_first('/') {
        None => (rest, Seq::<char>::empty()),
        Some(i) => {
            let remainder = rest.skip(i + 1);
            if remainder.len() > 0 && remainder.last() == '/' {
                (rest.take(i), remainder.drop_last())
            } else {
                (rest.take(i), remainder)
            }
        },
    }
}

/// A name, and the reference behind the last `@` if there is one.
pub open spec fn referenced(remainder: Seq<char>) -> Result<
    (Seq<char>, Option<Seq<char>>),
    RouteErrorView,
> {
    match remainder.index_of_last('@') {
        Some(i) => match api_name(remainder.take(i)) {
            Ok(name) => Ok((name, Some(query::decoded(remainder.skip(i + 1))))),
            Err(e) => Err(e),
        },
        None => match api_name(remainder) {
            Ok(name) => Ok((name, None)),
            Err(e) => Err(e),
        },
    }
}

/// The operation on a resource of the discovery API.
pub open spec fn api_endpoint_at(resource: Seq<char>, remainder: Seq<char>) -> Result<
    ApiEndpointView,
    RouteErrorView,
> {
    if resource == "repositories"@ {
        if remainder.len() == 0 {
            Ok(ApiEndpointView::Repositories)
        } else {
            match api_name(remainder) {
                Ok(name) => Ok(ApiEndpointView::Repository { name }),
                Err(e) => Err(e),
            }
        }
    } else if resource == "tags"@ {
        match api_name(remainder) {
            Ok(name) => Ok(ApiEndpointView::Tags { name }),
            Err(e) => Err(e),
        }
    } else if resource == "manifests"@ {
        match referenced(remainder) {
            Ok((name, Some(reference))) => Ok(ApiEndpointView::Manifest { name, reference }),
            Ok((name, None)) => Ok(ApiEndpointView::Manifests { name }),
            Err(e) => Err(e),
        }
    } else if resource == "tag-history"@ {
        if !remainder.contains('@') {
            Err(RouteErrorView::NoMatch)
        } else {
            match referenced(remainder) {
                Ok((name, Some(reference))) => Ok(ApiEndpointView::TagHistory { name, reference }),
                Ok((_, None)) => Err(RouteErrorView::NoMatch),
                Err(e) => Err(e),
            }
        }
    } else if resource == "pull-counts"@ {
        match referenced(remainder) {
            Ok((name, reference)) => Ok(ApiEndpointView::PullCounts { name, reference }),
            Err(e) => Err(e),
        }
    } else if resource == "purge"@ && remainder.len() == 0 {
        Ok(ApiEndpointView::Purge)
    } else {
        Err(RouteErrorView::NoMatch)
    }
}

/// The operation a request path of the discovery API names.
pub open spec fn api_route_spec(path: Seq<char>) -> Result<ApiEndpointView, RouteErrorView> {
    if text::starts_with(path, "/api/v1/"@) {
        let (resource, remainder) = resource_of(path.skip(8));
        api_endpoint_at(resource, remainder)
    } else {
        Err(RouteErrorView::NoMatch)
    }
}

/// The repository name written in `raw`.
fn api_name_of(raw: &str) -> (r: Result<String, RouteError>)
    ensures
        match r {
            Ok(name) => api_name(raw@) == Ok::<Seq<char>, RouteErrorView>(name@),
            Err(e) => api_name(raw@) == Err::<Seq<char>, RouteErrorView>(e@),
        },
{
    let segments = decode_segments(raw);
    let name = text::join_text(&segments, segments.len(), '/');
    proof {
        assert(text::texts(segments@).take(segments@.len() as int) =~= text::texts(segments@));
    }
    if name.as_str().is_empty() {
        Err(RouteError::NoMatch)
    } else if reference::valid_name(name.as_str()) {
        Ok(name)
    } else {
        Err(RouteError::InvalidName(name))
    }
}

/// The name in `remainder`, and the reference behind its last `@`.
fn referenced_of(remainder: &str) -> (r: Result<(String, Option<String>), RouteError>)
    ensures
        match r {
            Ok(p) => referenced(remainder@) == Ok::<
                (Seq<char>, Option<Seq<char>>),
                RouteErrorView,
            >((p.0@, text::opt_text(p.1))) && (p.1 is Some <==> remainder@.contains('@')),
            Err(e) => referenced(remainder@) == Err::<
                (Seq<char>, Option<Seq<char>>),
                RouteErrorView,
            >(e@),
        },
{
    let v = text::to_chars(remainder);
    match text::find_last(&v, '@') {
        Some(at) => {
            proof {
                assert(v@.subrange(0, at as int) =~= remainder@.take(at as int));
                assert(v@.subrange(at + 1, v@.len() as int) =~= remainder@.skip(at + 1));
                assert(remainder@.contains('@'));
            }
            let before = text::text_range(&v, 0, at);
            let after = text::text_range(&v, at + 1, v.len());
            match api_name_of(before.as_str()) {
                Ok(name) => Ok((name, Some(query::path_decode(after.as_str())))),
                Err(e) => Err(e),
            }
        },
        None => match api_name_of(remainder) {
            Ok(name) => Ok((name, None)),
            Err(e) => Err(e),
        },
    }
}

/// Split an `/api/v1/` path into an [`ApiEndpoint`].
///
/// Unlike [`route`], this does **not** match a suffix. A repository name may
/// contain `/`, so a nested `/repositories/<name>/tags` is ambiguous: a registry
/// holding both `foo` and `foo/tags` has one path that means two things. Each
/// collection is therefore its own top-level resource and the name is
/// everything after it, to the end of the path. A single manifest is
/// `<name>@<reference>`, split at the last `@`, which is unambiguous because
/// `@` appears in neither the name grammar nor the tag grammar nor a digest.
pub fn api_route(path: &str) -> (r: Result<ApiEndpoint, RouteError>)
    ensures
        api_routed(r) == api_route_spec(path@),
{
    proof {
        reveal_strlit("/api/v1/");
    }
    let rest = match text::strip_prefix(path, "/api/v1/") {
        Some(rest) => rest,
        None => return Err(RouteError::NoMatch),
    };
    let v = text::to_chars(rest.as_str());
    let (resource, remainder): (String, String) = match text::find_first(&v, '/') {
        Some(at) => {
            let end: usize = if v.len() > at + 1 && v[v.len() - 1] == '/' {
                v.len() - 1
            } else {
                v.len()
            };
            proof {
                let tail = rest@.skip(at + 1);
                assert(v@.subrange(0, at as int) =~= rest@.take(at as int));
                assert(v@.subrange(at + 1, v@.len() as int) =~= tail);
                if tail.len() > 0 {
                    assert(tail.last() == v@[v@.len() - 1]);
                    assert(v@.subrange(at + 1, v@.len() - 1) =~= tail.drop_last());
                }
            }
            (text::text_range(&v, 0, at), text::text_range(&v, at + 1, end))
        },
        None => {
            proof {
                assert(v@.subrange(0, v@.len() as int) =~= rest@);
            }
            (rest, String::new())
        },
    };
    assert((resource@, remainder@) == resource_of(path@.skip(8)));

    if text::same(resource.as_str(), "repositories") {
        if remainder.as_str().is_empty() {
            return Ok(ApiEndpoint::Repositories);
        }
        return match api_name_of(remainder.as_str()) {
            Ok(name) => Ok(ApiEndpoint::Repository { name }),
            Err(e) => Err(e),
        };
    }
    if text::same(resource.as_str(), "tags") {
        return match api_name_of(remainder.as_str()) {
            Ok(name) => Ok(ApiEndpoint::Tags { name }),
            Err(e) => Err(e),
        };
    }
    if text::same(resource.as_str(), "manifests") {
        return match referenced_of(remainder.as_str()) {
            Ok((name, Some(reference))) => Ok(ApiEndpoint::Manifest { name, reference }),
            Ok((name, None)) => Ok(ApiEndpoint::Manifests { name }),
            Err(e) => Err(e),
        };
    }
    if text::same(resource.as_str(), "tag-history") {
        // A reference is mandatory here: there is no whole-repository history.
        let v = text::to_chars(remainder.as_str());
        if text::find_last(&v, '@').is_none() {
            return Err(RouteError::NoMatch);
        }
        return match referenced_of(remainder.as_str()) {
            Ok((name, Some(reference))) => Ok(ApiEndpoint::TagHistory { name, reference }),
            Ok((_, None)) => Err(RouteError::NoMatch),
            Err(e) => Err(e),
        };
    }
    if text::same(resource.as_str(), "pull-counts") {
        return match referenced_of(remainder.as_str()) {
            Ok((name, reference)) => Ok(ApiEndpoint::PullCounts { name, reference }),
            Err(e) => Err(e),
        };
    }
    if text::same(resource.as_str(), "purge") && remainder.as_str().is_empty() {
        return Ok(ApiEndpoint::Purge);
    }
    Err(RouteError::NoMatch)
}


// ---- requests that reach no endpoint -----------------------------------------

/// The error a `/v2/` path that names no endpoint is answered with.
pub open spec fn v2_refusal(e: RouteErrorView, path: Seq<char>) -> ApiErrorView {
    match e {
        RouteErrorView::InvalidName(name) => ApiErrorView::of(ErrorCode::NameInvalid).detail(name),
        RouteErrorView::NoMatch => ApiErrorView::of(ErrorCode::NameUnknown).message(
            "unknown repository or endpoint"@,
        ).detail(path),
    }
}

/// The error a discovery path that names no operation is answered with.
pub open spec fn api_refusal(e: RouteErrorView, path: Seq<char>) -> ApiErrorView {
    match e {
        RouteErrorView::InvalidName(name) => ApiErrorView::of(ErrorCode::NameInvalid).detail(name),
        RouteErrorView::NoMatch => ApiErrorView::of(ErrorCode::NameUnknown).message(
            "unknown endpoint"@,
        ).detail(path),
    }
}

/// What a `/v2/` request is handed to, or the error it is answered with.
///
/// Any `4XX` body is permitted where no endpoint matches, but a spec-shaped one
/// is strictly more useful than a plain-text `404`.
pub fn dispatch(path: &str) -> (r: Result<Endpoint, ApiError>)
    ensures
        match r {
            Ok(e) => route_spec(path@) == Ok::<EndpointView, RouteErrorView>(e@),
            Err(e) => route_spec(path@) is Err && e@ == v2_refusal(route_spec(path@)->Err_0, path@),
        },
{
    match route(path) {
        Ok(endpoint) => Ok(endpoint),
        Err(RouteError::InvalidName(name)) => Err(
            ApiError::new(ErrorCode::NameInvalid).with_text(name.as_str()),
        ),
        Err(RouteError::NoMatch) => Err(
            ApiError::new(ErrorCode::NameUnknown).with_message(
                "unknown repository or endpoint",
            ).with_text(path),
        ),
    }
}

/// What a discovery request is handed to, or the error it is answered with.
pub fn dispatch_api(path: &str) -> (r: Result<ApiEndpoint, ApiError>)
    ensures
        match r {
            Ok(e) => api_route_spec(path@) == Ok::<ApiEndpointView, RouteErrorView>(e@),
            Err(e) => api_route_spec(path@) is Err && e@ == api_refusal(
                api_route_spec(path@)->Err_0,
                path@,
            ),
        },
{
    match api_route(path) {
        Ok(endpoint) => Ok(endpoint),
        Err(RouteError::InvalidName(name)) => Err(
            ApiError::new(ErrorCode::NameInvalid).with_text(name.as_str()),
        ),
        Err(RouteError::NoMatch) => Err(
            ApiError::new(ErrorCode::NameUnknown).with_message("unknown endpoint").with_text(path),
        ),
    }
}

/// Anything that matched no route: an error under `/api/` and `/v2/`, and
/// nothing for every other path, which is the user interface's to answer.
///
/// A machine asking for an API path that does not exist needs a JSON error, and
/// a browser asking for a page of the interface needs its shell, because the
/// interface routes client-side and a deep link has to survive a reload.
pub fn fallback(path: &str) -> (r: Option<ApiError>)
    ensures
        match r {
            Some(e) => (text::starts_with(path@, "/api/"@) || text::starts_with(path@, "/v2/"@))
                && e@ == ApiErrorView::of(ErrorCode::NameUnknown).message("not found"@).detail(path@),
            None => !text::starts_with(path@, "/api/"@) && !text::starts_with(path@, "/v2/"@),
        },
{
    if text::strip_prefix(path, "/api/").is_some() || text::strip_prefix(path, "/v2/").is_some() {
        Some(ApiError::new(ErrorCode::NameUnknown).with_message("not found").with_text(path))
    } else {
        None
    }
}

/// What a request without a credential for what it is about to do is answered,
/// or nothing where it may go on.
///
/// Nothing reads the body and nothing routes: a rejected push is rejected
/// before its first byte is read.
pub fn authenticate(
    policy: &auth::AuthPolicy,
    method: &Method,
    headers: &HeaderMap,
) -> (r: Option<ApiError>)
    ensures
        match auth::decision(
            policy@,
            method@,
            wire::header_values(*headers).get("authorization"@),
        ) {
            Ok(()) => r is None,
            Err(e) => r matches Some(refused) && refused@ == auth::refusal(e),
        },
{
    match policy.authorize(method, headers) {
        Ok(()) => None,
        Err(e) => Some(e.into_api_error()),
    }
}

// ---- what the routes promise -------------------------------------------------

/// The repository name an endpoint carries.
pub open spec fn name_carried(e: EndpointView) -> Option<Seq<char>> {
    match e {
        EndpointView::Base => None,
        EndpointView::Catalog => None,
        EndpointView::TagList { name } => Some(name),
        EndpointView::Manifest { name, .. } => Some(name),
        EndpointView::Blob { name, .. } => Some(name),
        EndpointView::Uploads { name } => Some(name),
        EndpointView::Upload { name, .. } => Some(name),
        EndpointView::Referrers { name, .. } => Some(name),
    }
}

/// The repository name an operation of the discovery API carries.
pub open spec fn api_name_carried(e: ApiEndpointView) -> Option<Seq<char>> {
    match e {
        ApiEndpointView::Repositories => None,
        ApiEndpointView::Purge => None,
        ApiEndpointView::Repository { name } => Some(name),
        ApiEndpointView::Tags { name } => Some(name),
        ApiEndpointView::Manifests { name } => Some(name),
        ApiEndpointView::Manifest { name, .. } => Some(name),
        ApiEndpointView::TagHistory { name, .. } => Some(name),
        ApiEndpointView::PullCounts { name, .. } => Some(name),
    }
}

/// An endpoint that carries a repository name carries one that satisfies the
/// grammar, and a name that was refused does not satisfy it.
pub proof fn law_routed_names_are_valid(path: Seq<char>)
    ensures
        match route_spec(path) {
            Ok(e) => name_carried(e) matches Some(name) ==> reference::is_name(name),
            Err(RouteErrorView::InvalidName(name)) => !reference::is_name(name),
            Err(RouteErrorView::NoMatch) => true,
        },
        match api_route_spec(path) {
            Ok(e) => api_name_carried(e) matches Some(name) ==> reference::is_name(name),
            Err(RouteErrorView::InvalidName(name)) => !reference::is_name(name),
            Err(RouteErrorView::NoMatch) => true,
        },
{
}

/// The pieces of a name, decoded, are the pieces of the name.
proof fn lemma_name_decodes(name: Seq<char>)
    requires
        reference::is_name(name),
    ensures
        decoded_segments(name) == text::split(name, '/'),
        forall|i: int| 0 <= i < text::split(name, '/').len() ==> (#[trigger] text::split(name, '/')[i]).len() > 0,
        text::join(decoded_segments(name), '/') == name,
{
    let pieces = text::split(name, '/');
    text::lemma_split_pieces(name, '/');
    text::lemma_join_split(name, '/');
    assert forall|i: int| 0 <= i < pieces.len() implies query::decoded(#[trigger] pieces[i]) == pieces[i] by {
        let p = pieces[i];
        assert(reference::is_component(p));
        assert forall|j: int| 0 <= j < p.len() implies '\0' <= #[trigger] p[j] <= '\u{7f}' && p[j] != '%' by {
            assert(reference::is_alnum(p[j]) || reference::separates(p, j));
        }
        query::lemma_decoded_plain(p);
    }
    assert(decoded_segments(name) =~= pieces);
}

/// No piece of `name` is empty, and each says what it spells.
spec fn is_plain(name: Seq<char>) -> bool {
    forall|i: int|
        0 <= i < text::split(name, '/').len() ==> (#[trigger] text::split(name, '/')[i]).len() > 0
            && query::decoded(text::split(name, '/')[i]) == text::split(name, '/')[i]
}

proof fn lemma_names_are_plain(name: Seq<char>)
    requires
        reference::is_name(name),
    ensures
        is_plain(name),
{
    lemma_name_decodes(name);
    assert forall|i: int| 0 <= i < text::split(name, '/').len() implies (#[trigger] text::split(
        name,
        '/',
    )[i]).len() > 0 && query::decoded(text::split(name, '/')[i]) == text::split(name, '/')[i] by {
        assert(decoded_segments(name)[i] == query::decoded(text::split(name, '/')[i]));
    }
}

/// A path made of a name and further segments is routed by those.
#[verifier::spinoff_prover]
#[verifier::rlimit(40)]
proof fn lemma_route_of(name: Seq<char>, raw: Seq<Seq<char>>)
    requires
        is_plain(name),
        raw.len() >= 2,
        forall|i: int| 0 <= i < raw.len() ==> !(#[trigger] raw[i]).contains('/') && raw[i].len() > 0,
    ensures
        route_spec("/v2/"@ + (name.push('/') + text::join(raw, '/'))) == endpoint_at(
            text::split(name, '/') + raw.map_values(|p: Seq<char>| query::decoded(p)),
        ),
{
    reveal_strlit("/v2");
    reveal_strlit("/v2/");
    let tail = raw.map_values(|p: Seq<char>| query::decoded(p));
    let pieces = text::split(name, '/');
    let rest = name.push('/') + text::join(raw, '/');
    let path = "/v2/"@ + rest;
    text::lemma_split_pieces(name, '/');
    text::lemma_split_after(name, text::join(raw, '/'), '/');
    text::lemma_split_join(raw, '/');
    assert(path.take(4) =~= "/v2/"@);
    assert(path.skip(4) =~= rest);
    assert(text::split(rest, '/') == pieces + raw);
    let segs = pieces + tail;
    assert forall|i: int| 0 <= i < segs.len() implies #[trigger] decoded_segments(rest)[i] == segs[i] && segs[i].len()
        > 0 by {
        if i < pieces.len() {
            assert(text::split(rest, '/')[i] == pieces[i]);
        } else {
            query::lemma_decoded_empty(raw[i - pieces.len()]);
        }
    }
    assert(decoded_segments(rest) =~= segs);
    assert(segs.last() == segs[segs.len() - 1]);
    assert(segs.last().len() > 0) by {
        assert(decoded_segments(rest)[segs.len() - 1].len() > 0);
    }
    assert(segments_of(rest) == segs);
    assert(!has_gap(segs)) by {
        if has_gap(segs) {
            let i = choose|i: int| 0 <= i < segs.len() && (#[trigger] segs[i]).len() == 0;
            assert(decoded_segments(rest)[i].len() > 0);
        }
    }
    assert(path.len() > 4);
    assert(segs.len() >= 3);
    assert(segs != seq!["_catalog"@]);
}

/// The fixed segments of the route table are plain text.
proof fn lemma_fixed_segments()
    ensures
        forall|s: Seq<char>|
            #![trigger query::decoded(s)]
            (s == "manifests"@ || s == "blobs"@ || s == "uploads"@ || s == "tags"@ || s == "list"@ || s
                == "referrers"@) ==> query::decoded(s) == s && !s.contains('/') && s.len() > 0,
        "manifests"@ != "blobs"@,
        "manifests"@ != "uploads"@,
        "tags"@ != "manifests"@,
        "tags"@ != "blobs"@,
        "tags"@ != "uploads"@,
        "referrers"@ != "manifests"@,
        "referrers"@ != "blobs"@,
        "referrers"@ != "uploads"@,
        "referrers"@ != "tags"@,
        "blobs"@ != "uploads"@,
{
    reveal_strlit("manifests");
    reveal_strlit("blobs");
    reveal_strlit("uploads");
    reveal_strlit("tags");
    reveal_strlit("list");
    reveal_strlit("referrers");
    assert("manifests"@ =~= seq!['m', 'a', 'n', 'i', 'f', 'e', 's', 't', 's']);
    assert("blobs"@ =~= seq!['b', 'l', 'o', 'b', 's']);
    assert("uploads"@ =~= seq!['u', 'p', 'l', 'o', 'a', 'd', 's']);
    assert("tags"@ =~= seq!['t', 'a', 'g', 's']);
    assert("list"@ =~= seq!['l', 'i', 's', 't']);
    assert("referrers"@ =~= seq!['r', 'e', 'f', 'e', 'r', 'r', 'e', 'r', 's']);
    assert("manifests"@[0] != "referrers"@[0]);
    assert("manifests"@.len() != "blobs"@.len());
    query::lemma_decoded_plain("manifests"@);
    query::lemma_decoded_plain("blobs"@);
    query::lemma_decoded_plain("uploads"@);
    query::lemma_decoded_plain("tags"@);
    query::lemma_decoded_plain("list"@);
    query::lemma_decoded_plain("referrers"@);
}

proof fn lemma_join_two(a: Seq<char>, b: Seq<char>)
    ensures
        text::join(seq![a, b], '/') == a.push('/') + b,
{
    let pieces = seq![a, b];
    assert(pieces.drop_last() =~= seq![a]);
    assert(text::join(pieces.drop_last(), '/') == a);
    assert(pieces.last() == b);
}

/// The segments of a path: those of a name, and two more.
spec fn ended(name: Seq<char>, kind: Seq<char>, last: Seq<char>) -> Seq<Seq<char>> {
    text::split(name, '/') + seq![kind, last]
}

/// A path made of a name, a fixed segment and one more is routed by those
/// two, and the name is what stands before them.
#[verifier::spinoff_prover]
#[verifier::rlimit(40)]
proof fn lemma_route_two(name: Seq<char>, kind: Seq<char>, raw: Seq<char>)
    requires
        is_plain(name),
        query::decoded(kind) == kind,
        kind.len() > 0,
        !kind.contains('/'),
        raw.len() > 0,
        !raw.contains('/'),
    ensures
        route_spec("/v2/"@ + (name.push('/') + (kind.push('/') + raw))) == endpoint_at(
            ended(name, kind, query::decoded(raw)),
        ),
        ended(name, kind, query::decoded(raw)).len() >= 3,
        ({
            let segs = ended(name, kind, query::decoded(raw));
            let n = segs.len() as int;
            &&& segs[n - 2] == kind
            &&& segs[n - 1] == query::decoded(raw)
            &&& name_in(segs.take(n - 2)) == (if reference::is_name(name) {
                Ok::<Seq<char>, RouteErrorView>(name)
            } else {
                Err(RouteErrorView::InvalidName(name))
            })
        }),
{
    let tail = seq![kind, raw];
    lemma_route_of(name, tail);
    lemma_join_two(kind, raw);
    text::lemma_join_split(name, '/');
    text::lemma_split_pieces(name, '/');
    let segs = ended(name, kind, query::decoded(raw));
    let n = segs.len() as int;
    assert(tail.map_values(|p: Seq<char>| query::decoded(p)) =~= seq![kind, query::decoded(raw)]);
    assert(segs.take(n - 2) =~= text::split(name, '/'));
}

/// Every repository's manifests are reachable, however deep its name and
/// whatever its name ends in, by any reference: the segment behind
/// `/manifests/` is decoded on its own, so a `%2F` in it never separates.
#[verifier::spinoff_prover]
#[verifier::rlimit(40)]
pub proof fn law_manifest_path(name: Seq<char>, raw: Seq<char>)
    requires
        reference::is_name(name),
        raw.len() > 0,
        !raw.contains('/'),
    ensures
        route_spec("/v2/"@ + name + "/manifests/"@ + raw) == Ok::<EndpointView, RouteErrorView>(
            EndpointView::Manifest { name, reference: query::decoded(raw) },
        ),
{
    lemma_fixed_segments();
    assert(query::decoded("manifests"@) == "manifests"@);
    lemma_names_are_plain(name);
    lemma_route_two(name, "manifests"@, raw);
    assert("/v2/"@ + (name.push('/') + ("manifests"@.push('/') + raw)) =~= "/v2/"@ + name + "/manifests/"@ + raw) by {
        reveal_strlit("/manifests/");
        reveal_strlit("manifests");
    }
}

/// Every blob of every repository is reachable by its digest.
#[verifier::spinoff_prover]
#[verifier::rlimit(40)]
pub proof fn law_blob_path(name: Seq<char>, raw: Seq<char>)
    requires
        reference::is_name(name),
        raw.len() > 0,
        !raw.contains('/'),
        query::decoded(raw) != "uploads"@,
    ensures
        route_spec("/v2/"@ + name + "/blobs/"@ + raw) == Ok::<EndpointView, RouteErrorView>(
            EndpointView::Blob { name, digest: query::decoded(raw) },
        ),
{
    lemma_fixed_segments();
    assert(query::decoded("blobs"@) == "blobs"@);
    lemma_names_are_plain(name);
    lemma_route_two(name, "blobs"@, raw);
    assert("/v2/"@ + (name.push('/') + ("blobs"@.push('/') + raw)) =~= "/v2/"@ + name + "/blobs/"@ + raw) by {
        reveal_strlit("/blobs/");
        reveal_strlit("blobs");
    }
}

/// Every repository's tags can be listed.
#[verifier::spinoff_prover]
#[verifier::rlimit(40)]
pub proof fn law_tag_list_path(name: Seq<char>)
    requires
        reference::is_name(name),
    ensures
        route_spec("/v2/"@ + name + "/tags/list"@) == Ok::<EndpointView, RouteErrorView>(
            EndpointView::TagList { name },
        ),
{
    lemma_fixed_segments();
    assert(query::decoded("tags"@) == "tags"@);
    assert(query::decoded("list"@) == "list"@);
    lemma_names_are_plain(name);
    lemma_route_two(name, "tags"@, "list"@);
    assert("/v2/"@ + (name.push('/') + ("tags"@.push('/') + "list"@)) =~= "/v2/"@ + name + "/tags/list"@) by {
        reveal_strlit("/tags/list");
        reveal_strlit("tags");
        reveal_strlit("list");
    }
}

/// Every subject's referrers can be asked for, in every repository.
#[verifier::spinoff_prover]
#[verifier::rlimit(40)]
pub proof fn law_referrers_path(name: Seq<char>, raw: Seq<char>)
    requires
        reference::is_name(name),
        raw.len() > 0,
        !raw.contains('/'),
    ensures
        route_spec("/v2/"@ + name + "/referrers/"@ + raw) == Ok::<EndpointView, RouteErrorView>(
            EndpointView::Referrers { name, digest: query::decoded(raw) },
        ),
{
    lemma_fixed_segments();
    assert(query::decoded("referrers"@) == "referrers"@);
    lemma_names_are_plain(name);
    lemma_route_two(name, "referrers"@, raw);
    assert("/v2/"@ + (name.push('/') + ("referrers"@.push('/') + raw)) =~= "/v2/"@ + name + "/referrers/"@ + raw) by {
        reveal_strlit("/referrers/");
        reveal_strlit("referrers");
    }
}

#[verifier::spinoff_prover]
#[verifier::rlimit(40)]
proof fn lemma_uploads_bare(name: Seq<char>)
    requires
        reference::is_name(name),
    ensures
        route_spec("/v2/"@ + (name.push('/') + ("blobs"@.push('/') + "uploads"@))) == Ok::<
            EndpointView,
            RouteErrorView,
        >(EndpointView::Uploads { name }),
{
    lemma_fixed_segments();
    assert(query::decoded("blobs"@) == "blobs"@);
    assert(query::decoded("uploads"@) == "uploads"@);
    lemma_names_are_plain(name);
    lemma_route_two(name, "blobs"@, "uploads"@);
}

/// An upload can be opened in every repository, with or without the trailing
/// slash.
#[verifier::spinoff_prover]
#[verifier::rlimit(40)]
pub proof fn law_uploads_path(name: Seq<char>)
    requires
        reference::is_name(name),
    ensures
        route_spec("/v2/"@ + name + "/blobs/uploads"@) == Ok::<EndpointView, RouteErrorView>(
            EndpointView::Uploads { name },
        ),
        route_spec("/v2/"@ + name + "/blobs/uploads/"@) == Ok::<EndpointView, RouteErrorView>(
            EndpointView::Uploads { name },
        ),
{
    lemma_uploads_text(name);
    lemma_uploads_bare(name);
    law_trailing_slash(name.push('/') + ("blobs"@.push('/') + "uploads"@));
}

/// The two spellings of the path an upload is opened at.
proof fn lemma_uploads_text(name: Seq<char>)
    ensures
        ({
            let rest = name.push('/') + ("blobs"@.push('/') + "uploads"@);
            &&& "/v2/"@ + rest == "/v2/"@ + name + "/blobs/uploads"@
            &&& "/v2/"@ + rest.push('/') == "/v2/"@ + name + "/blobs/uploads/"@
            &&& rest.len() > 0
            &&& rest.last() != '/'
        }),
{
    reveal_strlit("/blobs/uploads");
    reveal_strlit("/blobs/uploads/");
    reveal_strlit("blobs");
    reveal_strlit("uploads");
    let rest = name.push('/') + ("blobs"@.push('/') + "uploads"@);
    assert("/v2/"@ + rest =~= "/v2/"@ + name + "/blobs/uploads"@);
    assert("/v2/"@ + rest.push('/') =~= "/v2/"@ + name + "/blobs/uploads/"@);
}

/// A trailing slash changes nothing, where the path had none.
#[verifier::spinoff_prover]
#[verifier::rlimit(40)]
pub proof fn law_trailing_slash(rest: Seq<char>)
    requires
        rest.len() > 0,
        rest.last() != '/',
    ensures
        route_spec("/v2/"@ + rest.push('/')) == route_spec("/v2/"@ + rest),
{
    reveal_strlit("/v2");
    reveal_strlit("/v2/");
    let longer = rest.push('/');
    let a = "/v2/"@ + rest;
    let b = "/v2/"@ + longer;
    assert(a.take(4) =~= "/v2/"@ && b.take(4) =~= "/v2/"@);
    assert(a.skip(4) =~= rest && b.skip(4) =~= longer);
    let pieces = text::split(rest, '/');
    text::lemma_split_pieces(rest, '/');
    assert(longer.drop_last() =~= rest);
    assert(text::split(longer, '/') == pieces.push(Seq::<char>::empty()));
    query::lemma_decoded_empty(Seq::<char>::empty());
    let front = text::split(rest.drop_last(), '/');
    assert(pieces.last() == front.last().push(rest.last()));
    query::lemma_decoded_empty(pieces.last());
    let all = decoded_segments(longer);
    assert(all.last() == query::decoded(Seq::<char>::empty()));
    assert(decoded_segments(rest).last() == query::decoded(pieces.last()));
    assert(all.drop_last() =~= decoded_segments(rest));
}

/// Every upload session is reachable under the id it was given.
#[verifier::spinoff_prover]
#[verifier::rlimit(40)]
pub proof fn law_upload_path(name: Seq<char>, raw: Seq<char>)
    requires
        reference::is_name(name),
        raw.len() > 0,
        !raw.contains('/'),
    ensures
        route_spec("/v2/"@ + name + "/blobs/uploads/"@ + raw) == Ok::<EndpointView, RouteErrorView>(
            EndpointView::Upload { name, id: query::decoded(raw) },
        ),
{
    lemma_fixed_segments();
    text::lemma_join_split(name, '/');
    text::lemma_split_pieces(name, '/');
    let tail = seq!["blobs"@, "uploads"@, raw];
    assert(query::decoded("blobs"@) == "blobs"@);
    assert(query::decoded("uploads"@) == "uploads"@);
    lemma_names_are_plain(name);
    lemma_route_of(name, tail);
    assert(tail.drop_last() =~= seq!["blobs"@, "uploads"@]);
    lemma_join_two("blobs"@, "uploads"@);
    assert("/v2/"@ + (name.push('/') + text::join(tail, '/')) =~= "/v2/"@ + name + "/blobs/uploads/"@
        + raw) by {
        reveal_strlit("/blobs/uploads/");
        reveal_strlit("blobs");
        reveal_strlit("uploads");
    }
    let segs = text::split(name, '/') + tail.map_values(|p: Seq<char>| query::decoded(p));
    let n = segs.len() as int;
    assert(segs[n - 3] == "blobs"@);
    assert(segs[n - 2] == "uploads"@);
    assert(segs[n - 1] == query::decoded(raw));
    assert(segs.take(n - 3) =~= text::split(name, '/'));
}

/// The path of a resource of the discovery API.
pub open spec fn api_path(resource: Seq<char>, remainder: Seq<char>) -> Seq<char> {
    "/api/v1/"@ + resource + seq!['/'] + remainder
}

/// A resource's path is split where it was put together.
proof fn lemma_api_route_of(resource: Seq<char>, remainder: Seq<char>)
    requires
        !resource.contains('/'),
        remainder.len() > 0 ==> remainder.last() != '/',
    ensures
        api_route_spec(api_path(resource, remainder)) == api_endpoint_at(resource, remainder),
{
    reveal_strlit("/api/v1/");
    let path = api_path(resource, remainder);
    let rest = path.skip(8);
    assert(path.take(8) =~= "/api/v1/"@);
    assert(rest =~= resource + seq!['/'] + remainder);
    rest.index_of_first_ensures('/');
    let at = resource.len() as int;
    assert(rest[at] == '/');
    assert(rest.contains('/'));
    let i = rest.index_of_first('/')->0;
    assert(i == at) by {
        if i < at {
            assert(rest[i] == resource[i]);
            assert(resource.contains('/'));
        }
    }
    assert(rest.take(at) =~= resource);
    assert(rest.skip(at + 1) =~= remainder);
}

/// A repository name written into a path is read back from it.
proof fn lemma_api_name_reads_back(name: Seq<char>)
    requires
        reference::is_name(name),
    ensures
        api_name(name) == Ok::<Seq<char>, RouteErrorView>(name),
        name.last() != '/',
        referenced(name) == Ok::<(Seq<char>, Option<Seq<char>>), RouteErrorView>((name, None)),
{
    lemma_name_decodes(name);
    reference::lemma_name_chars(name);
    let pieces = text::split(name, '/');
    text::lemma_split_pieces(name, '/');
    assert(name.last() != '/') by {
        if name.last() == '/' {
            assert(pieces[pieces.len() - 1] == Seq::<char>::empty());
            assert(reference::is_component(pieces[pieces.len() - 1]));
        }
    }
    name.index_of_last_ensures('@');
}

/// A name and a reference written into a path are read back from it.
proof fn lemma_api_reference_reads_back(name: Seq<char>, raw: Seq<char>)
    requires
        reference::is_name(name),
        !raw.contains('@'),
        raw.len() > 0 ==> raw.last() != '/',
    ensures
        (name + seq!['@'] + raw).last() != '/',
        (name + seq!['@'] + raw).contains('@'),
        referenced(name + seq!['@'] + raw) == Ok::<
            (Seq<char>, Option<Seq<char>>),
            RouteErrorView,
        >((name, Some(query::decoded(raw)))),
{
    let r = name + seq!['@'] + raw;
    lemma_api_name_reads_back(name);
    r.index_of_last_ensures('@');
    let at = name.len() as int;
    assert(r[at] == '@');
    assert(r.contains('@'));
    let i = r.index_of_last('@')->0;
    assert(i == at) by {
        if i > at {
            assert(r[i] == raw[i - at - 1]);
            assert(raw.contains('@'));
        }
    }
    assert(r.take(at) =~= name);
    assert(r.skip(at + 1) =~= raw);
}

proof fn lemma_resources()
    ensures
        !"repositories"@.contains('/'),
        !"tags"@.contains('/'),
        !"manifests"@.contains('/'),
        !"tag-history"@.contains('/'),
        !"pull-counts"@.contains('/'),
        !"purge"@.contains('/'),
        "tags"@ != "repositories"@,
        "manifests"@ != "repositories"@,
        "manifests"@ != "tags"@,
        "tag-history"@ != "repositories"@,
        "tag-history"@ != "tags"@,
        "tag-history"@ != "manifests"@,
        "pull-counts"@ != "repositories"@,
        "pull-counts"@ != "tags"@,
        "pull-counts"@ != "manifests"@,
        "pull-counts"@ != "tag-history"@,
{
    reveal_strlit("repositories");
    reveal_strlit("tags");
    reveal_strlit("manifests");
    reveal_strlit("tag-history");
    reveal_strlit("pull-counts");
    reveal_strlit("purge");
    assert("repositories"@ =~= seq!['r', 'e', 'p', 'o', 's', 'i', 't', 'o', 'r', 'i', 'e', 's']);
    assert("tags"@ =~= seq!['t', 'a', 'g', 's']);
    assert("manifests"@ =~= seq!['m', 'a', 'n', 'i', 'f', 'e', 's', 't', 's']);
    assert("tag-history"@ =~= seq!['t', 'a', 'g', '-', 'h', 'i', 's', 't', 'o', 'r', 'y']);
    assert("pull-counts"@ =~= seq!['p', 'u', 'l', 'l', '-', 'c', 'o', 'u', 'n', 't', 's']);
    assert("purge"@ =~= seq!['p', 'u', 'r', 'g', 'e']);
    assert("pull-counts"@[0] != "tag-history"@[0]);
}

/// No repository hides another from the discovery API: each one's own page and
/// its collections are reached under its full name, whatever that name is, and
/// the name is read back exactly.
#[verifier::spinoff_prover]
#[verifier::rlimit(40)]
pub proof fn law_api_collection_paths(name: Seq<char>)
    requires
        reference::is_name(name),
    ensures
        api_route_spec(api_path("repositories"@, name)) == Ok::<ApiEndpointView, RouteErrorView>(
            ApiEndpointView::Repository { name },
        ),
        api_route_spec(api_path("tags"@, name)) == Ok::<ApiEndpointView, RouteErrorView>(
            ApiEndpointView::Tags { name },
        ),
        api_route_spec(api_path("manifests"@, name)) == Ok::<ApiEndpointView, RouteErrorView>(
            ApiEndpointView::Manifests { name },
        ),
        api_route_spec(api_path("pull-counts"@, name)) == Ok::<ApiEndpointView, RouteErrorView>(
            ApiEndpointView::PullCounts { name, reference: None },
        ),
        api_route_spec(api_path("tag-history"@, name)) == Err::<ApiEndpointView, RouteErrorView>(
            RouteErrorView::NoMatch,
        ),
{
    lemma_resources();
    lemma_api_name_reads_back(name);
    reference::lemma_name_chars(name);
    lemma_api_route_of("repositories"@, name);
    lemma_api_route_of("tags"@, name);
    lemma_api_route_of("manifests"@, name);
    lemma_api_route_of("pull-counts"@, name);
    lemma_api_route_of("tag-history"@, name);
}

/// `<name>@<reference>` is taken apart where it was put together, for every
/// name and every reference segment that holds no `@`: neither a tag nor a
/// digest holds one, and an encoded one is written `%40`.
#[verifier::spinoff_prover]
#[verifier::rlimit(40)]
pub proof fn law_api_reference_paths(name: Seq<char>, raw: Seq<char>)
    requires
        reference::is_name(name),
        !raw.contains('@'),
        raw.len() > 0 ==> raw.last() != '/',
    ensures
        api_route_spec(api_path("manifests"@, name + seq!['@'] + raw)) == Ok::<
            ApiEndpointView,
            RouteErrorView,
        >(ApiEndpointView::Manifest { name, reference: query::decoded(raw) }),
        api_route_spec(api_path("tag-history"@, name + seq!['@'] + raw)) == Ok::<
            ApiEndpointView,
            RouteErrorView,
        >(ApiEndpointView::TagHistory { name, reference: query::decoded(raw) }),
        api_route_spec(api_path("pull-counts"@, name + seq!['@'] + raw)) == Ok::<
            ApiEndpointView,
            RouteErrorView,
        >(ApiEndpointView::PullCounts { name, reference: Some(query::decoded(raw)) }),
{
    lemma_resources();
    lemma_api_reference_reads_back(name, raw);
    let r = name + seq!['@'] + raw;
    lemma_api_route_of("manifests"@, r);
    lemma_api_route_of("tag-history"@, r);
    lemma_api_route_of("pull-counts"@, r);
}

/// Plain ASCII text is spelled as it is.
proof fn lemma_ascii_is_plain(name: Seq<char>)
    requires
        vstd::utf8::is_ascii_chars(name),
        !name.contains('%'),
        forall|i: int|
            0 <= i < text::split(name, '/').len() ==> (#[trigger] text::split(name, '/')[i]).len()
                > 0,
    ensures
        is_plain(name),
{
    let pieces = text::split(name, '/');
    assert forall|i: int| 0 <= i < pieces.len() implies (#[trigger] pieces[i]).len() > 0
        && query::decoded(pieces[i]) == pieces[i] by {
        let p = pieces[i];
        text::lemma_piece_chars(name, '/', i);
        assert forall|j: int| 0 <= j < p.len() implies '\0' <= #[trigger] p[j] <= '\u{7f}' && p[j]
            != '%' by {
            assert(p.contains(p[j]));
            assert(name.contains(p[j]));
            let k = choose|k: int| 0 <= k < name.len() && name[k] == p[j];
            assert('\0' <= name[k] <= '\u{7f}');
        }
        query::lemma_decoded_plain(p);
    }
}

/// Segments that end as an endpoint does name what stands before them, or say that
/// it is no name.
#[verifier::spinoff_prover]
proof fn lemma_ends_malformed(segments: Seq<Seq<char>>, name: Seq<char>)
    requires
        segments.len() >= 3,
        name_in(segments.take(segments.len() - 2)) == Err::<Seq<char>, RouteErrorView>(
            RouteErrorView::InvalidName(name),
        ),
        segments[segments.len() - 2] != "uploads"@,
        ({
            let kind = segments[segments.len() - 2];
            kind == "manifests"@ || kind == "blobs"@ || kind == "referrers"@ || (kind == "tags"@
                && segments[segments.len() - 1] == "list"@)
        }),
    ensures
        endpoint_at(segments) == Err::<EndpointView, RouteErrorView>(
            RouteErrorView::InvalidName(name),
        ),
{
}

#[verifier::spinoff_prover]
#[verifier::rlimit(40)]
proof fn lemma_malformed_before(name: Seq<char>, kind: Seq<char>, raw: Seq<char>)
    requires
        is_plain(name),
        !reference::is_name(name),
        kind == "manifests"@ || kind == "blobs"@ || kind == "referrers"@ || (kind == "tags"@
            && query::decoded(raw) == "list"@),
        raw.len() > 0,
        !raw.contains('/'),
    ensures
        route_spec("/v2/"@ + (name.push('/') + (kind.push('/') + raw))) == Err::<
            EndpointView,
            RouteErrorView,
        >(RouteErrorView::InvalidName(name)),
{
    lemma_fixed_segments();
    assert(query::decoded(kind) == kind);
    lemma_route_two(name, kind, raw);
    lemma_ends_malformed(ended(name, kind, query::decoded(raw)), name);
}

proof fn lemma_list_is_plain()
    ensures
        "list"@.len() > 0,
        !"list"@.contains('/'),
        query::decoded("list"@) == "list"@,
{
    lemma_fixed_segments();
    let list = query::decoded("list"@);
}

/// A path that has the shape of an endpoint and a name that is none is answered
/// with that name, whatever the endpoint: the client is told what is wrong with the
/// path rather than that there is nothing there.
#[verifier::spinoff_prover]
#[verifier::rlimit(40)]
pub proof fn law_malformed_name_is_told(name: Seq<char>, raw: Seq<char>)
    requires
        !reference::is_name(name),
        vstd::utf8::is_ascii_chars(name),
        !name.contains('%'),
        forall|i: int|
            0 <= i < text::split(name, '/').len() ==> (#[trigger] text::split(name, '/')[i]).len()
                > 0,
        raw.len() > 0,
        !raw.contains('/'),
    ensures
        route_spec("/v2/"@ + name + "/manifests/"@ + raw) == Err::<EndpointView, RouteErrorView>(
            RouteErrorView::InvalidName(name),
        ),
        route_spec("/v2/"@ + name + "/blobs/"@ + raw) == Err::<EndpointView, RouteErrorView>(
            RouteErrorView::InvalidName(name),
        ),
        route_spec("/v2/"@ + name + "/referrers/"@ + raw) == Err::<EndpointView, RouteErrorView>(
            RouteErrorView::InvalidName(name),
        ),
        route_spec("/v2/"@ + name + "/tags/list"@) == Err::<EndpointView, RouteErrorView>(
            RouteErrorView::InvalidName(name),
        ),
{
    lemma_ascii_is_plain(name);
    lemma_endings(name, raw);
    lemma_list_is_plain();
    lemma_malformed_before(name, "manifests"@, raw);
    lemma_malformed_before(name, "blobs"@, raw);
    lemma_malformed_before(name, "referrers"@, raw);
    lemma_malformed_before(name, "tags"@, "list"@);
}

/// The paths of a name's endpoints, segment by segment.
proof fn lemma_endings(name: Seq<char>, raw: Seq<char>)
    ensures
        "/v2/"@ + name + "/manifests/"@ + raw == "/v2/"@ + (name.push('/') + ("manifests"@.push('/')
            + raw)),
        "/v2/"@ + name + "/blobs/"@ + raw == "/v2/"@ + (name.push('/') + ("blobs"@.push('/') + raw)),
        "/v2/"@ + name + "/referrers/"@ + raw == "/v2/"@ + (name.push('/') + ("referrers"@.push('/')
            + raw)),
        "/v2/"@ + name + "/tags/list"@ == "/v2/"@ + (name.push('/') + ("tags"@.push('/') + "list"@)),
{
    reveal_strlit("/manifests/");
    reveal_strlit("manifests");
    reveal_strlit("/blobs/");
    reveal_strlit("blobs");
    reveal_strlit("/referrers/");
    reveal_strlit("referrers");
    reveal_strlit("/tags/list");
    reveal_strlit("tags");
    reveal_strlit("list");
    assert("/v2/"@ + name + "/manifests/"@ + raw =~= "/v2/"@ + (name.push('/') + ("manifests"@.push(
        '/',
    ) + raw)));
    assert("/v2/"@ + name + "/blobs/"@ + raw =~= "/v2/"@ + (name.push('/') + ("blobs"@.push('/')
        + raw)));
    assert("/v2/"@ + name + "/referrers/"@ + raw =~= "/v2/"@ + (name.push('/') + ("referrers"@.push(
        '/',
    ) + raw)));
    assert("/v2/"@ + name + "/tags/list"@ =~= "/v2/"@ + (name.push('/') + ("tags"@.push('/')
        + "list"@)));
}

/// The resources that carry no name are where they are, with or without a trailing
/// slash.
#[verifier::spinoff_prover]
#[verifier::rlimit(40)]
pub proof fn law_unnamed_paths()
    ensures
        route_spec("/v2"@) == Ok::<EndpointView, RouteErrorView>(EndpointView::Base),
        route_spec("/v2/"@) == Ok::<EndpointView, RouteErrorView>(EndpointView::Base),
        route_spec("/v2/"@ + "_catalog"@) == Ok::<EndpointView, RouteErrorView>(
            EndpointView::Catalog,
        ),
        api_route_spec("/api/v1/"@ + "repositories"@) == Ok::<ApiEndpointView, RouteErrorView>(
            ApiEndpointView::Repositories,
        ),
        api_route_spec(api_path("repositories"@, Seq::empty())) == Ok::<
            ApiEndpointView,
            RouteErrorView,
        >(ApiEndpointView::Repositories),
        api_route_spec("/api/v1/"@ + "purge"@) == Ok::<ApiEndpointView, RouteErrorView>(
            ApiEndpointView::Purge,
        ),
        api_route_spec(api_path("purge"@, Seq::empty())) == Ok::<ApiEndpointView, RouteErrorView>(
            ApiEndpointView::Purge,
        ),
{
    lemma_catalog();
    lemma_resources();
    lemma_purge_is_another();
    lemma_api_route_of("repositories"@, Seq::empty());
    lemma_api_route_of("purge"@, Seq::empty());
    lemma_api_bare("repositories"@);
    lemma_api_bare("purge"@);
}

proof fn lemma_purge_is_another()
    ensures
        "purge"@ != "repositories"@,
        "purge"@ != "tags"@,
        "purge"@ != "manifests"@,
        "purge"@ != "tag-history"@,
        "purge"@ != "pull-counts"@,
{
    reveal_strlit("purge");
    reveal_strlit("repositories");
    reveal_strlit("tags");
    reveal_strlit("manifests");
    reveal_strlit("tag-history");
    reveal_strlit("pull-counts");
    assert("purge"@.len() == 5 && "repositories"@.len() == 12 && "tags"@.len() == 4);
    assert("manifests"@.len() == 9 && "tag-history"@.len() == 11 && "pull-counts"@.len() == 11);
}

proof fn lemma_api_bare(resource: Seq<char>)
    requires
        !resource.contains('/'),
    ensures
        api_route_spec("/api/v1/"@ + resource) == api_endpoint_at(resource, Seq::empty()),
{
    reveal_strlit("/api/v1/");
    let path = "/api/v1/"@ + resource;
    assert(path.take(8) =~= "/api/v1/"@);
    assert(path.skip(8) =~= resource);
    resource.index_of_first_ensures('/');
}

proof fn lemma_catalog()
    ensures
        route_spec("/v2/"@ + "_catalog"@) == Ok::<EndpointView, RouteErrorView>(
            EndpointView::Catalog,
        ),
{
    reveal_strlit("/v2");
    reveal_strlit("/v2/");
    reveal_strlit("_catalog");
    let rest = "_catalog"@;
    let path = "/v2/"@ + rest;
    assert(rest =~= seq!['_', 'c', 'a', 't', 'a', 'l', 'o', 'g']);
    assert(!rest.contains('/') && !rest.contains('%'));
    assert(path.take(4) =~= "/v2/"@);
    assert(path.skip(4) =~= rest);
    text::lemma_split_single(rest, '/');
    query::lemma_decoded_plain(rest);
    assert(text::split(rest, '/') =~= seq![rest]);
    assert(decoded_segments(rest) =~= seq![rest]);
    assert(decoded_segments(rest).last() == rest);
    assert(segments_of(rest) == seq![rest]);
    assert(!has_gap(seq![rest]));
}

/// A request that reaches no endpoint is told why: a malformed name is a `400` that
/// quotes the name, and anything else a `404` that quotes the path.
pub proof fn law_unrouted_requests_are_told_why(
    path: &str,
    r: Result<Endpoint, ApiError>,
    api: Result<ApiEndpoint, ApiError>,
)
    requires
        call_ensures(dispatch, (path,), r),
        call_ensures(dispatch_api, (path,), api),
    ensures
        r is Ok <==> route_spec(path@) is Ok,
        r matches Ok(e) ==> route_spec(path@) == Ok::<EndpointView, RouteErrorView>(e@),
        r matches Err(e) ==> match route_spec(path@)->Err_0 {
            RouteErrorView::InvalidName(name) => e@.status == 400 && e@.code
                == ErrorCode::NameInvalid && e@.detail == Some(crate::json::Json::Text(name)),
            RouteErrorView::NoMatch => e@.status == 404 && e@.code == ErrorCode::NameUnknown
                && e@.detail == Some(crate::json::Json::Text(path@)),
        },
        api is Ok <==> api_route_spec(path@) is Ok,
        api matches Ok(e) ==> api_route_spec(path@) == Ok::<ApiEndpointView, RouteErrorView>(e@),
        api matches Err(e) ==> match api_route_spec(path@)->Err_0 {
            RouteErrorView::InvalidName(name) => e@.status == 400 && e@.code
                == ErrorCode::NameInvalid && e@.detail == Some(crate::json::Json::Text(name)),
            RouteErrorView::NoMatch => e@.status == 404 && e@.code == ErrorCode::NameUnknown
                && e@.detail == Some(crate::json::Json::Text(path@)),
        },
{
}

/// Outside the interface's own paths everything unknown is a `404` that quotes the
/// path, and every other path is the interface's.
pub proof fn law_fallback_answers_for_the_apis(path: &str, r: Option<ApiError>)
    requires
        call_ensures(fallback, (path,), r),
    ensures
        r is Some <==> text::starts_with(path@, "/api/"@) || text::starts_with(path@, "/v2/"@),
        r matches Some(e) ==> e@.status == 404 && e@.code == ErrorCode::NameUnknown && e@.detail
            == Some(crate::json::Json::Text(path@)) && !e@.bare,
{
}

/// A request goes on exactly where the policy admits it, and is otherwise answered
/// `401`, or `403` where its credential is genuine and does not suffice.
pub proof fn law_only_admitted_requests_go_on(
    policy: auth::AuthPolicy,
    method: Method,
    headers: HeaderMap,
    r: Option<ApiError>,
)
    requires
        call_ensures(authenticate, (&policy, &method, &headers), r),
    ensures
        ({
            let decided = auth::decision(
                policy@,
                method@,
                wire::header_values(headers).get("authorization"@),
            );
            &&& r is None <==> decided is Ok
            &&& r matches Some(e) ==> e@.status == (if decided == Err::<(), auth::AuthError>(
                auth::AuthError::Insufficient,
            ) {
                403u16
            } else {
                401u16
            })
        }),
{
    auth::law_challenge_exactly_on_401(auth::AuthError::Missing);
    auth::law_challenge_exactly_on_401(auth::AuthError::Malformed);
    auth::law_challenge_exactly_on_401(auth::AuthError::Invalid);
    auth::law_challenge_exactly_on_401(auth::AuthError::Insufficient);
}

/// What a server is made of is what every request is served from, and without
/// counters of its own it counts nothing.
pub proof fn law_state_is_what_it_is_made_of<R>(
    registry: Arc<R>,
    config: ServerConfig,
    counters: Arc<PullCounters>,
    plain: AppState<R>,
    counting: AppState<R>,
)
    requires
        call_ensures(AppState::<R>::new, (registry, config), plain),
        call_ensures(AppState::<R>::with_counters, (registry, config, counters), counting),
    ensures
        plain.registry == registry && *plain.config == config,
        !plain.counters.spec_enabled(),
        counting.registry == registry && *counting.config == config,
        counting.counters == counters,
{
}

} // verus!
