//! What each endpoint does with a request, apart from doing it.
//!
//! Method dispatch happens here rather than in a router because a `/v2/`
//! operation is recognised by its path's suffix; by the time an endpoint exists
//! the method is just a match arm. It also keeps `HEAD` a first-class path: one
//! that carries a real `Content-Length` with an empty body.

pub mod api;
pub mod bodies;
pub mod referrers;

use std::sync::Arc;

use axum::http::HeaderMap;
use vstd::prelude::*;
use vstd::string::*;

use crate::app::AppState;
use crate::config::ServerConfig;
use crate::counters::PullCounters;
use crate::error;
use crate::error::{ApiError, ApiErrorView, ErrorCode};
use crate::json::Json;
use crate::query;
use crate::reference::Digest;
use crate::seam::{OpsError, OpsErrorView};
use crate::text;
use crate::wire;
use crate::wire::{Method, Reply};

verus! {

/// The digest of the bytes in the response.
pub const DOCKER_CONTENT_DIGEST: &'static str = "docker-content-digest";

/// Acknowledges that a pushed manifest's `subject` was processed.
pub const OCI_SUBJECT: &'static str = "oci-subject";

/// One per tag accepted from a `?tag=` parameter.
pub const OCI_TAG: &'static str = "oci-tag";

/// Optional minimum chunk size advertised on an upload `POST`.
pub const OCI_CHUNK_MIN_LENGTH: &'static str = "oci-chunk-min-length";

/// Names the referrers filters that were actually applied.
pub const OCI_FILTERS_APPLIED: &'static str = "oci-filters-applied";

pub const MEDIA_TYPE_INDEX: &'static str = "application/vnd.oci.image.index.v1+json";

pub const MEDIA_TYPE_MANIFEST: &'static str = "application/vnd.oci.image.manifest.v1+json";

pub const MEDIA_TYPE_OCTET_STREAM: &'static str = "application/octet-stream";

// ---- the request -------------------------------------------------------------

/// Everything a handler needs about the request except its body.
pub struct Ctx<R: ?Sized> {
    pub state: AppState<R>,
    pub method: Method,
    pub path: String,
    pub query: Vec<(String, String)>,
    pub headers: HeaderMap,
}

/// A parameter read as a switch: on when it is there, unless it says `false`,
/// `0` or `no`.
pub open spec fn switch(value: Option<Seq<char>>) -> bool {
    match value {
        None => false,
        Some(v) => v != "false"@ && v != "0"@ && v != "no"@,
    }
}

impl<R: ?Sized> Ctx<R> {
    /// The parameters of the request.
    pub open spec fn params(&self) -> Seq<(Seq<char>, Seq<char>)> {
        query::pair_texts(self.query@)
    }

    pub fn config(&self) -> (r: &ServerConfig)
        ensures
            *r == *self.state.config,
    {
        &self.state.config
    }

    pub fn registry(&self) -> (r: &R)
        ensures
            r == &*self.state.registry,
    {
        &self.state.registry
    }

    /// Where a served pull is counted.
    pub fn counters(&self) -> (r: &Arc<PullCounters>)
        ensures
            *r == self.state.counters,
    {
        &self.state.counters
    }

    /// The text of the first `name` header, where it is visible ASCII.
    pub fn header(&self, name: &str) -> (r: Option<String>)
        ensures
            text::opt_text(r) == (match wire::header_values(self.headers).get(text::lower(name@)) {
                Some(bytes) => wire::header_text(bytes),
                None => None,
            }),
    {
        match wire::header_value(&self.headers, name) {
            Some(bytes) => wire::to_str(&bytes),
            None => None,
        }
    }

    /// The value of the first parameter named `key`.
    pub fn param(&self, key: &str) -> (r: Option<&str>)
        ensures
            match r {
                Some(v) => query::value_of(self.params(), key@) == Some(v@),
                None => query::value_of(self.params(), key@) is None,
            },
    {
        query::first(&self.query, key)
    }

    /// A query parameter read as a switch.
    ///
    /// Bare `?dry-run` is on, as is any value but the three ways people write
    /// off: the alternative is a caller who sent `?dry-run` and got a pass that
    /// deleted things.
    pub fn flag(&self, key: &str) -> (r: bool)
        ensures
            r == switch(query::value_of(self.params(), key@)),
    {
        match self.param(key) {
            None => false,
            Some(value) => !text::same(value, "false") && !text::same(value, "0") && !text::same(
                value,
                "no",
            ),
        }
    }
}

/// A switch is off where it is not there or says `false`, `0` or `no`, and on with
/// anything else, an empty value among it.
pub proof fn law_switch_is_off_only_where_it_says_so(value: Option<Seq<char>>)
    ensures
        !switch(value) <==> value is None || value->0 == "false"@ || value->0 == "0"@ || value->0
            == "no"@,
        switch(Some(Seq::empty())),
        switch(Some("true"@)),
{
    reveal_strlit("false");
    reveal_strlit("0");
    reveal_strlit("no");
    reveal_strlit("true");
    assert("false"@.len() == 5);
    assert("0"@.len() == 1);
    assert("no"@.len() == 2);
    assert("true"@.len() == 4);
}

// ---- errors ------------------------------------------------------------------

/// The error for a method the endpoint does not take.
pub open spec fn not_allowed(allow: Seq<char>) -> ApiErrorView {
    ApiErrorView::of(ErrorCode::Unsupported).message("method not allowed"@).header("allow"@, allow)
}

/// `405` with the `Allow` header RFC 9110 requires on one.
pub fn method_not_allowed(allow: &str) -> (r: ApiError)
    ensures
        r@ == not_allowed(allow@),
{
    ApiError::new(ErrorCode::Unsupported).with_message("method not allowed").with_header(
        "allow",
        allow,
    )
}

/// The spec error for a failure from below.
pub open spec fn ops_failure(e: OpsErrorView) -> ApiErrorView {
    match e {
        OpsErrorView::RepoUnknown => ApiErrorView::of(ErrorCode::NameUnknown),
        OpsErrorView::ManifestUnknown => ApiErrorView::of(ErrorCode::ManifestUnknown),
        OpsErrorView::BlobUnknown => ApiErrorView::of(ErrorCode::BlobUnknown),
        OpsErrorView::UploadUnknown => ApiErrorView::of(ErrorCode::BlobUploadUnknown),
        OpsErrorView::OffsetMismatch { current } => ApiErrorView::of(
            ErrorCode::BlobUploadInvalid,
        ).status(error::RANGE_NOT_SATISFIABLE).message("chunk is out of order"@).detail(
            "expected the chunk to start at "@ + text::decimal(current as nat),
        ),
        OpsErrorView::DigestMismatch => ApiErrorView::of(ErrorCode::DigestInvalid),
        OpsErrorView::ManifestInvalid(detail) => ApiErrorView::of(
            ErrorCode::ManifestInvalid,
        ).detail(detail),
        OpsErrorView::ManifestBlobUnknown { digest } => ApiErrorView::of(
            ErrorCode::ManifestBlobUnknown,
        ).detail(digest.text() + " is not present in this repository"@),
        OpsErrorView::SizeMismatch { declared, actual } => ApiErrorView::of(
            ErrorCode::SizeInvalid,
        ).detail(
            "expected "@ + text::decimal(declared as nat) + " bytes, got "@ + text::decimal(
                actual as nat,
            ),
        ),
        OpsErrorView::BodyTooLarge { limit } => ApiErrorView::of(ErrorCode::SizeInvalid).status(
            error::PAYLOAD_TOO_LARGE,
        ).message("request body exceeds the maximum accepted size"@).detail(
            "limit is "@ + text::decimal(limit as nat) + " bytes"@,
        ),
        OpsErrorView::BodyIncomplete(detail) => ApiErrorView::of(
            ErrorCode::BlobUploadInvalid,
        ).message("the request body did not arrive complete"@).detail(detail),
        OpsErrorView::Internal(detail) => ApiErrorView::internal(detail),
    }
}

/// Translate a failure from below into a spec error.
///
/// The one non-obvious mapping is [`OpsError::OffsetMismatch`]: an out-of-order
/// chunk is a `416`, and the code is `BLOB_UPLOAD_INVALID`, which is in the
/// spec's set.
pub fn ops_error(err: OpsError) -> (r: ApiError)
    ensures
        r@ == ops_failure(err@),
{
    match err {
        OpsError::RepoUnknown => ApiError::new(ErrorCode::NameUnknown),
        OpsError::ManifestUnknown => ApiError::new(ErrorCode::ManifestUnknown),
        OpsError::BlobUnknown => ApiError::new(ErrorCode::BlobUnknown),
        OpsError::UploadUnknown => ApiError::new(ErrorCode::BlobUploadUnknown),
        OpsError::OffsetMismatch { current } => {
            let mut detail = text::copy("expected the chunk to start at ");
            detail.append(text::decimal_text(current).as_str());
            ApiError::new(ErrorCode::BlobUploadInvalid).with_status(
                error::RANGE_NOT_SATISFIABLE,
            ).with_message("chunk is out of order").with_text(detail.as_str())
        },
        OpsError::DigestMismatch => ApiError::new(ErrorCode::DigestInvalid),
        OpsError::ManifestInvalid(detail) => ApiError::new(ErrorCode::ManifestInvalid).with_text(
            detail.as_str(),
        ),
        OpsError::ManifestBlobUnknown { digest } => {
            let mut detail = digest.to_text();
            detail.append(" is not present in this repository");
            ApiError::new(ErrorCode::ManifestBlobUnknown).with_text(detail.as_str())
        },
        OpsError::SizeMismatch { declared, actual } => {
            let mut detail = text::copy("expected ");
            detail.append(text::decimal_text(declared).as_str());
            detail.append(" bytes, got ");
            detail.append(text::decimal_text(actual).as_str());
            ApiError::new(ErrorCode::SizeInvalid).with_text(detail.as_str())
        },
        OpsError::BodyTooLarge { limit } => {
            let mut detail = text::copy("limit is ");
            detail.append(text::decimal_text(limit).as_str());
            detail.append(" bytes");
            ApiError::new(ErrorCode::SizeInvalid).with_status(
                error::PAYLOAD_TOO_LARGE,
            ).with_message("request body exceeds the maximum accepted size").with_text(
                detail.as_str(),
            )
        },
        OpsError::BodyIncomplete(detail) => ApiError::new(
            ErrorCode::BlobUploadInvalid,
        ).with_message("the request body did not arrive complete").with_text(detail.as_str()),
        OpsError::Internal(detail) => ApiError::internal(detail.as_str()),
    }
}

/// Every failure from below is answered with an error status, and only an
/// internal one is told to the log and kept from the client.
pub proof fn law_failures_are_errors(e: OpsErrorView)
    ensures
        400 <= ops_failure(e).status <= 599,
        ops_failure(e).bare <==> e is Internal,
        ops_failure(e).logged is Some <==> e is Internal,
        ops_failure(e).status == 500 <==> e is Internal,
{
}

/// Each failure is told under the code and the status of its own, with what the
/// client can act on: where an out-of-order chunk was expected, what is missing,
/// what is wrong, how long the body was and should have been, or how long it may
/// be.
pub proof fn law_failures_say_what_went_wrong(e: OpsErrorView)
    ensures
        ({
            let told = ops_failure(e);
            match e {
                OpsErrorView::RepoUnknown => told.status == 404 && told.code
                    == ErrorCode::NameUnknown,
                OpsErrorView::ManifestUnknown => told.status == 404 && told.code
                    == ErrorCode::ManifestUnknown,
                OpsErrorView::BlobUnknown => told.status == 404 && told.code
                    == ErrorCode::BlobUnknown,
                OpsErrorView::UploadUnknown => told.status == 404 && told.code
                    == ErrorCode::BlobUploadUnknown,
                OpsErrorView::OffsetMismatch { current } => told.status == 416 && told.code
                    == ErrorCode::BlobUploadInvalid && told.detail == Some(
                    Json::Text(
                        "expected the chunk to start at "@ + text::decimal(current as nat),
                    ),
                ),
                OpsErrorView::DigestMismatch => told.status == 400 && told.code
                    == ErrorCode::DigestInvalid,
                OpsErrorView::ManifestInvalid(detail) => told.status == 400 && told.code
                    == ErrorCode::ManifestInvalid && told.detail == Some(Json::Text(detail)),
                OpsErrorView::ManifestBlobUnknown { digest } => told.status == 400 && told.code
                    == ErrorCode::ManifestBlobUnknown && told.detail == Some(
                    Json::Text(digest.text() + " is not present in this repository"@),
                ),
                OpsErrorView::SizeMismatch { declared, actual } => told.status == 400 && told.code
                    == ErrorCode::SizeInvalid && told.detail == Some(
                    Json::Text(
                        "expected "@ + text::decimal(declared as nat) + " bytes, got "@
                            + text::decimal(actual as nat),
                    ),
                ),
                OpsErrorView::BodyTooLarge { limit } => told.status == 413 && told.code
                    == ErrorCode::SizeInvalid && told.detail == Some(
                    Json::Text("limit is "@ + text::decimal(limit as nat) + " bytes"@),
                ),
                OpsErrorView::BodyIncomplete(detail) => told.status == 400 && told.code
                    == ErrorCode::BlobUploadInvalid && told.detail == Some(Json::Text(detail)),
                OpsErrorView::Internal(detail) => told.status == 500 && told.logged == Some(detail)
                    && told.detail is None,
            }
        }),
{
}

/// A method that an endpoint does not take is a `405` whose `Allow` lists those
/// that it takes.
pub proof fn law_refused_method_lists_the_others(allow: Seq<char>)
    ensures
        not_allowed(allow).status == 405,
        not_allowed(allow).extra == seq![("allow"@, allow)],
        !not_allowed(allow).bare,
{
    assert(not_allowed(allow).extra =~= seq![("allow"@, allow)]);
}

// ---- responses ---------------------------------------------------------------

/// A response with an explicit `Content-Length` and no body.
///
/// Used for every `HEAD` and for the several `2XX`s the spec defines as
/// bodyless: on a `HEAD` both halves are checked, the exact `Content-Length` and
/// the empty body.
pub fn empty_with_length(status: u16, length: u64, headers: Vec<(String, String)>) -> (r: Reply)
    ensures
        r@ == (wire::ReplyView {
            status,
            headers: seq![("content-length"@, text::decimal(length as nat))] + wire::header_list(
                headers@,
            ),
            body: Seq::empty(),
        }),
{
    let mut all: Vec<(String, String)> = Vec::new();
    all.push(wire::header("content-length", text::decimal_text(length).as_str()));
    let ghost first = all@;
    let mut rest = headers;
    all.append(&mut rest);
    let r = Reply { status, headers: all, body: Vec::new() };
    proof {
        assert(r@.headers =~= seq![("content-length"@, text::decimal(length as nat))]
            + wire::header_list(headers@));
        assert(r@.body =~= Seq::empty());
    }
    r
}

/// `Docker-Content-Digest`'s value.
pub fn digest_header(digest: &Digest) -> (r: String)
    ensures
        r@ == digest@.text(),
{
    digest.to_text()
}

/// `raw` up to its first `;`, without white space around it.
pub open spec fn media_type(raw: Seq<char>) -> Seq<char> {
    match raw.index_of_first(';') {
        Some(i) => text::trim(raw.take(i)),
        None => text::trim(raw),
    }
}

/// `Content-Type` with any parameters stripped.
///
/// A registry SHOULD ignore parameters on a pushed `Content-Type` and SHOULD
/// NOT send them on a served one.
pub fn media_type_of(raw: &str) -> (r: &str)
    ensures
        r@ == media_type(raw@),
{
    let v = text::to_chars(raw);
    let to: usize = match text::find_first(&v, ';') {
        Some(at) => at,
        None => v.len(),
    };
    let (from, to) = text::trim_bounds(&v, 0, to);
    proof {
        assert(raw@.take(raw@.len() as int) =~= raw@);
    }
    raw.substring_char(from, to)
}

/// A response without a body has the length that is claimed for it, and every
/// header that it is given behind that.
pub proof fn law_empty_response_keeps_its_length(
    status: u16,
    length: u64,
    headers: Vec<(String, String)>,
    r: Reply,
)
    requires
        call_ensures(empty_with_length, (status, length, headers), r),
    ensures
        r@.status == status,
        r@.body.len() == 0,
        r@.headers.len() == headers@.len() + 1,
        r@.headers[0] == ("content-length"@, text::decimal(length as nat)),
        forall|i: int|
            0 <= i < headers@.len() ==> #[trigger] r@.headers[i + 1] == (
                headers@[i].0@,
                headers@[i].1@,
            ),
{
    assert forall|i: int| 0 <= i < headers@.len() implies #[trigger] r@.headers[i + 1] == (
        headers@[i].0@,
        headers@[i].1@,
    ) by {
        assert(wire::header_list(headers@)[i] == (headers@[i].0@, headers@[i].1@));
    }
}

/// Parameters do not change a media type: what stands behind the first `;` makes no
/// difference, nor does white space around what stands before it, and text without
/// either is the media type itself.
#[verifier::spinoff_prover]
pub proof fn law_media_type_ignores_parameters(kind: Seq<char>, parameters: Seq<char>)
    requires
        !kind.contains(';'),
    ensures
        media_type(kind + seq![';'] + parameters) == media_type(kind),
        media_type(kind) == text::trim(kind),
        kind.len() > 0 && !text::is_space(kind[0]) && !text::is_space(kind.last()) ==> media_type(
            kind,
        ) == kind,
{
    let s = kind + seq![';'] + parameters;
    s.index_of_first_ensures(';');
    kind.index_of_first_ensures(';');
    let at = kind.len() as int;
    assert(s[at] == ';');
    assert(s.contains(';'));
    let i = s.index_of_first(';')->0;
    assert(i == at) by {
        if i < at {
            assert(kind[i] == ';');
        }
    }
    assert(s.take(at) =~= kind);
}

/// A digest's header is the digest as it is written.
pub proof fn law_digest_header_is_the_digest(digest: Digest, r: String)
    requires
        call_ensures(digest_header, (&digest,), r),
        digest@.wf(),
    ensures
        crate::reference::digest_of(r@) == Some(digest@),
{
    crate::reference::lemma_digest_round_trip(digest@);
}

} // verus!
