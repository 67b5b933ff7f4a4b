//! The spec error model.
//!
//! A `4XX` body MAY be any format, but if it is JSON the Distribution Spec
//! fixes its shape exactly:
//!
//! ```json
//! {"errors":[{"code":"NAME_UNKNOWN","message":"…","detail":"…"}]}
//! ```
//!
//! `code` MUST contain only uppercase alphabetic characters and underscores.

use serde_json::Value;
use vstd::prelude::*;
use vstd::string::*;

use crate::json;
use crate::json::Json;
use crate::text;
use crate::wire;
use crate::wire::Reply;

verus! {

// ---- statuses ----------------------------------------------------------------

pub const OK: u16 = 200;

pub const ACCEPTED: u16 = 202;

pub const BAD_REQUEST: u16 = 400;

pub const UNAUTHORIZED: u16 = 401;

pub const FORBIDDEN: u16 = 403;

pub const NOT_FOUND: u16 = 404;

pub const METHOD_NOT_ALLOWED: u16 = 405;

pub const PAYLOAD_TOO_LARGE: u16 = 413;

pub const RANGE_NOT_SATISFIABLE: u16 = 416;

pub const TOO_MANY_REQUESTS: u16 = 429;

pub const INTERNAL_SERVER_ERROR: u16 = 500;

// ---- codes -------------------------------------------------------------------

/// The spec's fourteen codes, plus one deviation.
#[derive(Debug, Clone, Copy, PartialEq, Eq, Structural)]
pub enum ErrorCode {
    BlobUnknown,
    BlobUploadInvalid,
    BlobUploadUnknown,
    DigestInvalid,
    ManifestBlobUnknown,
    ManifestInvalid,
    ManifestUnknown,
    NameInvalid,
    NameUnknown,
    SizeInvalid,
    Unauthorized,
    Denied,
    Unsupported,
    /// Present for completeness of the taxonomy and **never emitted**: a client
    /// that retries a `429` at once multiplies the load it was meant to shed.
    TooManyRequests,
    /// The one code outside the Distribution Spec's set. A malformed `?n=` has no
    /// home among the fourteen, and every client already knows this one.
    PaginationNumberInvalid,
}

impl ErrorCode {
    /// The wire form.
    pub open spec fn text(self) -> Seq<char> {
        match self {
            ErrorCode::BlobUnknown => "BLOB_UNKNOWN"@,
            ErrorCode::BlobUploadInvalid => "BLOB_UPLOAD_INVALID"@,
            ErrorCode::BlobUploadUnknown => "BLOB_UPLOAD_UNKNOWN"@,
            ErrorCode::DigestInvalid => "DIGEST_INVALID"@,
            ErrorCode::ManifestBlobUnknown => "MANIFEST_BLOB_UNKNOWN"@,
            ErrorCode::ManifestInvalid => "MANIFEST_INVALID"@,
            ErrorCode::ManifestUnknown => "MANIFEST_UNKNOWN"@,
            ErrorCode::NameInvalid => "NAME_INVALID"@,
            ErrorCode::NameUnknown => "NAME_UNKNOWN"@,
            ErrorCode::SizeInvalid => "SIZE_INVALID"@,
            ErrorCode::Unauthorized => "UNAUTHORIZED"@,
            ErrorCode::Denied => "DENIED"@,
            ErrorCode::Unsupported => "UNSUPPORTED"@,
            ErrorCode::TooManyRequests => "TOOMANYREQUESTS"@,
            ErrorCode::PaginationNumberInvalid => "PAGINATION_NUMBER_INVALID"@,
        }
    }

    /// The status this code carries unless a handler overrides it.
    pub open spec fn spec_status(self) -> u16 {
        match self {
            ErrorCode::BlobUnknown => NOT_FOUND,
            ErrorCode::BlobUploadUnknown => NOT_FOUND,
            ErrorCode::ManifestUnknown => NOT_FOUND,
            ErrorCode::NameUnknown => NOT_FOUND,
            ErrorCode::Unauthorized => UNAUTHORIZED,
            ErrorCode::Denied => FORBIDDEN,
            ErrorCode::Unsupported => METHOD_NOT_ALLOWED,
            ErrorCode::TooManyRequests => TOO_MANY_REQUESTS,
            _ => BAD_REQUEST,
        }
    }

    /// The message sent unless a handler gives another.
    pub open spec fn message(self) -> Seq<char> {
        match self {
            ErrorCode::BlobUnknown => "blob unknown to registry"@,
            ErrorCode::BlobUploadInvalid => "blob upload invalid"@,
            ErrorCode::BlobUploadUnknown => "blob upload unknown to registry"@,
            ErrorCode::DigestInvalid => "provided digest did not match uploaded content"@,
            ErrorCode::ManifestBlobUnknown => "manifest references a manifest or blob unknown to registry"@,
            ErrorCode::ManifestInvalid => "manifest invalid"@,
            ErrorCode::ManifestUnknown => "manifest unknown"@,
            ErrorCode::NameInvalid => "invalid repository name"@,
            ErrorCode::NameUnknown => "repository name not known to registry"@,
            ErrorCode::SizeInvalid => "provided length did not match content length"@,
            ErrorCode::Unauthorized => "authentication required"@,
            ErrorCode::Denied => "requested access to the resource is denied"@,
            ErrorCode::Unsupported => "the operation is unsupported"@,
            ErrorCode::TooManyRequests => "too many requests"@,
            ErrorCode::PaginationNumberInvalid => "invalid number of results requested"@,
        }
    }

    /// The wire form. Uppercase alphabetic and underscores only, per spec.
    pub fn as_str(self) -> (r: &'static str)
        ensures
            r@ == self.text(),
    {
        match self {
            ErrorCode::BlobUnknown => "BLOB_UNKNOWN",
            ErrorCode::BlobUploadInvalid => "BLOB_UPLOAD_INVALID",
            ErrorCode::BlobUploadUnknown => "BLOB_UPLOAD_UNKNOWN",
            ErrorCode::DigestInvalid => "DIGEST_INVALID",
            ErrorCode::ManifestBlobUnknown => "MANIFEST_BLOB_UNKNOWN",
            ErrorCode::ManifestInvalid => "MANIFEST_INVALID",
            ErrorCode::ManifestUnknown => "MANIFEST_UNKNOWN",
            ErrorCode::NameInvalid => "NAME_INVALID",
            ErrorCode::NameUnknown => "NAME_UNKNOWN",
            ErrorCode::SizeInvalid => "SIZE_INVALID",
            ErrorCode::Unauthorized => "UNAUTHORIZED",
            ErrorCode::Denied => "DENIED",
            ErrorCode::Unsupported => "UNSUPPORTED",
            ErrorCode::TooManyRequests => "TOOMANYREQUESTS",
            ErrorCode::PaginationNumberInvalid => "PAGINATION_NUMBER_INVALID",
        }
    }

    /// The status this code carries unless a handler overrides it.
    ///
    /// Overrides are rare and always spec-driven: `BLOB_UPLOAD_INVALID` is a
    /// `400` in general but a `416` for an out-of-order chunk, and
    /// `MANIFEST_INVALID` becomes `413` when the body exceeds the manifest
    /// limit.
    pub fn status(self) -> (r: u16)
        ensures
            r == self.spec_status(),
    {
        match self {
            ErrorCode::BlobUnknown
            | ErrorCode::BlobUploadUnknown
            | ErrorCode::ManifestUnknown
            | ErrorCode::NameUnknown => NOT_FOUND,
            ErrorCode::Unauthorized => UNAUTHORIZED,
            ErrorCode::Denied => FORBIDDEN,
            ErrorCode::Unsupported => METHOD_NOT_ALLOWED,
            ErrorCode::TooManyRequests => TOO_MANY_REQUESTS,
            _ => BAD_REQUEST,
        }
    }

    /// The message sent unless a handler gives another.
    pub fn default_message(self) -> (r: &'static str)
        ensures
            r@ == self.message(),
    {
        match self {
            ErrorCode::BlobUnknown => "blob unknown to registry",
            ErrorCode::BlobUploadInvalid => "blob upload invalid",
            ErrorCode::BlobUploadUnknown => "blob upload unknown to registry",
            ErrorCode::DigestInvalid => "provided digest did not match uploaded content",
            ErrorCode::ManifestBlobUnknown => "manifest references a manifest or blob unknown to registry",
            ErrorCode::ManifestInvalid => "manifest invalid",
            ErrorCode::ManifestUnknown => "manifest unknown",
            ErrorCode::NameInvalid => "invalid repository name",
            ErrorCode::NameUnknown => "repository name not known to registry",
            ErrorCode::SizeInvalid => "provided length did not match content length",
            ErrorCode::Unauthorized => "authentication required",
            ErrorCode::Denied => "requested access to the resource is denied",
            ErrorCode::Unsupported => "the operation is unsupported",
            ErrorCode::TooManyRequests => "too many requests",
            ErrorCode::PaginationNumberInvalid => "invalid number of results requested",
        }
    }
}

/// An uppercase letter or an underscore.
pub open spec fn is_code_char(c: char) -> bool {
    text::is_upper(c) || c == '_'
}

/// The wire form, character by character.
spec fn spelled(code: ErrorCode) -> Seq<char> {
    match code {
        ErrorCode::BlobUnknown => seq!['B', 'L', 'O', 'B', '_', 'U', 'N', 'K', 'N', 'O', 'W', 'N'],
        ErrorCode::BlobUploadInvalid => seq!['B', 'L', 'O', 'B', '_', 'U', 'P', 'L', 'O', 'A', 'D', '_', 'I', 'N', 'V', 'A', 'L', 'I', 'D'],
        ErrorCode::BlobUploadUnknown => seq!['B', 'L', 'O', 'B', '_', 'U', 'P', 'L', 'O', 'A', 'D', '_', 'U', 'N', 'K', 'N', 'O', 'W', 'N'],
        ErrorCode::DigestInvalid => seq!['D', 'I', 'G', 'E', 'S', 'T', '_', 'I', 'N', 'V', 'A', 'L', 'I', 'D'],
        ErrorCode::ManifestBlobUnknown => seq!['M', 'A', 'N', 'I', 'F', 'E', 'S', 'T', '_', 'B', 'L', 'O', 'B', '_', 'U', 'N', 'K', 'N', 'O', 'W', 'N'],
        ErrorCode::ManifestInvalid => seq!['M', 'A', 'N', 'I', 'F', 'E', 'S', 'T', '_', 'I', 'N', 'V', 'A', 'L', 'I', 'D'],
        ErrorCode::ManifestUnknown => seq!['M', 'A', 'N', 'I', 'F', 'E', 'S', 'T', '_', 'U', 'N', 'K', 'N', 'O', 'W', 'N'],
        ErrorCode::NameInvalid => seq!['N', 'A', 'M', 'E', '_', 'I', 'N', 'V', 'A', 'L', 'I', 'D'],
        ErrorCode::NameUnknown => seq!['N', 'A', 'M', 'E', '_', 'U', 'N', 'K', 'N', 'O', 'W', 'N'],
        ErrorCode::SizeInvalid => seq!['S', 'I', 'Z', 'E', '_', 'I', 'N', 'V', 'A', 'L', 'I', 'D'],
        ErrorCode::Unauthorized => seq!['U', 'N', 'A', 'U', 'T', 'H', 'O', 'R', 'I', 'Z', 'E', 'D'],
        ErrorCode::Denied => seq!['D', 'E', 'N', 'I', 'E', 'D'],
        ErrorCode::Unsupported => seq!['U', 'N', 'S', 'U', 'P', 'P', 'O', 'R', 'T', 'E', 'D'],
        ErrorCode::TooManyRequests => seq!['T', 'O', 'O', 'M', 'A', 'N', 'Y', 'R', 'E', 'Q', 'U', 'E', 'S', 'T', 'S'],
        ErrorCode::PaginationNumberInvalid => seq!['P', 'A', 'G', 'I', 'N', 'A', 'T', 'I', 'O', 'N', '_', 'N', 'U', 'M', 'B', 'E', 'R', '_', 'I', 'N', 'V', 'A', 'L', 'I', 'D'],
    }
}

proof fn lemma_spelled(code: ErrorCode)
    ensures
        code.text() == spelled(code),
{
    match code {
        ErrorCode::BlobUnknown => {
            reveal_strlit("BLOB_UNKNOWN");
            assert("BLOB_UNKNOWN"@ =~= spelled(code));
        },
        ErrorCode::BlobUploadInvalid => {
            reveal_strlit("BLOB_UPLOAD_INVALID");
            assert("BLOB_UPLOAD_INVALID"@ =~= spelled(code));
        },
        ErrorCode::BlobUploadUnknown => {
            reveal_strlit("BLOB_UPLOAD_UNKNOWN");
            assert("BLOB_UPLOAD_UNKNOWN"@ =~= spelled(code));
        },
        ErrorCode::DigestInvalid => {
            reveal_strlit("DIGEST_INVALID");
            assert("DIGEST_INVALID"@ =~= spelled(code));
        },
        ErrorCode::ManifestBlobUnknown => {
            reveal_strlit("MANIFEST_BLOB_UNKNOWN");
            assert("MANIFEST_BLOB_UNKNOWN"@ =~= spelled(code));
        },
        ErrorCode::ManifestInvalid => {
            reveal_strlit("MANIFEST_INVALID");
            assert("MANIFEST_INVALID"@ =~= spelled(code));
        },
        ErrorCode::ManifestUnknown => {
            reveal_strlit("MANIFEST_UNKNOWN");
            assert("MANIFEST_UNKNOWN"@ =~= spelled(code));
        },
        ErrorCode::NameInvalid => {
            reveal_strlit("NAME_INVALID");
            assert("NAME_INVALID"@ =~= spelled(code));
        },
        ErrorCode::NameUnknown => {
            reveal_strlit("NAME_UNKNOWN");
            assert("NAME_UNKNOWN"@ =~= spelled(code));
        },
        ErrorCode::SizeInvalid => {
            reveal_strlit("SIZE_INVALID");
            assert("SIZE_INVALID"@ =~= spelled(code));
        },
        ErrorCode::Unauthorized => {
            reveal_strlit("UNAUTHORIZED");
            assert("UNAUTHORIZED"@ =~= spelled(code));
        },
        ErrorCode::Denied => {
            reveal_strlit("DENIED");
            assert("DENIED"@ =~= spelled(code));
        },
        ErrorCode::Unsupported => {
            reveal_strlit("UNSUPPORTED");
            assert("UNSUPPORTED"@ =~= spelled(code));
        },
        ErrorCode::TooManyRequests => {
            reveal_strlit("TOOMANYREQUESTS");
            assert("TOOMANYREQUESTS"@ =~= spelled(code));
        },
        ErrorCode::PaginationNumberInvalid => {
            reveal_strlit("PAGINATION_NUMBER_INVALID");
            assert("PAGINATION_NUMBER_INVALID"@ =~= spelled(code));
        },
    }
}

/// A code is never empty and holds only uppercase letters and underscores.
pub proof fn law_codes_are_uppercase(code: ErrorCode)
    ensures
        code.text().len() > 0,
        forall|i: int| 0 <= i < code.text().len() ==> is_code_char(#[trigger] code.text()[i]),
{
    lemma_spelled(code);
}

/// No two codes are written alike.
pub proof fn law_codes_are_unique(a: ErrorCode, b: ErrorCode)
    requires
        a.text() == b.text(),
    ensures
        a == b,
{
    lemma_spelled(a);
    lemma_spelled(b);
    let s = a.text();
    assert(s.len() == spelled(a).len() && s.len() == spelled(b).len());
    assert(s[0] == spelled(a)[0] && s[0] == spelled(b)[0]);
    assert(s[1] == spelled(a)[1] && s[1] == spelled(b)[1]);
    assert(s[2] == spelled(a)[2] && s[2] == spelled(b)[2]);
    assert(s[5] == spelled(a)[5] && s[5] == spelled(b)[5]);
}

/// What is unknown is a `404`; an absent or wrong credential is a `401` and a
/// genuine one that does not suffice a `403`; what is not supported is a `405`; too
/// much at once is a `429`; and everything else that a client got wrong is a `400`.
pub proof fn law_codes_have_their_statuses(code: ErrorCode)
    ensures
        code.spec_status() == 404 <==> code == ErrorCode::BlobUnknown || code
            == ErrorCode::BlobUploadUnknown || code == ErrorCode::ManifestUnknown || code
            == ErrorCode::NameUnknown,
        code.spec_status() == 401 <==> code == ErrorCode::Unauthorized,
        code.spec_status() == 403 <==> code == ErrorCode::Denied,
        code.spec_status() == 405 <==> code == ErrorCode::Unsupported,
        code.spec_status() == 429 <==> code == ErrorCode::TooManyRequests,
        code.spec_status() == 400 || code.spec_status() == 401 || code.spec_status() == 403
            || code.spec_status() == 404 || code.spec_status() == 405 || code.spec_status() == 429,
{
}

/// What a code says where nothing more is known.
pub proof fn law_codes_have_their_messages()
    ensures
        ErrorCode::BlobUnknown.message() == "blob unknown to registry"@,
        ErrorCode::BlobUploadInvalid.message() == "blob upload invalid"@,
        ErrorCode::BlobUploadUnknown.message() == "blob upload unknown to registry"@,
        ErrorCode::DigestInvalid.message() == "provided digest did not match uploaded content"@,
        ErrorCode::ManifestBlobUnknown.message()
            == "manifest references a manifest or blob unknown to registry"@,
        ErrorCode::ManifestInvalid.message() == "manifest invalid"@,
        ErrorCode::ManifestUnknown.message() == "manifest unknown"@,
        ErrorCode::NameInvalid.message() == "invalid repository name"@,
        ErrorCode::NameUnknown.message() == "repository name not known to registry"@,
        ErrorCode::SizeInvalid.message() == "provided length did not match content length"@,
        ErrorCode::Unauthorized.message() == "authentication required"@,
        ErrorCode::Denied.message() == "requested access to the resource is denied"@,
        ErrorCode::Unsupported.message() == "the operation is unsupported"@,
        ErrorCode::TooManyRequests.message() == "too many requests"@,
        ErrorCode::PaginationNumberInvalid.message() == "invalid number of results requested"@,
{
}

// ---- one error ---------------------------------------------------------------

/// One error, ready to become a response.
///
/// `extra` exists for the handful of failures the spec attaches headers to,
/// notably a `416` on a blob `Range`, which MUST carry
/// `Content-Range: bytes */<len>`.
#[derive(Debug)]
pub struct ApiError {
    pub status: u16,
    pub code: ErrorCode,
    pub message: String,
    pub detail: Option<Value>,
    pub extra: Vec<(String, String)>,
    /// Send the status with no JSON error body at all.
    ///
    /// Two cases need it. A `5XX` has no code in the spec's set and the spec
    /// constrains only `4XX` bodies. And a `416` on a blob `Range` is a pure
    /// RFC 9110 condition that none of the fourteen describes.
    pub bare: bool,
    /// What the operator's log is told and the client is not.
    pub logged: Option<String>,
}

/// One error, its text as characters.
pub struct ApiErrorView {
    pub status: u16,
    pub code: ErrorCode,
    pub message: Seq<char>,
    pub detail: Option<Json>,
    pub extra: Seq<(Seq<char>, Seq<char>)>,
    pub bare: bool,
    pub logged: Option<Seq<char>>,
}

impl View for ApiError {
    type V = ApiErrorView;

    open spec fn view(&self) -> ApiErrorView {
        ApiErrorView {
            status: self.status,
            code: self.code,
            message: self.message@,
            detail: match self.detail {
                Some(v) => Some(json::json_of(v)),
                None => None,
            },
            extra: wire::header_list(self.extra@),
            bare: self.bare,
            logged: text::opt_text(self.logged),
        }
    }
}

impl ApiErrorView {
    /// The error a code stands for.
    pub open spec fn of(code: ErrorCode) -> ApiErrorView {
        ApiErrorView {
            status: code.spec_status(),
            code,
            message: code.message(),
            detail: None,
            extra: Seq::empty(),
            bare: false,
            logged: None,
        }
    }

    /// A `500` with no body.
    pub open spec fn internal(detail: Seq<char>) -> ApiErrorView {
        ApiErrorView {
            status: INTERNAL_SERVER_ERROR,
            code: ErrorCode::Unsupported,
            message: "internal error"@,
            detail: None,
            extra: Seq::empty(),
            bare: true,
            logged: Some(detail),
        }
    }

    /// The same error under another status.
    pub open spec fn status(self, status: u16) -> ApiErrorView {
        ApiErrorView { status, ..self }
    }

    /// The same error with another message.
    pub open spec fn message(self, message: Seq<char>) -> ApiErrorView {
        ApiErrorView { message, ..self }
    }

    /// The same error with a string as its detail.
    pub open spec fn detail(self, detail: Seq<char>) -> ApiErrorView {
        ApiErrorView { detail: Some(Json::Text(detail)), ..self }
    }

    /// The same error with one more header.
    pub open spec fn header(self, name: Seq<char>, value: Seq<char>) -> ApiErrorView {
        ApiErrorView { extra: self.extra.push((name, value)), ..self }
    }
}

/// An error body: one entry with its code, its message and, where there is one,
/// its detail, the last two as JSON already.
pub open spec fn framed(code: Seq<char>, message: Seq<u8>, detail: Option<Seq<u8>>) -> Seq<u8> {
    let entry = "{\"errors\":[{\"code\":\"".spec_bytes() + vstd::utf8::encode_utf8(code)
        + "\",\"message\":".spec_bytes() + message;
    let detailed = match detail {
        Some(detail) => entry + ",\"detail\":".spec_bytes() + detail,
        None => entry,
    };
    detailed + "}]}".spec_bytes()
}

/// The body of an error, which a bare one has none of.
pub open spec fn error_body_of(e: ApiErrorView) -> Option<Seq<u8>> {
    if e.bare {
        None
    } else {
        Some(
            framed(
                e.code.text(),
                json::json_bytes(Json::Text(e.message)),
                match e.detail {
                    Some(detail) => Some(json::json_bytes(detail)),
                    None => None,
                },
            ),
        )
    }
}

/// The body sent should encoding the error's own fail.
pub open spec fn fallback_body() -> Seq<u8> {
    "{\"errors\":[{\"code\":\"UNSUPPORTED\",\"message\":\"error encoding failed\"}]}".spec_bytes()
}

/// The response to an error whose body was encoded as `encoded`.
pub open spec fn error_reply(e: ApiErrorView, encoded: Option<Seq<u8>>) -> wire::ReplyView {
    if e.bare {
        wire::ReplyView {
            status: e.status,
            headers: wire::insert_all(seq![("content-length"@, "0"@)], e.extra),
            body: Seq::empty(),
        }
    } else {
        let body = match encoded {
            Some(bytes) => bytes,
            None => fallback_body(),
        };
        wire::ReplyView {
            status: e.status,
            headers: wire::insert_all(
                seq![
                    ("content-type"@, "application/json"@),
                    ("content-length"@, text::decimal(body.len())),
                ],
                e.extra,
            ),
            body,
        }
    }
}

/// The body of an error with this code, around its message and its detail as
/// JSON.
pub fn frame_error(code: ErrorCode, message: Vec<u8>, detail: Option<Vec<u8>>) -> (r: Vec<u8>)
    ensures
        r@ == framed(code.text(), message@, wire::opt_bytes(detail)),
{
    let mut message = message;
    let mut body = "{\"errors\":[{\"code\":\"".as_bytes_vec();
    body.append(&mut code.as_str().as_bytes_vec());
    body.append(&mut "\",\"message\":".as_bytes_vec());
    body.append(&mut message);
    if let Some(mut detail) = detail {
        body.append(&mut ",\"detail\":".as_bytes_vec());
        body.append(&mut detail);
    }
    body.append(&mut "}]}".as_bytes_vec());
    body
}

impl ApiError {
    /// The error a code stands for.
    pub fn new(code: ErrorCode) -> (r: ApiError)
        ensures
            r@ == ApiErrorView::of(code),
    {
        let r = ApiError {
            status: code.status(),
            code,
            message: text::copy(code.default_message()),
            detail: None,
            extra: Vec::new(),
            bare: false,
            logged: None,
        };
        assert(r@.extra =~= Seq::empty());
        r
    }

    /// A `500`, told to the log and reported without a body. See
    /// [`ApiError::bare`].
    pub fn internal(detail: &str) -> (r: ApiError)
        ensures
            r@ == ApiErrorView::internal(detail@),
    {
        let r = ApiError {
            status: INTERNAL_SERVER_ERROR,
            code: ErrorCode::Unsupported,
            message: text::copy("internal error"),
            detail: None,
            extra: Vec::new(),
            bare: true,
            logged: Some(text::copy(detail)),
        };
        assert(r@.extra =~= Seq::empty());
        r
    }

    /// A status and headers with no body and no error code.
    ///
    /// For conditions the spec's fourteen codes do not describe and a client
    /// cannot act on differently for knowing. The stored code is never sent.
    pub fn status_only(status: u16) -> (r: ApiError)
        ensures
            r@ == (ApiErrorView {
                status,
                code: ErrorCode::Unsupported,
                message: Seq::empty(),
                detail: None,
                extra: Seq::empty(),
                bare: true,
                logged: None,
            }),
    {
        let r = ApiError {
            status,
            code: ErrorCode::Unsupported,
            message: String::new(),
            detail: None,
            extra: Vec::new(),
            bare: true,
            logged: None,
        };
        assert(r@.extra =~= Seq::empty());
        r
    }

    /// Override the status. Used only where the spec names a status that is not
    /// the code's usual one; see [`ErrorCode::status`].
    pub fn with_status(self, status: u16) -> (r: ApiError)
        ensures
            r@ == self@.status(status),
    {
        ApiError { status, ..self }
    }

    /// Replace the message.
    pub fn with_message(self, message: &str) -> (r: ApiError)
        ensures
            r@ == self@.message(message@),
    {
        ApiError { message: text::copy(message), ..self }
    }

    /// Attach a detail.
    ///
    /// It may be any JSON per the spec, but naive clients fail to unmarshal
    /// anything but a string. Prefer [`ApiError::with_text`]; this takes any
    /// value so that a caller with structure can send it deliberately.
    pub fn with_detail(self, detail: Value) -> (r: ApiError)
        ensures
            r@ == (ApiErrorView { detail: Some(json::json_of(detail)), ..self@ }),
    {
        ApiError { detail: Some(detail), ..self }
    }

    /// Attach a string as the detail.
    pub fn with_text(self, detail: &str) -> (r: ApiError)
        ensures
            r@ == self@.detail(detail@),
    {
        self.with_detail(json::text_value(detail))
    }

    /// Attach a header.
    pub fn with_header(self, name: &str, value: &str) -> (r: ApiError)
        ensures
            r@ == self@.header(name@, value@),
    {
        let ghost before = self@;
        let mut extra = self.extra;
        extra.push(wire::header(name, value));
        let r = ApiError { extra, ..self };
        assert(r@.extra =~= before.extra.push((name@, value@)));
        r
    }

    pub fn code(&self) -> (r: ErrorCode)
        ensures
            r == self@.code,
    {
        self.code
    }

    pub fn status(&self) -> (r: u16)
        ensures
            r == self@.status,
    {
        self.status
    }

    /// The error's body, or nothing where none is sent.
    pub fn error_body(&self) -> (r: Option<Vec<u8>>)
        ensures
            wire::opt_bytes(r) == error_body_of(self@),
    {
        if self.bare {
            return None;
        }
        let message: Vec<u8> = match json::to_vec(&json::text_value(self.message.as_str())) {
            Ok(bytes) => bytes,
            Err(_) => return None,
        };
        let detail: Option<Vec<u8>> = match &self.detail {
            None => None,
            Some(value) => match json::to_vec(value) {
                Ok(bytes) => Some(bytes),
                Err(_) => return None,
            },
        };
        Some(frame_error(self.code, message, detail))
    }

    /// The response, with the error's own body.
    pub fn into_response(self) -> (r: Reply)
        ensures
            r@ == error_reply(self@, error_body_of(self@)),
    {
        let encoded = self.error_body();
        self.into_reply(encoded)
    }

    /// The response, around the body the error was encoded as.
    pub fn into_reply(self, encoded: Option<Vec<u8>>) -> (r: Reply)
        ensures
            r@ == error_reply(self@, wire::opt_bytes(encoded)),
    {
        if self.bare {
            let mut headers: Vec<(String, String)> = Vec::new();
            headers.push(wire::header("content-length", "0"));
            assert(wire::header_list(headers@) =~= seq![("content-length"@, "0"@)]);
            let r = Reply {
                status: self.status,
                headers: wire::with_headers(headers, &self.extra),
                body: Vec::new(),
            };
            assert(r@.body =~= Seq::empty());
            return r;
        }
        let body: Vec<u8> = match encoded {
            Some(bytes) => bytes,
            None => "{\"errors\":[{\"code\":\"UNSUPPORTED\",\"message\":\"error encoding failed\"}]}".as_bytes_vec(),
        };
        let mut headers: Vec<(String, String)> = Vec::new();
        headers.push(wire::header("content-type", "application/json"));
        headers.push(wire::header("content-length", text::decimal_text(body.len() as u64).as_str()));
        assert(wire::header_list(headers@) =~= seq![
            ("content-type"@, "application/json"@),
            ("content-length"@, text::decimal(body@.len())),
        ]);
        Reply { status: self.status, headers: wire::with_headers(headers, &self.extra), body }
    }
}

/// Each change to an error changes what it names and leaves the rest of it alone.
pub proof fn law_changes_to_an_error_are_separate(
    e: ApiErrorView,
    code: ErrorCode,
    status: u16,
    other: Seq<char>,
    name: Seq<char>,
    value: Seq<char>,
)
    ensures
        ApiErrorView::of(code).code == code,
        ApiErrorView::of(code).status == code.spec_status(),
        ApiErrorView::of(code).detail is None,
        ApiErrorView::of(code).extra.len() == 0,
        !ApiErrorView::of(code).bare,
        ApiErrorView::of(code).logged is None,
        e.status(status).status == status,
        e.status(status).status(e.status) == e,
        e.message(other).message == other,
        e.message(other).message(e.message) == e,
        e.detail(other).detail == Some(Json::Text(other)),
        (ApiErrorView { detail: e.detail, ..e.detail(other) }) == e,
        e.header(name, value).extra == e.extra.push((name, value)),
        (ApiErrorView { extra: e.extra, ..e.header(name, value) }) == e,
{
}

/// An internal failure is a bare `500`: the log is told all of it and the client
/// nothing.
pub proof fn law_internal_failure_is_kept_from_the_client(detail: Seq<char>)
    ensures
        ApiErrorView::internal(detail).status == 500,
        ApiErrorView::internal(detail).logged == Some(detail),
        ApiErrorView::internal(detail).extra.len() == 0,
        error_body_of(ApiErrorView::internal(detail)) is None,
        error_reply(ApiErrorView::internal(detail), None).body.len() == 0,
{
}

/// An error is answered with its own status and its own body, the length of that
/// body, and each header that it carries; a bare one with no body at all, even
/// where one was encoded.
#[verifier::spinoff_prover]
pub proof fn law_error_is_answered_as_it_is(e: ApiErrorView, encoded: Option<Seq<u8>>, i: int)
    ensures
        error_reply(e, encoded).status == e.status,
        e.bare ==> error_reply(e, encoded).body.len() == 0,
        !e.bare && encoded is Some ==> error_reply(e, encoded).body == encoded->0,
        error_body_of(e) is None <==> e.bare,
        e.extra.len() == 0 ==> error_reply(e, encoded).headers.contains(
            ("content-length"@, text::decimal(error_reply(e, encoded).body.len())),
        ),
        e.extra.len() == 0 && !e.bare ==> error_reply(e, encoded).headers.contains(
            ("content-type"@, "application/json"@),
        ),
        0 <= i < e.extra.len() && (forall|j: int|
            i < j < e.extra.len() ==> (#[trigger] e.extra[j]).0 != e.extra[i].0)
            ==> error_reply(e, encoded).headers.contains(e.extra[i]),
{
    reveal_strlit("0");
    assert(text::decimal(0) =~= "0"@);
    let base = error_reply(ApiErrorView { extra: Seq::empty(), ..e }, encoded).headers;
    if e.bare {
        assert(base[0] == ("content-length"@, "0"@));
    } else {
        assert(base[0] == ("content-type"@, "application/json"@));
        assert(base[1] == (
            "content-length"@,
            text::decimal(error_reply(e, encoded).body.len()),
        ));
    }
    if e.extra.len() == 0 {
        assert(e.extra =~= Seq::empty());
    }
    if 0 <= i < e.extra.len() && (forall|j: int|
        i < j < e.extra.len() ==> (#[trigger] e.extra[j]).0 != e.extra[i].0) {
        wire::law_inserted_headers_are_there(base, e.extra, i);
    }
}

/// The body of an error holds its code, its message and its detail, each in its
/// place and nothing else: two that differ in the detail alone, or in the message
/// alone where there is no detail, have different bodies.
pub proof fn law_error_body_holds_its_members(
    code: ErrorCode,
    message: Seq<u8>,
    detail: Seq<u8>,
    other: Seq<u8>,
)
    ensures
        ({
            let head = vstd::utf8::encode_utf8("{\"errors\":[{\"code\":\""@)
                + vstd::utf8::encode_utf8(code.text()) + vstd::utf8::encode_utf8(
                "\",\"message\":"@,
            );
            let tail = vstd::utf8::encode_utf8("}]}"@);
            &&& framed(code.text(), message, None) == head + message + tail
            &&& framed(code.text(), message, Some(detail)) == head + message
                + vstd::utf8::encode_utf8(",\"detail\":"@) + detail + tail
        }),
        framed(code.text(), message, Some(detail)) == framed(code.text(), message, Some(other))
            ==> detail == other,
        framed(code.text(), detail, None) == framed(code.text(), other, None) ==> detail == other,
{
    let head = vstd::utf8::encode_utf8("{\"errors\":[{\"code\":\""@)
        + vstd::utf8::encode_utf8(code.text()) + vstd::utf8::encode_utf8("\",\"message\":"@);
    let tail = vstd::utf8::encode_utf8("}]}"@);
    let between = head + message + vstd::utf8::encode_utf8(",\"detail\":"@);
    if framed(code.text(), message, Some(detail)) == framed(code.text(), message, Some(other)) {
        let a = between + detail + tail;
        let b = between + other + tail;
        assert(a.len() == b.len());
        assert(a.subrange(between.len() as int, (between.len() + detail.len()) as int) =~= detail);
        assert(b.subrange(between.len() as int, (between.len() + other.len()) as int) =~= other);
    }
    if framed(code.text(), detail, None) == framed(code.text(), other, None) {
        let a = head + detail + tail;
        let b = head + other + tail;
        assert(a.len() == b.len());
        assert(a.subrange(head.len() as int, (head.len() + detail.len()) as int) =~= detail);
        assert(b.subrange(head.len() as int, (head.len() + other.len()) as int) =~= other);
    }
}

/// The body of an error that is no bare one holds its own code, its own message and
/// its own detail, where it has one.
pub proof fn law_error_body_is_its_own(e: ApiErrorView)
    requires
        !e.bare,
    ensures
        error_body_of(e) == Some(
            framed(
                e.code.text(),
                json::json_bytes(Json::Text(e.message)),
                if e.detail is Some {
                    Some(json::json_bytes(e.detail->0))
                } else {
                    None
                },
            ),
        ),
{
}

/// A status alone is answered with that status, no body and no header but the length
/// of none.
pub proof fn law_status_alone_has_no_body(status: u16, e: ApiError, encoded: Option<Seq<u8>>)
    requires
        call_ensures(ApiError::status_only, (status,), e),
    ensures
        error_reply(e@, encoded).status == status,
        error_reply(e@, encoded).body.len() == 0,
        error_reply(e@, encoded).headers == seq![("content-length"@, "0"@)],
{
}

/// What an error is changed to is what it is answered with: its own status, its own
/// detail and its own header.
pub proof fn law_error_takes_its_changes(
    e: ApiError,
    status: u16,
    detail: Value,
    name: &str,
    value: &str,
    other: ApiError,
    detailed: ApiError,
    headed: ApiError,
)
    requires
        call_ensures(ApiError::with_status, (e, status), other),
        call_ensures(ApiError::with_detail, (e, detail), detailed),
        call_ensures(ApiError::with_header, (e, name, value), headed),
    ensures
        other@.status == status && other@.code == e@.code && other@.message == e@.message,
        detailed@.detail == Some(json::json_of(detail)),
        detailed@.status == e@.status && detailed@.code == e@.code && detailed@.extra == e@.extra,
        headed@.extra == e@.extra.push((name@, value@)),
        headed@.status == e@.status && headed@.code == e@.code && headed@.detail == e@.detail,
{
}

} // verus!
