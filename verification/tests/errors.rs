use summ_server::error::{frame_error, ApiError, ErrorCode};
use summ_server::handlers::{
    digest_header, empty_with_length, media_type_of, method_not_allowed, ops_error,
    MEDIA_TYPE_INDEX, MEDIA_TYPE_MANIFEST,
};
use summ_server::reference::parse_digest;
use summ_server::seam::OpsError;

const ALL: [ErrorCode; 15] = [
    ErrorCode::BlobUnknown,
    ErrorCode::BlobUploadInvalid,
    ErrorCode::BlobUploadUnknown,
    ErrorCode::DigestInvalid,
    ErrorCode::ManifestBlobUnknown,
    ErrorCode::ManifestInvalid,
    ErrorCode::ManifestUnknown,
    ErrorCode::NameInvalid,
    ErrorCode::NameUnknown,
    ErrorCode::SizeInvalid,
    ErrorCode::Unauthorized,
    ErrorCode::Denied,
    ErrorCode::Unsupported,
    ErrorCode::TooManyRequests,
    ErrorCode::PaginationNumberInvalid,
];

#[test]
fn codes_are_uppercase_alphabetic_and_underscores_only() {
    for code in ALL {
        let s = code.as_str();
        assert!(!s.is_empty());
        assert!(
            s.bytes().all(|b| b.is_ascii_uppercase() || b == b'_'),
            "{s} violates the spec's character set for `code`"
        );
    }
}

#[test]
fn codes_are_unique() {
    let mut seen: Vec<&str> = ALL.iter().map(|c| c.as_str()).collect();
    seen.sort_unstable();
    let before = seen.len();
    seen.dedup();
    assert_eq!(before, seen.len(), "duplicate error code string");
}

#[test]
fn statuses_match_the_spec_table() {
    assert_eq!(ErrorCode::BlobUnknown.status(), 404);
    assert_eq!(ErrorCode::BlobUploadInvalid.status(), 400);
    assert_eq!(ErrorCode::BlobUploadUnknown.status(), 404);
    assert_eq!(ErrorCode::DigestInvalid.status(), 400);
    assert_eq!(ErrorCode::ManifestBlobUnknown.status(), 400);
    assert_eq!(ErrorCode::ManifestInvalid.status(), 400);
    assert_eq!(ErrorCode::ManifestUnknown.status(), 404);
    assert_eq!(ErrorCode::NameInvalid.status(), 400);
    assert_eq!(ErrorCode::NameUnknown.status(), 404);
    assert_eq!(ErrorCode::SizeInvalid.status(), 400);
    assert_eq!(ErrorCode::Unauthorized.status(), 401);
    assert_eq!(ErrorCode::Denied.status(), 403);
    assert_eq!(ErrorCode::Unsupported.status(), 405);
    assert_eq!(ErrorCode::TooManyRequests.status(), 429);
    assert_eq!(ErrorCode::PaginationNumberInvalid.status(), 400);
}

#[test]
fn codes_are_spelled_as_the_spec_spells_them() {
    assert_eq!(ErrorCode::BlobUnknown.as_str(), "BLOB_UNKNOWN");
    assert_eq!(ErrorCode::BlobUploadInvalid.as_str(), "BLOB_UPLOAD_INVALID");
    assert_eq!(ErrorCode::TooManyRequests.as_str(), "TOOMANYREQUESTS");
    assert_eq!(
        ErrorCode::PaginationNumberInvalid.as_str(),
        "PAGINATION_NUMBER_INVALID"
    );
    for code in ALL {
        assert!(!code.default_message().is_empty());
    }
}

#[test]
fn media_type_parameters_are_stripped() {
    assert_eq!(media_type_of(MEDIA_TYPE_MANIFEST), MEDIA_TYPE_MANIFEST);
    assert_eq!(
        media_type_of("application/vnd.oci.image.index.v1+json; charset=utf-8"),
        MEDIA_TYPE_INDEX
    );
    assert_eq!(media_type_of("  text/plain  "), "text/plain");
}

#[test]
fn an_error_carries_what_it_is_given() {
    let e = ApiError::new(ErrorCode::NameInvalid)
        .with_status(422)
        .with_message("no")
        .with_text("detail")
        .with_header("x-one", "1")
        .with_header("x-one", "2");
    assert_eq!(e.status(), 422);
    assert_eq!(e.code(), ErrorCode::NameInvalid);
    assert_eq!(
        e.error_body().as_deref(),
        Some(&br#"{"errors":[{"code":"NAME_INVALID","message":"no","detail":"detail"}]}"#[..])
    );
    let reply = e.into_reply(Some(b"{}".to_vec()));
    assert_eq!(reply.status, 422);
    assert_eq!(
        reply.headers,
        vec![
            ("content-type".to_owned(), "application/json".to_owned()),
            ("content-length".to_owned(), "2".to_owned()),
            ("x-one".to_owned(), "2".to_owned()),
        ]
    );
    assert_eq!(reply.body, b"{}");
}

#[test]
fn a_detail_may_be_any_value() {
    let e = ApiError::new(ErrorCode::SizeInvalid).with_detail(serde_json::Value::from(3u64));
    assert_eq!(
        e.error_body().as_deref(),
        Some(
            &br#"{"errors":[{"code":"SIZE_INVALID","message":"provided length did not match content length","detail":3}]}"#
                [..]
        )
    );
}

#[test]
fn an_internal_error_tells_the_log_and_not_the_client() {
    let e = ApiError::internal("the disk is on fire");
    assert_eq!(e.status(), 500);
    assert_eq!(e.logged.as_deref(), Some("the disk is on fire"));
    assert!(e.error_body().is_none());
    let reply = e.into_response();
    assert_eq!(reply.status, 500);
    assert!(reply.body.is_empty());
    assert_eq!(
        reply.headers,
        vec![("content-length".to_owned(), "0".to_owned())]
    );
}

#[test]
fn a_bare_status_has_no_body() {
    let reply = ApiError::status_only(416)
        .with_header("content-range", "bytes */10")
        .into_response();
    assert_eq!(reply.status, 416);
    assert!(reply.body.is_empty());
    assert_eq!(
        reply.headers,
        vec![
            ("content-length".to_owned(), "0".to_owned()),
            ("content-range".to_owned(), "bytes */10".to_owned()),
        ]
    );
}

#[test]
fn an_error_that_cannot_be_encoded_still_has_a_body() {
    let reply = ApiError::new(ErrorCode::NameUnknown).into_reply(None);
    assert_eq!(reply.status, 404);
    assert_eq!(
        reply.body,
        br#"{"errors":[{"code":"UNSUPPORTED","message":"error encoding failed"}]}"#
    );
}

#[test]
fn an_error_response_carries_its_own_body() {
    let reply = ApiError::new(ErrorCode::NameUnknown)
        .with_message("no \"such\"\nname")
        .into_response();
    assert_eq!(reply.status, 404);
    assert_eq!(
        reply.body,
        br#"{"errors":[{"code":"NAME_UNKNOWN","message":"no \"such\"\nname"}]}"#
    );
    assert_eq!(
        reply.headers,
        vec![
            ("content-type".to_owned(), "application/json".to_owned()),
            (
                "content-length".to_owned(),
                reply.body.len().to_string()
            ),
        ]
    );
}

#[test]
fn an_error_body_is_framed_around_its_members() {
    assert_eq!(
        frame_error(ErrorCode::Denied, b"\"m\"".to_vec(), None),
        br#"{"errors":[{"code":"DENIED","message":"m"}]}"#
    );
    assert_eq!(
        frame_error(ErrorCode::Denied, b"\"m\"".to_vec(), Some(b"[1]".to_vec())),
        br#"{"errors":[{"code":"DENIED","message":"m","detail":[1]}]}"#
    );
}

#[test]
fn an_error_body_reads_back_as_its_members() {
    let mut detail = serde_json::Map::new();
    detail.insert("at".to_owned(), serde_json::Value::from("\u{1f980}"));
    let e = ApiError::new(ErrorCode::BlobUnknown)
        .with_message("\t\\\u{7}")
        .with_detail(serde_json::Value::from(detail));
    let body = e.error_body().expect("has a body");
    let read: serde_json::Value = serde_json::from_slice(&body).expect("is JSON");
    assert_eq!(read["errors"][0]["code"], "BLOB_UNKNOWN");
    assert_eq!(read["errors"][0]["message"], "\t\\\u{7}");
    assert_eq!(read["errors"][0]["detail"]["at"], "\u{1f980}");
    assert_eq!(read["errors"].as_array().map(|all| all.len()), Some(1));
}

fn refused(e: OpsError) -> (u16, &'static str, Option<String>) {
    let e = ops_error(e);
    let detail = e
        .detail
        .as_ref()
        .and_then(|v| v.as_str())
        .map(str::to_owned);
    (e.status(), e.code().as_str(), detail)
}

#[test]
fn every_failure_from_below_has_a_spec_error() {
    let digest = parse_digest(&format!("sha256:{}", "ab".repeat(32))).expect("valid");
    assert_eq!(
        refused(OpsError::RepoUnknown),
        (404, "NAME_UNKNOWN", None)
    );
    assert_eq!(
        refused(OpsError::ManifestUnknown),
        (404, "MANIFEST_UNKNOWN", None)
    );
    assert_eq!(refused(OpsError::BlobUnknown), (404, "BLOB_UNKNOWN", None));
    assert_eq!(
        refused(OpsError::UploadUnknown),
        (404, "BLOB_UPLOAD_UNKNOWN", None)
    );
    assert_eq!(
        refused(OpsError::OffsetMismatch { current: 12 }),
        (
            416,
            "BLOB_UPLOAD_INVALID",
            Some("expected the chunk to start at 12".to_owned())
        )
    );
    assert_eq!(
        refused(OpsError::DigestMismatch),
        (400, "DIGEST_INVALID", None)
    );
    assert_eq!(
        refused(OpsError::ManifestInvalid("no".to_owned())),
        (400, "MANIFEST_INVALID", Some("no".to_owned()))
    );
    assert_eq!(
        refused(OpsError::ManifestBlobUnknown {
            digest: digest.clone()
        }),
        (
            400,
            "MANIFEST_BLOB_UNKNOWN",
            Some(format!(
                "{} is not present in this repository",
                digest.to_text()
            ))
        )
    );
    assert_eq!(
        refused(OpsError::SizeMismatch {
            declared: 10,
            actual: 9
        }),
        (
            400,
            "SIZE_INVALID",
            Some("expected 10 bytes, got 9".to_owned())
        )
    );
    assert_eq!(
        refused(OpsError::BodyTooLarge { limit: 4096 }),
        (
            413,
            "SIZE_INVALID",
            Some("limit is 4096 bytes".to_owned())
        )
    );
    assert_eq!(
        refused(OpsError::BodyIncomplete("cut".to_owned())),
        (400, "BLOB_UPLOAD_INVALID", Some("cut".to_owned()))
    );
    assert_eq!(refused(OpsError::Internal("x".to_owned())).0, 500);
}

#[test]
fn a_refused_method_names_the_allowed_ones() {
    let e = method_not_allowed("GET, HEAD");
    assert_eq!(e.status(), 405);
    assert_eq!(e.code(), ErrorCode::Unsupported);
    assert_eq!(
        e.extra,
        vec![("allow".to_owned(), "GET, HEAD".to_owned())]
    );
}

#[test]
fn an_empty_response_keeps_its_length() {
    let digest = parse_digest(&format!("sha256:{}", "0f".repeat(32))).expect("valid");
    let value = digest_header(&digest);
    assert_eq!(value, format!("sha256:{}", "0f".repeat(32)));
    let reply = empty_with_length(
        200,
        1234,
        vec![("docker-content-digest".to_owned(), value.clone())],
    );
    assert_eq!(reply.status, 200);
    assert!(reply.body.is_empty());
    assert_eq!(
        reply.headers,
        vec![
            ("content-length".to_owned(), "1234".to_owned()),
            ("docker-content-digest".to_owned(), value),
        ]
    );
}
