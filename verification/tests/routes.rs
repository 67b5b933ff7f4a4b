use std::sync::Arc;

use axum::http::{HeaderMap, HeaderValue};
use summ_server::app::{
    api_route, authenticate, dispatch, dispatch_api, fallback, route, AppState, Endpoint, RouteError,
};
use summ_server::auth::{ApiKey, AuthPolicy};
use summ_server::config::ServerConfig;
use summ_server::counters::PullCounters;
use summ_server::error::ErrorCode;
use summ_server::handlers::api::ApiEndpoint;
use summ_server::wire::Method;

fn manifest(name: &str, reference: &str) -> Result<Endpoint, RouteError> {
    Ok(Endpoint::Manifest {
        name: name.to_owned(),
        reference: reference.to_owned(),
    })
}

/// The `@` split is what makes a name containing `/` safe here: a repository
/// named `demo/app` and a tag are one path, unambiguously, because `@` is in
/// neither the name grammar nor the tag grammar.
#[test]
fn tag_history_splits_the_reference_off_the_end() {
    assert_eq!(
        api_route("/api/v1/tag-history/demo/app@latest"),
        Ok(ApiEndpoint::TagHistory {
            name: "demo/app".to_owned(),
            reference: "latest".to_owned(),
        })
    );
    assert_eq!(
        api_route("/api/v1/tag-history/demo/app@sha256:abcd"),
        Ok(ApiEndpoint::TagHistory {
            name: "demo/app".to_owned(),
            reference: "sha256:abcd".to_owned(),
        })
    );
    // No whole-repository history collection: a bare name has nothing to answer.
    assert_eq!(
        api_route("/api/v1/tag-history/demo/app"),
        Err(RouteError::NoMatch)
    );
    assert_eq!(api_route("/api/v1/tag-history"), Err(RouteError::NoMatch));
}

#[test]
fn base_matches_with_and_without_a_trailing_slash() {
    assert_eq!(route("/v2/"), Ok(Endpoint::Base));
    assert_eq!(route("/v2"), Ok(Endpoint::Base));
}

#[test]
fn catalog_is_not_confused_with_a_repository() {
    assert_eq!(route("/v2/_catalog"), Ok(Endpoint::Catalog));
    // `_catalog` fails the name grammar, so there is no ambiguity to resolve: it
    // could never have been a repository.
    assert_eq!(
        route("/v2/_catalog/tags/list"),
        Err(RouteError::InvalidName("_catalog".to_owned()))
    );
}

#[test]
fn repository_names_may_contain_slashes() {
    assert_eq!(route("/v2/foo/manifests/v1"), manifest("foo", "v1"));
    assert_eq!(route("/v2/foo/bar/manifests/v1"), manifest("foo/bar", "v1"));
    assert_eq!(
        route("/v2/foo/bar/baz/manifests/v1"),
        manifest("foo/bar/baz", "v1")
    );
    assert_eq!(
        route("/v2/a/b/c/d/e/f/g/h/i/manifests/v1"),
        manifest("a/b/c/d/e/f/g/h/i", "v1"),
        "there is no depth limit, unlike a per-depth route table"
    );
}

#[test]
fn a_repository_may_be_called_blobs_or_manifests() {
    assert_eq!(
        route("/v2/foo/blobs/manifests/v1"),
        manifest("foo/blobs", "v1")
    );
    assert_eq!(
        route("/v2/foo/manifests/tags/list"),
        Ok(Endpoint::TagList {
            name: "foo/manifests".to_owned()
        })
    );
}

#[test]
fn the_upload_suffix_wins_over_the_blob_suffix() {
    assert_eq!(
        route("/v2/foo/blobs/uploads/"),
        Ok(Endpoint::Uploads {
            name: "foo".to_owned()
        })
    );
    assert_eq!(
        route("/v2/foo/blobs/uploads"),
        Ok(Endpoint::Uploads {
            name: "foo".to_owned()
        })
    );
    assert_eq!(
        route("/v2/foo/bar/blobs/uploads/abc-123"),
        Ok(Endpoint::Upload {
            name: "foo/bar".to_owned(),
            id: "abc-123".to_owned()
        })
    );
}

#[test]
fn blobs_tags_and_referrers_route() {
    assert_eq!(
        route("/v2/foo/blobs/sha256:abcd"),
        Ok(Endpoint::Blob {
            name: "foo".to_owned(),
            digest: "sha256:abcd".to_owned()
        })
    );
    assert_eq!(
        route("/v2/foo/tags/list"),
        Ok(Endpoint::TagList {
            name: "foo".to_owned()
        })
    );
    assert_eq!(
        route("/v2/foo/referrers/sha256:abcd"),
        Ok(Endpoint::Referrers {
            name: "foo".to_owned(),
            digest: "sha256:abcd".to_owned()
        })
    );
}

#[test]
fn a_name_outside_the_grammar_is_distinguished_from_no_route() {
    // The shape matched, so this is `NAME_INVALID` rather than a bare 404.
    assert_eq!(
        route("/v2/FOO/manifests/v1"),
        Err(RouteError::InvalidName("FOO".to_owned()))
    );
    assert_eq!(
        route("/v2/foo-/manifests/v1"),
        Err(RouteError::InvalidName("foo-".to_owned()))
    );
    // An empty segment is not a name at all.
    assert_eq!(route("/v2//manifests/v1"), Err(RouteError::NoMatch));
}

#[test]
fn unknown_shapes_do_not_route() {
    assert_eq!(route("/v2/foo"), Err(RouteError::NoMatch));
    assert_eq!(route("/v2/foo/bar"), Err(RouteError::NoMatch));
    assert_eq!(route("/v2/foo/whatever/v1"), Err(RouteError::NoMatch));
    assert_eq!(route("/v1/foo/manifests/v1"), Err(RouteError::NoMatch));
    assert_eq!(route("/"), Err(RouteError::NoMatch));
}

#[test]
fn segments_are_decoded_after_splitting() {
    // `%2F` inside a reference stays inside the reference. It will then be
    // rejected by the tag grammar, which is the correct outcome - what matters is
    // that it never became a path separator.
    assert_eq!(route("/v2/foo/manifests/a%2Fb"), manifest("foo", "a/b"));
}

#[test]
fn an_escape_that_is_no_utf8_stays_as_it_was_written() {
    assert_eq!(route("/v2/foo/manifests/%C3%A9"), manifest("foo", "\u{e9}"));
    assert_eq!(route("/v2/foo/manifests/%ff"), manifest("foo", "%ff"));
    assert_eq!(route("/v2/foo/manifests/%zz"), manifest("foo", "%zz"));
}

#[test]
fn the_discovery_api_routes_every_resource() {
    let name = || "demo/app".to_owned();
    assert_eq!(
        api_route("/api/v1/repositories"),
        Ok(ApiEndpoint::Repositories)
    );
    assert_eq!(
        api_route("/api/v1/repositories/demo/app"),
        Ok(ApiEndpoint::Repository { name: name() })
    );
    assert_eq!(
        api_route("/api/v1/tags/demo/app"),
        Ok(ApiEndpoint::Tags { name: name() })
    );
    assert_eq!(
        api_route("/api/v1/manifests/demo/app"),
        Ok(ApiEndpoint::Manifests { name: name() })
    );
    assert_eq!(
        api_route("/api/v1/manifests/demo/app@v1"),
        Ok(ApiEndpoint::Manifest {
            name: name(),
            reference: "v1".to_owned()
        })
    );
    assert_eq!(
        api_route("/api/v1/pull-counts/demo/app"),
        Ok(ApiEndpoint::PullCounts {
            name: name(),
            reference: None
        })
    );
    assert_eq!(
        api_route("/api/v1/pull-counts/demo/app@v1"),
        Ok(ApiEndpoint::PullCounts {
            name: name(),
            reference: Some("v1".to_owned())
        })
    );
    assert_eq!(api_route("/api/v1/purge"), Ok(ApiEndpoint::Purge));
    assert_eq!(
        api_route("/api/v1/tags/DEMO"),
        Err(RouteError::InvalidName("DEMO".to_owned()))
    );
    assert_eq!(api_route("/api/v1/nothing"), Err(RouteError::NoMatch));
    assert_eq!(api_route("/v2/"), Err(RouteError::NoMatch));
}

#[test]
fn a_path_that_routes_nowhere_is_a_404_and_a_bad_name_is_name_invalid() {
    assert_eq!(dispatch("/v2/").ok(), Some(Endpoint::Base));
    let nowhere = dispatch("/v2/foo").expect_err("no such shape");
    assert_eq!(nowhere.status(), 404);
    assert_eq!(nowhere.code(), ErrorCode::NameUnknown);
    assert_eq!(nowhere.message, "unknown repository or endpoint");
    assert_eq!(
        nowhere.detail.as_ref().and_then(|v| v.as_str()),
        Some("/v2/foo")
    );
    let misnamed = dispatch("/v2/FOO/manifests/v1").expect_err("no such name");
    assert_eq!(misnamed.code(), ErrorCode::NameInvalid);
    assert_eq!(misnamed.status(), 400);
    assert_eq!(
        dispatch_api("/api/v1/purge").ok(),
        Some(ApiEndpoint::Purge)
    );
    assert_eq!(
        dispatch_api("/api/v1/nothing").map_err(|e| e.status()).err(),
        Some(404)
    );
    assert_eq!(
        dispatch_api("/api/v1/tags/DEMO").map_err(|e| e.code()).err(),
        Some(ErrorCode::NameInvalid)
    );
}

#[test]
fn the_fallback_leaves_only_the_ui_its_paths() {
    assert!(fallback("/v2/foo").is_some());
    assert!(fallback("/api/v1/nothing").is_some());
    assert!(fallback("/").is_none());
    assert!(fallback("/r/demo/app").is_none());
}

#[test]
fn the_middleware_judges_every_request_by_the_policy() {
    let policy = AuthPolicy::PublicPull {
        write: ApiKey::new("write-key"),
    };
    let anonymous = HeaderMap::new();
    assert!(authenticate(&policy, &Method::Get, &anonymous).is_none());
    let refused = authenticate(&policy, &Method::Put, &anonymous).expect("a write needs a key");
    assert_eq!(refused.status(), 401);
    let mut keyed = HeaderMap::new();
    keyed.insert("Authorization", HeaderValue::from_static("Bearer write-key"));
    assert!(authenticate(&policy, &Method::Put, &keyed).is_none());
    assert!(authenticate(&AuthPolicy::Open, &Method::Put, &anonymous).is_none());
}

#[test]
fn state_counts_nothing_unless_it_is_given_counters() {
    let state = AppState::new(Arc::new(7u8), ServerConfig::default());
    assert!(!state.counters.is_enabled());
    let counting = AppState::with_counters(
        Arc::new(7u8),
        ServerConfig::default(),
        Arc::new(PullCounters::new()),
    );
    assert!(counting.counters.is_enabled());
    assert!(!PullCounters::disabled().is_enabled());
    assert_eq!(*counting.registry, 7);
    assert_eq!(counting.config.max_page_size, 1000);
}
