use std::sync::Arc;

use axum::http::{HeaderMap, HeaderValue};
use summ_server::app::AppState;
use summ_server::calendar::{day_bucket, iso_date, weekday};
use summ_server::config::ServerConfig;
use summ_server::error::{ApiError, ErrorCode};
use summ_server::handlers::api::{
    deleted, json, parse_reference, plan, ApiCall, ApiEndpoint,
};
use summ_server::handlers::bodies::{
    bytes_fit, manifest_body, manifests_body, pull_counts_body, repositories_body,
    repository_body, tag_history_body, tags_body,
};
use summ_server::handlers::referrers;
use summ_server::handlers::Ctx;
use summ_server::pagination;
use summ_server::query;
use summ_server::reference::{parse_digest, Digest, Reference};
use summ_server::seam::{
    CounterBucket, Descriptor, HistoryCursor, ManifestInfo, OpsError, Page, PullCountDay,
    PullCountScope, Referrers, RepoDetail, RepoPage, RepoSummary, TagEventInfo, TagInfo, Tally,
};
use summ_server::wire::{Method, Reply};

fn ctx(method: Method, query: &str) -> Ctx<()> {
    Ctx {
        state: AppState::new(Arc::new(()), ServerConfig::default()),
        method,
        path: "/".to_owned(),
        query: query::pairs(query),
        headers: HeaderMap::new(),
    }
}

fn digest(byte: &str) -> Digest {
    parse_digest(&format!("sha256:{}", byte.repeat(32))).expect("valid")
}

fn hex(byte: &str) -> String {
    format!("sha256:{}", byte.repeat(32))
}

fn header<'a>(reply: &'a Reply, name: &str) -> Option<&'a str> {
    reply
        .headers
        .iter()
        .find(|(n, _)| n == name)
        .map(|(_, v)| v.as_str())
}

fn detail(e: &ApiError) -> Option<&str> {
    e.detail.as_ref().and_then(|v| v.as_str())
}

/// The one thing `iso_date` can get wrong is a leap year, and it gets it wrong
/// silently: every column of a wall shifts by a day.
#[test]
fn day_buckets_become_the_dates_they_name() {
    assert_eq!(iso_date(0), "1970-01-01");
    assert_eq!(iso_date(1), "1970-01-02");
    // 2000 is a leap year, 1900 was not - the rule the naive version misses.
    assert_eq!(iso_date(11_016), "2000-02-29");
    assert_eq!(iso_date(11_017), "2000-03-01");
    assert_eq!(iso_date(19_723), "2024-01-01");
    assert_eq!(iso_date(19_782), "2024-02-29");
    // The far end of the u16 range still decodes rather than wrapping.
    assert_eq!(iso_date(u16::MAX), "2149-06-06");
}

#[test]
fn every_date_is_named_once_and_in_order() {
    let mut last = iso_date(0);
    for day in 1..=u16::MAX {
        let date = iso_date(day);
        assert!(last < date, "{last} before {date}");
        last = date;
    }
}

#[test]
fn the_calendar_goes_on_by_one_date_a_day() {
    let next = |day: u16| (iso_date(day), iso_date(day + 1));
    let dates = |a: &str, b: &str| (a.to_owned(), b.to_owned());
    assert_eq!(next(19416), dates("2023-02-28", "2023-03-01"));
    assert_eq!(next(19781), dates("2024-02-28", "2024-02-29"));
    assert_eq!(next(19843), dates("2024-04-30", "2024-05-01"));
    assert_eq!(next(10956), dates("1999-12-31", "2000-01-01"));
    // 2100 is no leap year.
    assert_eq!(next(47540), dates("2100-02-28", "2100-03-01"));
}

#[test]
fn days_are_counted_from_the_epoch_and_weekdays_from_sunday() {
    assert_eq!(day_bucket(0), 0);
    assert_eq!(day_bucket(86_399), 0);
    assert_eq!(day_bucket(86_400), 1);
    assert_eq!(day_bucket(u64::MAX), u16::MAX);
    // The epoch was a Thursday, and 2024 began on a Monday.
    assert_eq!(weekday(0), 4);
    assert_eq!(weekday(3), 0);
    assert_eq!(weekday(19_723), 1);
}

#[test]
fn the_request_is_read_through_its_context() {
    let mut ctx = ctx(Method::Get, "a=1&a=2&dry-run&off=false&zero=0&no=no&on=yes");
    assert_eq!(ctx.param("a"), Some("1"));
    assert_eq!(ctx.param("b"), None);
    assert!(ctx.flag("dry-run"));
    assert!(ctx.flag("on"));
    assert!(!ctx.flag("off"));
    assert!(!ctx.flag("zero"));
    assert!(!ctx.flag("no"));
    assert!(!ctx.flag("absent"));
    ctx.headers
        .insert("x-test", HeaderValue::from_static("value"));
    ctx.headers.append("x-test", HeaderValue::from_static("late"));
    ctx.headers.insert(
        "x-opaque",
        HeaderValue::from_bytes(b"\xff").expect("opaque bytes are a header value"),
    );
    assert_eq!(ctx.header("X-Test").as_deref(), Some("value"));
    assert_eq!(ctx.header("x-opaque"), None);
    assert_eq!(ctx.header("x-absent"), None);
    assert_eq!(ctx.config().max_page_size, 1000);
    assert!(!ctx.counters().is_enabled());
    assert_eq!(*ctx.registry(), ());
}

#[test]
fn only_the_named_mutations_are_not_reads() {
    let repository = || ApiEndpoint::Repository {
        name: "a".to_owned(),
    };
    assert!(matches!(
        plan(&ctx(Method::Delete, ""), repository(), 0),
        Ok(ApiCall::DeleteRepository { name }) if name == "a"
    ));
    assert!(matches!(
        plan(&ctx(Method::Post, "dry-run"), ApiEndpoint::Purge, 0),
        Ok(ApiCall::Purge { dry_run: true })
    ));
    assert!(matches!(
        plan(&ctx(Method::Post, ""), ApiEndpoint::Purge, 0),
        Ok(ApiCall::Purge { dry_run: false })
    ));
    assert!(matches!(
        plan(&ctx(Method::Get, ""), ApiEndpoint::Purge, 0),
        Ok(ApiCall::LastPurge)
    ));
    for (method, endpoint, allow) in [
        (Method::Delete, ApiEndpoint::Purge, "GET, HEAD, POST"),
        (Method::Post, repository(), "GET, HEAD, DELETE"),
        (Method::Delete, ApiEndpoint::Repositories, "GET, HEAD"),
        (Method::Post, ApiEndpoint::Repositories, "GET, HEAD"),
        (Method::Put, repository(), "GET, HEAD, DELETE"),
        (Method::Put, ApiEndpoint::Purge, "GET, HEAD, POST"),
        (Method::Options, ApiEndpoint::Repositories, "GET, HEAD"),
    ] {
        let e = plan(&ctx(method, ""), endpoint, 0).expect_err("refused");
        assert_eq!(e.status(), 405);
        assert_eq!(e.extra, vec![("allow".to_owned(), allow.to_owned())]);
    }
}

#[test]
fn a_listing_is_asked_for_by_page() {
    let call = plan(
        &ctx(Method::Get, "n=7&last=demo%2Fapp&q=x"),
        ApiEndpoint::Repositories,
        0,
    );
    let Ok(ApiCall::Repositories { query, last, limit }) = call else {
        panic!("a listing");
    };
    assert_eq!(
        (query.as_str(), last.as_deref(), limit),
        ("x", Some("demo/app"), 7)
    );
    let tags = || ApiEndpoint::Tags {
        name: "a".to_owned(),
    };
    for (asked, given) in [
        ("", 25),
        ("n=0", 1),
        ("n=100", 100),
        ("n=1000000", 100),
        ("n=18446744073709551616", 100),
        ("n=%2B7", 7),
    ] {
        let Ok(ApiCall::Tags { limit, last, .. }) = plan(&ctx(Method::Head, asked), tags(), 0)
        else {
            panic!("{asked} is a page");
        };
        assert_eq!(limit, given, "{asked}");
        assert!(last.is_none());
    }
    let e = plan(&ctx(Method::Get, "n=seven"), tags(), 0).expect_err("no number");
    assert_eq!(e.code(), ErrorCode::PaginationNumberInvalid);
    assert_eq!(e.status(), 400);
}

#[test]
fn a_manifest_cursor_is_a_digest() {
    let manifests = || ApiEndpoint::Manifests {
        name: "a".to_owned(),
    };
    let Ok(ApiCall::Manifests { last, .. }) = plan(
        &ctx(Method::Get, &format!("last={}", hex("ab"))),
        manifests(),
        0,
    ) else {
        panic!("a listing");
    };
    assert_eq!(last, Some(digest("ab")));
    assert!(plan(&ctx(Method::Get, "last=latest"), manifests(), 0).is_err());
}

#[test]
fn a_reference_is_a_digest_or_a_tag() {
    assert_eq!(
        parse_reference(&hex("ab")).ok(),
        Some(Reference::Digest(digest("ab")))
    );
    assert_eq!(
        parse_reference("v1.2").ok(),
        Some(Reference::Tag("v1.2".to_owned()))
    );
    assert!(parse_reference("sha256:abcd").is_err());
    assert!(parse_reference("no spaces").is_err());
}

#[test]
fn a_pull_count_window_ends_today() {
    let counts = |reference: Option<&str>| ApiEndpoint::PullCounts {
        name: "a".to_owned(),
        reference: reference.map(str::to_owned),
    };
    let Ok(ApiCall::PullCounts {
        from, days, scope, ..
    }) = plan(&ctx(Method::Get, "days=7"), counts(None), 100)
    else {
        panic!("a window");
    };
    assert_eq!((from, days), (94, 7));
    assert_eq!(scope.label(), "repository");
    let Ok(ApiCall::PullCounts { from, scope, .. }) =
        plan(&ctx(Method::Get, "days=400"), counts(Some("v1")), 100)
    else {
        panic!("a window");
    };
    assert_eq!(from, 0, "the epoch is as early as it gets");
    assert_eq!(scope.label(), "tag");
    let Ok(ApiCall::PullCounts { scope, .. }) =
        plan(&ctx(Method::Get, ""), counts(Some(&hex("ab"))), 100)
    else {
        panic!("a window");
    };
    assert_eq!(scope.label(), "manifest");
    // Too large a number is clamped, however large; only what is no number at all
    // is refused.
    for (asked, given) in [
        ("days=0", 1),
        ("days=401", 400),
        ("days=18446744073709551615", 400),
        ("days=18446744073709551616", 400),
        ("days=99999999999999999999999999", 400),
    ] {
        let Ok(ApiCall::PullCounts { from, days, .. }) =
            plan(&ctx(Method::Get, asked), counts(None), 1000)
        else {
            panic!("{asked} is a window");
        };
        assert_eq!((from, days), (1001 - given, given), "{asked}");
    }
    for no_number in ["x", "", "-1", "1e3", "99999999999999999999999x"] {
        let e = plan(
            &ctx(Method::Get, &format!("days={no_number}")),
            counts(None),
            100,
        )
        .expect_err("no number");
        assert_eq!(e.code(), ErrorCode::PaginationNumberInvalid);
    }
}

#[test]
fn a_history_is_resumed_at_an_instant() {
    let history = || ApiEndpoint::TagHistory {
        name: "a".to_owned(),
        reference: "v1".to_owned(),
    };
    let Ok(ApiCall::TagHistory {
        before,
        last,
        reference,
        ..
    }) = plan(&ctx(Method::Get, "before=1234&last=v1"), history(), 0)
    else {
        panic!("a page");
    };
    assert_eq!(before, Some(1234));
    assert_eq!(last.as_deref(), Some("v1"));
    assert_eq!(reference, Reference::Tag("v1".to_owned()));
    let cursor = format!("before={}&last=v1", u64::MAX);
    let Ok(ApiCall::TagHistory { before, .. }) = plan(&ctx(Method::Get, &cursor), history(), 0)
    else {
        panic!("a page");
    };
    assert_eq!(before, Some(u64::MAX));
    assert!(plan(&ctx(Method::Get, "before=x"), history(), 0).is_err());
}

#[test]
fn a_discovery_answer_is_not_cached_and_a_head_keeps_its_length() {
    let get = json(&Method::Get, b"{}".to_vec());
    assert_eq!(get.status, 200);
    assert_eq!(get.body, b"{}");
    assert_eq!(header(&get, "cache-control"), Some("no-store"));
    let head = json(&Method::Head, b"{}".to_vec());
    assert!(head.body.is_empty());
    assert_eq!(header(&head, "content-length"), Some("2"));
    assert_eq!(head.headers, get.headers);
    let gone = deleted();
    assert_eq!(gone.status, 202);
    assert!(gone.body.is_empty());
    assert_eq!(header(&gone, "content-length"), Some("0"));
}

fn info(byte: &str) -> ManifestInfo {
    ManifestInfo {
        digest: digest(byte),
        media_type: "application/vnd.oci.image.manifest.v1+json".to_owned(),
        size: 10,
        blob_size: 20,
        artifact_type: None,
        subject: Some(digest("cd")),
        pushed_at: 5,
        platforms: vec!["linux/amd64".to_owned()],
        blobs: 1,
        children: 0,
        tags: vec!["v1".to_owned()],
        annotations: vec![("k".to_owned(), "v".to_owned())],
    }
}

#[test]
fn bodies_show_what_they_are_given() {
    let tally = Tally::exact(3);
    let page = repositories_body(RepoPage {
        items: vec![RepoSummary {
            name: "a".to_owned(),
            tags: tally,
            manifests: Tally {
                count: 10_000,
                complete: false,
            },
        }],
        next: Some("b".to_owned()),
    });
    assert_eq!(page.next.as_deref(), Some("b"));
    assert_eq!(page.repositories[0].tags, tally);
    assert!(!page.repositories[0].manifests.complete);
    let one = repository_body(RepoDetail {
        name: "a".to_owned(),
        tags: tally,
        manifests: tally,
        blobs: tally,
        size_bytes: 99,
    });
    assert_eq!((one.name.as_str(), one.size_bytes), ("a", 99));
    let manifest = manifest_body(info("ab"));
    assert_eq!(manifest.digest, hex("ab"));
    assert_eq!(manifest.subject, Some(hex("cd")));
    assert_eq!(manifest.blob_size, 20);
}

#[test]
fn a_listing_goes_on_behind_its_last_row() {
    let tag = |name: &str| TagInfo {
        name: name.to_owned(),
        digest: digest("ab"),
        tagged_at: 1,
        manifest: Some(info("ab")),
    };
    let more = tags_body(Page {
        items: vec![tag("a"), tag("b")],
        more: true,
    });
    assert_eq!(more.next.as_deref(), Some("b"));
    assert_eq!(more.tags[0].digest, hex("ab"));
    let done = tags_body(Page {
        items: vec![tag("a")],
        more: false,
    });
    assert_eq!(done.next, None);
    let manifests = manifests_body(Page {
        items: vec![info("ab"), info("ef")],
        more: true,
    });
    assert_eq!(manifests.next, Some(hex("ef")));
    assert!(parse_digest(&hex("ef")).is_ok());
}

#[test]
fn a_tag_event_says_what_happened() {
    let event = |deleted: bool| TagEventInfo {
        at: 1_700_000_000_000,
        tag: "v1".to_owned(),
        digest: digest("ab"),
        deleted,
        media_type: "m".to_owned(),
        size: 4,
    };
    let body = tag_history_body(
        vec![event(true), event(false)],
        Some(HistoryCursor {
            before: 7,
            last: "v1".to_owned(),
        }),
    );
    assert_eq!(body.events[0].event, "deleted");
    assert_eq!(body.events[1].event, "created");
    assert_eq!(body.events[0].at, 1_700_000_000_000);
    assert_eq!(body.next.map(|c| c.before), Some(7));
}

fn bucket(pulls: u32, bytes: u64) -> CounterBucket {
    let mut bucket = CounterBucket {
        manifest_pulls: [0; 24],
        blob_pulls: [0; 24],
        bytes_out: [0; 24],
    };
    bucket.manifest_pulls[23] = pulls;
    bucket.blob_pulls[0] = 2;
    bucket.bytes_out[12] = bytes;
    bucket
}

#[test]
fn every_day_of_a_window_is_a_row() {
    let series = vec![
        PullCountDay {
            day: 11_016,
            bucket: bucket(3, 100),
        },
        PullCountDay {
            day: 11_018,
            bucket: bucket(4, 200),
        },
    ];
    assert!(bytes_fit(&series, 11_015, 4));
    let body = pull_counts_body(
        "demo/app",
        None,
        &PullCountScope::Repository,
        11_015,
        4,
        &series,
    );
    assert_eq!(body.repository, "demo/app");
    assert_eq!(body.scope, "repository");
    assert!(body.approximate);
    assert_eq!(
        (body.from.as_str(), body.to.as_str()),
        ("2000-02-28", "2000-03-02")
    );
    let pulls: Vec<u64> = body.days.iter().map(|d| d.manifest_pulls).collect();
    assert_eq!(pulls, vec![0, 3, 0, 4]);
    assert_eq!(body.days[1].date, "2000-02-29");
    assert_eq!(body.days[1].hours.manifest_pulls[23], 3);
    assert_eq!(body.days[0].hours.bytes_out, vec![0u64; 24]);
    assert_eq!(body.totals.manifest_pulls, 7);
    assert_eq!(body.totals.blob_pulls, 4);
    assert_eq!(body.totals.bytes_out, 300);
}

#[test]
fn totals_that_do_not_fit_are_told_apart() {
    let day = |day: u16| PullCountDay {
        day,
        bucket: bucket(1, u64::MAX),
    };
    assert!(bytes_fit(&vec![day(1)], 1, 2));
    assert!(!bytes_fit(&vec![day(1), day(2)], 1, 2));
    // Only the days that the window shows are added.
    assert!(bytes_fit(&vec![day(1), day(2)], 1, 1));
    let body = pull_counts_body(
        "a",
        None,
        &PullCountScope::Repository,
        1,
        1,
        &vec![day(1), day(2)],
    );
    assert_eq!(body.totals.bytes_out, u64::MAX);
}

#[test]
fn a_page_is_clamped_and_never_refused_for_its_size() {
    let config = ServerConfig::default();
    let page = |q: &str| pagination::parse(&query::pairs(q), &config);
    let none = page("").ok().expect("a page");
    assert_eq!((none.limit, none.last, none.explicit_zero), (1000, None, false));
    let clamped = page("n=5000").ok().expect("a page");
    assert_eq!(clamped.limit, 1000);
    let huge = page("n=18446744073709551616").ok().expect("a page");
    assert_eq!((huge.limit, huge.explicit_zero), (1000, false));
    let zero = page("n=0&last=a").ok().expect("a page");
    assert!(zero.explicit_zero);
    assert_eq!(zero.last.as_deref(), Some("a"));
    let e = page("n=-1").err().expect("no page");
    assert_eq!(e.code(), ErrorCode::PaginationNumberInvalid);
    assert_eq!(detail(&e), Some("n=-1"));
}

fn asked(query: &str) -> referrers::ReferrersQuery {
    referrers::plan(&ctx(Method::Get, query), &hex("ab"))
        .ok()
        .expect("a query")
}

fn descriptor(byte: &str) -> Descriptor {
    Descriptor {
        media_type: "application/vnd.oci.image.manifest.v1+json".to_owned(),
        digest: digest(byte),
        size: 7,
        artifact_type: Some("text/sbom".to_owned()),
        annotations: vec![("k\"ey".to_owned(), "v".to_owned())],
    }
}

#[test]
fn referrers_are_listed_as_an_index() {
    let q = asked("");
    let reply = referrers::answer(
        &Method::Get,
        "demo/app",
        &q,
        Ok(Referrers {
            manifests: vec![descriptor("cd")],
            filter_applied: false,
            next: None,
        }),
    )
    .ok()
    .expect("an index");
    assert_eq!(reply.status, 200);
    assert_eq!(
        header(&reply, "content-type"),
        Some("application/vnd.oci.image.index.v1+json")
    );
    assert_eq!(
        header(&reply, "content-length"),
        Some(reply.body.len().to_string().as_str())
    );
    assert_eq!(header(&reply, "link"), None);
    assert_eq!(header(&reply, "oci-filters-applied"), None);
    let index: serde_json::Value = serde_json::from_slice(&reply.body).expect("JSON");
    assert_eq!(index["schemaVersion"].as_u64(), Some(2));
    assert_eq!(
        index["mediaType"].as_str(),
        Some("application/vnd.oci.image.index.v1+json")
    );
    let row = &index["manifests"][0];
    assert_eq!(row["digest"].as_str(), Some(hex("cd").as_str()));
    assert_eq!(row["size"].as_u64(), Some(7));
    assert_eq!(row["artifactType"].as_str(), Some("text/sbom"));
    assert_eq!(row["annotations"]["k\"ey"].as_str(), Some("v"));
    assert!(index["manifests"][1].is_null());
}

#[test]
fn annotations_are_shown_each_once_and_only_where_there_are_any() {
    let mut many = descriptor("cd");
    many.annotations = vec![
        ("a".to_owned(), "1".to_owned()),
        ("ab".to_owned(), "2".to_owned()),
        ("b".to_owned(), "1".to_owned()),
    ];
    let mut none = descriptor("ef");
    none.annotations = Vec::new();
    let reply = referrers::answer(
        &Method::Get,
        "a",
        &asked(""),
        Ok(Referrers {
            manifests: vec![many, none],
            filter_applied: false,
            next: None,
        }),
    )
    .ok()
    .expect("an index");
    let index: serde_json::Value = serde_json::from_slice(&reply.body).expect("JSON");
    let shown = index["manifests"][0]["annotations"]
        .as_object()
        .expect("an object");
    let pairs: Vec<(&str, Option<&str>)> = shown
        .iter()
        .map(|(key, value)| (key.as_str(), value.as_str()))
        .collect();
    assert_eq!(
        pairs,
        vec![("a", Some("1")), ("ab", Some("2")), ("b", Some("1"))]
    );
    assert!(index["manifests"][1].get("annotations").is_none());
}

#[test]
fn an_unknown_repository_has_no_referrers_rather_than_being_an_error() {
    let q = asked("artifactType=text%2Fsbom");
    assert_eq!(q.artifact_type.as_deref(), Some("text/sbom"));
    let reply = referrers::answer(&Method::Get, "a", &q, Err(OpsError::RepoUnknown))
        .ok()
        .expect("an empty index");
    assert_eq!(reply.status, 200);
    assert_eq!(header(&reply, "oci-filters-applied"), Some("artifactType"));
    let index: serde_json::Value = serde_json::from_slice(&reply.body).expect("JSON");
    assert_eq!(index["manifests"].as_array().map(Vec::len), Some(0));
    let failed = referrers::answer(
        &Method::Get,
        "a",
        &q,
        Err(OpsError::Internal("x".to_owned())),
    )
    .err()
    .expect("a failure is a failure");
    assert_eq!(failed.status(), 500);
}

#[test]
fn a_referrers_link_continues_the_listing() {
    let q = asked("n=1&artifactType=text%2Fsbom");
    let found = || Referrers {
        manifests: Vec::new(),
        filter_applied: true,
        next: Some(digest("ef")),
    };
    let reply = referrers::answer(&Method::Head, "a", &q, Ok(found()))
        .ok()
        .expect("a page");
    assert!(reply.body.is_empty());
    let link = header(&reply, "link").expect("there is more");
    assert!(link.starts_with(&format!("</v2/a/referrers/{}?", hex("ab"))));
    assert!(link.ends_with(">; rel=\"next\""));
    assert!(link.contains("n=1"));
    assert!(link.contains("artifactType=text%2Fsbom"));
    let query = link
        .split_once('?')
        .and_then(|(_, rest)| rest.split_once('>'))
        .map(|(query, _)| query.to_owned())
        .expect("a link has a query");
    let next = asked(&query);
    assert_eq!(next.last, Some(digest("ef")));
    assert_eq!(next.limit, 1);
    let zero = asked("n=0");
    let reply = referrers::answer(&Method::Get, "a", &zero, Ok(found()))
        .ok()
        .expect("a page of nothing");
    assert_eq!(header(&reply, "link"), None);
}

#[test]
fn a_malformed_subject_is_a_400_and_a_disabled_endpoint_a_404() {
    let e = referrers::plan(&ctx(Method::Get, ""), "sha256:abcd")
        .err()
        .expect("malformed");
    assert_eq!(e.status(), 400);
    assert_eq!(e.code(), ErrorCode::DigestInvalid);
    let mut off = ctx(Method::Get, "");
    off.state.config = Arc::new(ServerConfig {
        referrers_enabled: false,
        ..ServerConfig::default()
    });
    let e = referrers::plan(&off, &hex("ab")).err().expect("off");
    assert_eq!(e.status(), 404);
    let e = referrers::plan(&ctx(Method::Put, ""), &hex("ab"))
        .err()
        .expect("read-only");
    assert_eq!(e.status(), 405);
}

#[test]
fn queries_are_decoded_pair_by_pair() {
    let pairs = query::pairs("a=1+2&b=%2B&c&=d&a=3");
    let pair = |k: &str, v: &str| (k.to_owned(), v.to_owned());
    assert_eq!(query::first(&pairs, "a"), Some("1 2"));
    assert_eq!(query::first(&pairs, "b"), Some("+"));
    assert_eq!(query::first(&pairs, "c"), Some(""));
    assert_eq!(query::first(&pairs, "z"), None);
    assert!(pairs.contains(&pair("a", "3")));
    assert!(query::pairs("").is_empty());
}

#[test]
fn encoding_survives_decoding() {
    for text in ["", "a/b", "sha256:ab", "\u{e9}\u{1f600} %?&=+#", "plain"] {
        let encoded = query::percent_encode(text);
        assert!(encoded.bytes().all(|b| b.is_ascii_graphic()), "{encoded}");
        assert!(!encoded.contains('/'), "{encoded}");
        assert_eq!(query::path_decode(&encoded), text);
    }
    assert_eq!(query::percent_encode("a/b"), "a%2Fb");
}
