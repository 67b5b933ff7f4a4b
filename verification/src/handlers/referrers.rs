//! end-12: `GET /v2/<name>/referrers/<digest>`.
//!
//! The rule that catches implementations out: **once the API is on it MUST NOT
//! return `404`.** An unknown subject digest, and even an unknown repository,
//! answer `200` with an empty `manifests` array. Only a malformed digest is a
//! `400`. Referrers and their subject may be pushed in either order, so "subject
//! not found" is a normal state, not an error.
//!
//! The filter is applied inside the scan and the cursor advances over the edges
//! scanned, so a page can be short or empty while more matches wait further on:
//! `Link` is emitted from the cursor, never from the page being full.

use serde_json::Value;
use vstd::prelude::*;
use vstd::string::*;

use crate::error;
use crate::error::{ApiError, ApiErrorView, ErrorCode};
use crate::handlers;
use crate::handlers::Ctx;
use crate::json;
use crate::json::Json;
use crate::pagination;
use crate::pagination::PageView;
use crate::query;
use crate::reference;
use crate::reference::{Digest, DigestView};
use crate::seam;
use crate::seam::{Descriptor, OpsError, Referrers};
use crate::text;
use crate::wire;
use crate::wire::{Method, MethodView, Reply, ReplyView};

verus! {

// ---- what is asked -----------------------------------------------------------

/// What the registry is asked for.
#[derive(Debug)]
pub struct ReferrersQuery {
    pub subject: Digest,
    pub artifact_type: Option<String>,
    pub last: Option<Digest>,
    pub limit: usize,
    pub explicit_zero: bool,
}

/// What the registry is asked for, its text as characters.
pub struct ReferrersQueryView {
    pub subject: DigestView,
    pub artifact_type: Option<Seq<char>>,
    pub last: Option<DigestView>,
    pub limit: int,
    pub explicit_zero: bool,
}

impl View for ReferrersQuery {
    type V = ReferrersQueryView;

    open spec fn view(&self) -> ReferrersQueryView {
        ReferrersQueryView {
            subject: self.subject@,
            artifact_type: text::opt_text(self.artifact_type),
            last: reference::opt_digest(self.last),
            limit: self.limit as int,
            explicit_zero: self.explicit_zero,
        }
    }
}

/// The limits the request is read under.
pub struct Limits {
    pub enabled: bool,
    pub default_size: int,
    pub max_size: int,
}

/// What a request asks of the registry, or the error it is answered with: the
/// method first, then the digest in the path, then whether the endpoint is
/// served at all, then the page.
pub open spec fn asked(
    method: MethodView,
    raw_digest: Seq<char>,
    params: Seq<(Seq<char>, Seq<char>)>,
    limits: Limits,
) -> Result<ReferrersQueryView, ApiErrorView> {
    if !(method is Get || method is Head) {
        Err(handlers::not_allowed("GET, HEAD"@))
    } else {
        match reference::digest_of(raw_digest) {
            None => Err(ApiErrorView::of(ErrorCode::DigestInvalid).detail(raw_digest)),
            Some(subject) => if !limits.enabled {
                Err(
                    ApiErrorView::of(ErrorCode::Unsupported).status(error::NOT_FOUND).message(
                        "referrers API is not enabled"@,
                    ),
                )
            } else {
                match pagination::page_of(params, limits.default_size, limits.max_size) {
                    Err(e) => Err(e),
                    Ok(page) => page_asked(
                        subject,
                        pagination::present(query::value_of(params, "artifactType"@)),
                        page,
                    ),
                }
            },
        }
    }
}

/// The query for one page, whose cursor must be a digest.
pub open spec fn page_asked(
    subject: DigestView,
    artifact_type: Option<Seq<char>>,
    page: PageView,
) -> Result<ReferrersQueryView, ApiErrorView> {
    match page.last {
        None => Ok(
            ReferrersQueryView {
                subject,
                artifact_type,
                last: None,
                limit: page.limit,
                explicit_zero: page.explicit_zero,
            },
        ),
        Some(raw) => match reference::digest_of(raw) {
            None => Err(
                ApiErrorView::of(ErrorCode::DigestInvalid).message("last is not a digest"@).detail(
                    raw,
                ),
            ),
            Some(last) => Ok(
                ReferrersQueryView {
                    subject,
                    artifact_type,
                    last: Some(last),
                    limit: page.limit,
                    explicit_zero: page.explicit_zero,
                },
            ),
        },
    }
}

/// What a request asks of the registry.
pub fn plan<R: ?Sized>(ctx: &Ctx<R>, raw_digest: &str) -> (r: Result<ReferrersQuery, ApiError>)
    ensures
        ({
            let limits = Limits {
                enabled: ctx.state.config.referrers_enabled,
                default_size: ctx.state.config.default_page_size as int,
                max_size: ctx.state.config.max_page_size as int,
            };
            match r {
                Ok(q) => asked(ctx.method@, raw_digest@, ctx.params(), limits) == Ok::<
                    ReferrersQueryView,
                    ApiErrorView,
                >(q@),
                Err(e) => asked(ctx.method@, raw_digest@, ctx.params(), limits) == Err::<
                    ReferrersQueryView,
                    ApiErrorView,
                >(e@),
            }
        }),
{
    match ctx.method {
        Method::Get | Method::Head => (),
        _ => return Err(handlers::method_not_allowed("GET, HEAD")),
    }
    // Validated before the feature check, so a malformed digest is a `400`
    // whether or not the endpoint is switched on.
    let subject = match reference::parse_digest(raw_digest) {
        Ok(subject) => subject,
        Err(e) => return Err(ApiError::new(ErrorCode::DigestInvalid).with_text(e.0.as_str())),
    };
    if !ctx.config().referrers_enabled {
        // `404`, matching a registry with no such route: a client that gets it
        // MUST fall back to the referrers tag schema.
        return Err(
            ApiError::new(ErrorCode::Unsupported).with_status(error::NOT_FOUND).with_message(
                "referrers API is not enabled",
            ),
        );
    }
    let artifact_type: Option<String> = match pagination::present_param(&ctx.query, "artifactType") {
        Some(t) => Some(text::copy(t)),
        None => None,
    };
    let page = match pagination::parse(&ctx.query, ctx.config()) {
        Ok(page) => page,
        Err(e) => return Err(e),
    };
    // The cursor is a digest, so a malformed one is `DIGEST_INVALID` like the
    // one in the path.
    let last: Option<Digest> = match &page.last {
        None => None,
        Some(raw) => match reference::parse_digest(raw.as_str()) {
            Ok(last) => Some(last),
            Err(e) => return Err(
                ApiError::new(ErrorCode::DigestInvalid).with_message(
                    "last is not a digest",
                ).with_text(e.0.as_str()),
            ),
        },
    };
    Ok(
        ReferrersQuery {
            subject,
            artifact_type,
            last,
            limit: page.limit,
            explicit_zero: page.explicit_zero,
        },
    )
}

// ---- what is answered --------------------------------------------------------

/// Annotations as the members of a JSON object.
pub open spec fn annotations_json(annotations: Seq<(String, String)>) -> Map<Seq<char>, Json>
    decreases annotations.len(),
{
    if annotations.len() == 0 {
        json::no_entries()
    } else {
        annotations_json(annotations.drop_last()).insert(
            annotations.last().0@,
            Json::Text(annotations.last().1@),
        )
    }
}

/// A descriptor as the members of a JSON object: the artifact type and the
/// annotations only where there are any.
pub open spec fn descriptor_members(d: Descriptor) -> Map<Seq<char>, Json> {
    let base = json::no_entries().insert("mediaType"@, Json::Text(d.media_type@)).insert(
        "digest"@,
        Json::Text(d.digest@.text()),
    ).insert("size"@, Json::Number(d.size as nat));
    let typed = match d.artifact_type {
        Some(t) => base.insert("artifactType"@, Json::Text(t@)),
        None => base,
    };
    if d.annotations@.len() > 0 {
        typed.insert("annotations"@, Json::Object(annotations_json(d.annotations@)))
    } else {
        typed
    }
}

/// Each descriptor in JSON.
pub open spec fn descriptors_json(manifests: Seq<Descriptor>) -> Seq<Json> {
    manifests.map_values(|d: Descriptor| Json::Object(descriptor_members(d)))
}

/// The image index that lists the referrers.
pub open spec fn index_json(manifests: Seq<Descriptor>) -> Json {
    Json::Object(
        json::no_entries().insert("schemaVersion"@, Json::Number(2)).insert(
            "mediaType"@,
            Json::Text("application/vnd.oci.image.index.v1+json"@),
        ).insert("manifests"@, Json::List(descriptors_json(manifests))),
    )
}

/// A descriptor in JSON.
fn descriptor_json(d: &Descriptor) -> (r: Value)
    ensures
        json::json_of(r) == Json::Object(descriptor_members(*d)),
{
    let mut map = json::new_map();
    json::map_insert(&mut map, "mediaType", json::text_value(d.media_type.as_str()));
    json::map_insert(&mut map, "digest", json::text_value(d.digest.to_text().as_str()));
    json::map_insert(&mut map, "size", json::number_value(d.size));
    if let Some(t) = &d.artifact_type {
        json::map_insert(&mut map, "artifactType", json::text_value(t.as_str()));
    }
    if d.annotations.len() > 0 {
        let mut annotations = json::new_map();
        let mut i: usize = 0;
        proof {
            assert(d.annotations@.take(0) =~= Seq::empty());
        }
        while i < d.annotations.len()
            invariant
                0 <= i <= d.annotations@.len(),
                json::entries_of(annotations) == annotations_json(d.annotations@.take(i as int)),
            decreases d.annotations@.len() - i,
        {
            json::map_insert(
                &mut annotations,
                d.annotations[i].0.as_str(),
                json::text_value(d.annotations[i].1.as_str()),
            );
            proof {
                assert(d.annotations@.take(i + 1).drop_last() =~= d.annotations@.take(i as int));
                assert(d.annotations@.take(i + 1).last() == d.annotations@[i as int]);
            }
            i = i + 1;
        }
        proof {
            assert(d.annotations@.take(d.annotations@.len() as int) =~= d.annotations@);
        }
        json::map_insert(&mut map, "annotations", json::object_value(annotations));
    }
    json::object_value(map)
}

/// The image index that lists the referrers.
///
/// The `mediaType` and `schemaVersion` inside the body are checked by clients
/// as well as the `Content-Type` header, so all three are set.
fn index_value(manifests: &Vec<Descriptor>) -> (r: Value)
    ensures
        json::json_of(r) == index_json(manifests@),
{
    let mut list: Vec<Value> = Vec::new();
    let mut i: usize = 0;
    while i < manifests.len()
        invariant
            0 <= i <= manifests@.len(),
            list@.len() == i,
            forall|j: int| 0 <= j < i ==> json::json_of(#[trigger] list@[j]) == Json::Object(
                descriptor_members(manifests@[j]),
            ),
        decreases manifests@.len() - i,
    {
        list.push(descriptor_json(&manifests[i]));
        i = i + 1;
    }
    proof {
        assert(json::jsons_of(list@) =~= descriptors_json(manifests@));
    }
    let mut map = json::new_map();
    json::map_insert(&mut map, "schemaVersion", json::number_value(2));
    json::map_insert(
        &mut map,
        "mediaType",
        json::text_value("application/vnd.oci.image.index.v1+json"),
    );
    json::map_insert(&mut map, "manifests", json::list_value(list));
    json::object_value(map)
}

/// The `Link` a page carries: to where the scan stopped, if it stopped early,
/// and none where nothing was asked for.
pub open spec fn link_of(name: Seq<char>, q: ReferrersQueryView, next: Option<DigestView>) -> Option<
    Seq<char>,
> {
    match next {
        Some(d) => if q.explicit_zero {
            None
        } else {
            Some(
                pagination::next_link(
                    "/v2/"@ + name + "/referrers/"@ + q.subject.text(),
                    q.artifact_type,
                    d.text(),
                    q.limit as nat,
                ),
            )
        },
        None => None,
    }
}

/// The response that carries the encoded index.
pub open spec fn index_reply(
    method: MethodView,
    name: Seq<char>,
    q: ReferrersQueryView,
    filter_applied: bool,
    next: Option<DigestView>,
    encoded: Seq<u8>,
) -> ReplyView {
    let base = seq![
        ("content-type"@, "application/vnd.oci.image.index.v1+json"@),
        ("content-length"@, text::decimal(encoded.len())),
    ];
    let linked = match link_of(name, q, next) {
        Some(link) => base.push(("link"@, link)),
        None => base,
    };
    ReplyView {
        status: error::OK,
        headers: if filter_applied {
            linked.push(("oci-filters-applied"@, "artifactType"@))
        } else {
            linked
        },
        body: if method is Head {
            Seq::empty()
        } else {
            encoded
        },
    }
}

/// The response that carries the encoded index.
///
/// The filter is claimed only when it was exact. An unfiltered response to a
/// filtered query is legal; claiming the filter on it is not.
pub fn reply(
    method: &Method,
    name: &str,
    q: &ReferrersQuery,
    filter_applied: bool,
    next: &Option<Digest>,
    encoded: Vec<u8>,
) -> (r: Reply)
    ensures
        r@ == index_reply(
            method@,
            name@,
            q@,
            filter_applied,
            reference::opt_digest(*next),
            encoded@,
        ),
{
    let mut headers: Vec<(String, String)> = Vec::new();
    headers.push(wire::header("content-type", "application/vnd.oci.image.index.v1+json"));
    headers.push(wire::header("content-length", text::decimal_text(encoded.len() as u64).as_str()));
    let ghost base = wire::header_list(headers@);
    proof {
        assert(base =~= seq![
            ("content-type"@, "application/vnd.oci.image.index.v1+json"@),
            ("content-length"@, text::decimal(encoded@.len())),
        ]);
    }
    if let Some(next) = next {
        if !q.explicit_zero {
            let mut path = text::copy("/v2/");
            path.append(name);
            path.append("/referrers/");
            path.append(q.subject.to_text().as_str());
            let artifact_type: Option<&str> = match &q.artifact_type {
                Some(t) => Some(t.as_str()),
                None => None,
            };
            let link = pagination::link_next_referrers(
                path.as_str(),
                artifact_type,
                next.to_text().as_str(),
                q.limit,
            );
            headers.push(wire::header("link", link.as_str()));
            assert(wire::header_list(headers@) =~= base.push(("link"@, link@)));
        }
    }
    let ghost linked = wire::header_list(headers@);
    if filter_applied {
        headers.push(wire::header("oci-filters-applied", "artifactType"));
        assert(wire::header_list(headers@) =~= linked.push(
            ("oci-filters-applied"@, "artifactType"@),
        ));
    }
    let body: Vec<u8> = match method {
        Method::Head => Vec::new(),
        _ => encoded,
    };
    proof {
        if method@ is Head {
            assert(body@ =~= Seq::empty());
        }
    }
    Reply { status: error::OK, headers, body }
}

/// What the registry's answer is turned into: an unknown repository has no
/// referrers, and any other failure is that failure.
pub fn settle(outcome: Result<Referrers, OpsError>, q: &ReferrersQuery) -> (r: Result<
    Referrers,
    ApiError,
>)
    ensures
        match outcome {
            Ok(found) => r == Ok::<Referrers, ApiError>(found),
            Err(OpsError::RepoUnknown) => {
                &&& r matches Ok(found)
                &&& found.manifests@.len() == 0
                &&& found.filter_applied == (q@.artifact_type is Some)
                &&& found.next is None
            },
            Err(e) => r matches Err(refused) && refused@ == handlers::ops_failure(e@),
        },
{
    match outcome {
        Ok(found) => Ok(found),
        Err(OpsError::RepoUnknown) => Ok(
            Referrers {
                manifests: Vec::new(),
                filter_applied: q.artifact_type.is_some(),
                next: None,
            },
        ),
        Err(e) => Err(handlers::ops_error(e)),
    }
}

/// Answer a request whose query the registry has answered with `outcome`: an
/// index, empty where the repository is unknown, unless the registry failed
/// otherwise.
pub fn answer(method: &Method, name: &str, q: &ReferrersQuery, outcome: Result<Referrers, OpsError>) -> (r:
    Result<Reply, ApiError>)
    ensures
        match outcome {
            Ok(found) => r matches Ok(reply) && reply@ == index_reply(
                method@,
                name@,
                q@,
                found.filter_applied,
                reference::opt_digest(found.next),
                json::json_bytes(index_json(found.manifests@)),
            ),
            Err(OpsError::RepoUnknown) => r matches Ok(reply) && reply@ == index_reply(
                method@,
                name@,
                q@,
                q@.artifact_type is Some,
                None,
                json::json_bytes(index_json(Seq::empty())),
            ),
            Err(e) => r matches Err(refused) && refused@ == handlers::ops_failure(e@),
        },
{
    let found = match settle(outcome, q) {
        Ok(found) => found,
        Err(e) => return Err(e),
    };
    proof {
        if found.manifests@.len() == 0 {
            assert(found.manifests@ =~= Seq::empty());
        }
    }
    let value = index_value(&found.manifests);
    match json::to_vec(&value) {
        Ok(encoded) => Ok(reply(method, name, q, found.filter_applied, &found.next, encoded)),
        Err(e) => Err(ApiError::internal(e.to_string().as_str())),
    }
}

// ---- what the endpoint promises ----------------------------------------------

/// Annotations become exactly as many members: each key stands with its own value,
/// and there is no other key.
pub proof fn law_annotations_are_shown_exactly(annotations: Seq<(String, String)>)
    requires
        seam::keyed(annotations),
    ensures
        annotations_json(annotations).dom().finite(),
        annotations_json(annotations).dom().len() == annotations.len(),
        forall|i: int|
            0 <= i < annotations.len() ==> annotations_json(annotations).contains_pair(
                (#[trigger] annotations[i]).0@,
                Json::Text(annotations[i].1@),
            ),
        forall|key: Seq<char>| #[trigger]
            annotations_json(annotations).contains_key(key) ==> exists|i: int|
                0 <= i < annotations.len() && (#[trigger] annotations[i]).0@ == key,
    decreases annotations.len(),
{
    if annotations.len() > 0 {
        let before = annotations.drop_last();
        let key = annotations.last().0@;
        law_annotations_are_shown_exactly(before);
        assert forall|i: int| 0 <= i < before.len() implies (#[trigger] before[i]).0@ != key by {
            assert(text::sorts_before(annotations[i].0@, annotations[annotations.len() - 1].0@));
            text::lemma_sorts_before_itself(key);
        }
        assert forall|i: int| 0 <= i < annotations.len() implies annotations_json(
            annotations,
        ).contains_pair((#[trigger] annotations[i]).0@, Json::Text(annotations[i].1@)) by {
            if i < before.len() {
                assert(before[i] == annotations[i]);
            }
        }
        assert forall|k: Seq<char>| #[trigger]
            annotations_json(annotations).contains_key(k) implies exists|i: int|
            0 <= i < annotations.len() && (#[trigger] annotations[i]).0@ == k by {
            if k == key {
                assert(annotations[annotations.len() - 1].0@ == k);
            } else {
                assert(annotations_json(before).contains_key(k));
                let i = choose|i: int| 0 <= i < before.len() && (#[trigger] before[i]).0@ == k;
                assert(annotations[i].0@ == k);
            }
        }
    }
}

/// A descriptor shows its annotations where it has any, and no such member where
/// it has none.
pub proof fn law_descriptor_shows_its_annotations(d: Descriptor)
    ensures
        d.annotations@.len() > 0 ==> descriptor_members(d).contains_pair(
            "annotations"@,
            Json::Object(annotations_json(d.annotations@)),
        ),
        d.annotations@.len() == 0 ==> !descriptor_members(d).contains_key("annotations"@),
{
    reveal_strlit("annotations");
    reveal_strlit("mediaType");
    reveal_strlit("digest");
    reveal_strlit("size");
    reveal_strlit("artifactType");
    assert("annotations"@.len() == 11);
    assert("artifactType"@.len() == 12);
}

/// The members that a descriptor and an index are made of have different names.
proof fn lemma_member_names()
    ensures
        "mediaType"@ != "digest"@,
        "mediaType"@ != "size"@,
        "mediaType"@ != "artifactType"@,
        "mediaType"@ != "annotations"@,
        "mediaType"@ != "schemaVersion"@,
        "mediaType"@ != "manifests"@,
        "digest"@ != "size"@,
        "digest"@ != "artifactType"@,
        "digest"@ != "annotations"@,
        "size"@ != "artifactType"@,
        "size"@ != "annotations"@,
        "artifactType"@ != "annotations"@,
        "schemaVersion"@ != "manifests"@,
{
    reveal_strlit("mediaType");
    reveal_strlit("digest");
    reveal_strlit("size");
    reveal_strlit("artifactType");
    reveal_strlit("annotations");
    reveal_strlit("schemaVersion");
    reveal_strlit("manifests");
    assert("mediaType"@.len() == 9);
    assert("digest"@.len() == 6);
    assert("size"@.len() == 4);
    assert("artifactType"@.len() == 12);
    assert("annotations"@.len() == 11);
    assert("schemaVersion"@.len() == 13);
    assert("manifests"@[1] == 'a');
    assert("mediaType"@[1] == 'e');
}

/// `shown` has the members of `d` and no others: its own media type, digest and
/// size, its artifact type where it has one, and its annotations where it has any.
pub open spec fn shows_descriptor(shown: Map<Seq<char>, Json>, d: Descriptor) -> bool {
    &&& shown.contains_pair("mediaType"@, Json::Text(d.media_type@))
    &&& shown.contains_pair("digest"@, Json::Text(d.digest@.text()))
    &&& shown.contains_pair("size"@, Json::Number(d.size as nat))
    &&& match d.artifact_type {
        Some(t) => shown.contains_pair("artifactType"@, Json::Text(t@)),
        None => !shown.contains_key("artifactType"@),
    }
    &&& shown.contains_key("annotations"@) <==> d.annotations@.len() > 0
    &&& forall|key: Seq<char>| #[trigger]
        shown.contains_key(key) ==> key == "mediaType"@ || key == "digest"@ || key == "size"@ || key
            == "artifactType"@ || key == "annotations"@
}

/// Every listed descriptor shows its own fields.
pub proof fn law_descriptor_shows_its_own_fields(d: Descriptor)
    ensures
        shows_descriptor(descriptor_members(d), d),
{
    lemma_member_names();
}

/// `index` is an image index that lists `manifests` in their order, one object
/// for each.
pub open spec fn lists_exactly(index: Json, manifests: Seq<Descriptor>) -> bool {
    &&& index matches Json::Object(members)
    &&& members.contains_pair("schemaVersion"@, Json::Number(2))
    &&& members.contains_pair(
        "mediaType"@,
        Json::Text("application/vnd.oci.image.index.v1+json"@),
    )
    &&& members.contains_key("manifests"@)
    &&& members["manifests"@] matches Json::List(list)
    &&& list.len() == manifests.len()
    &&& forall|i: int|
        0 <= i < manifests.len() ==> (#[trigger] list[i] matches Json::Object(shown)
            && shows_descriptor(shown, manifests[i]))
}

/// The index lists every referrer in its place, and nothing else.
pub proof fn law_index_lists_every_referrer(manifests: Seq<Descriptor>)
    ensures
        lists_exactly(index_json(manifests), manifests),
{
    lemma_member_names();
    let list = descriptors_json(manifests);
    assert forall|i: int| 0 <= i < manifests.len() implies (#[trigger] list[i] matches Json::Object(
        shown,
    ) && shows_descriptor(shown, manifests[i])) by {
        law_descriptor_shows_its_own_fields(manifests[i]);
    }
}

/// A request whose query the registry has answered is answered `200` with the
/// index of what was found; an unknown repository with the index of nothing; and
/// any other failure with that failure's error.
#[verifier::spinoff_prover]
pub proof fn law_referrers_found_are_answered(
    method: Method,
    name: &str,
    q: ReferrersQuery,
    outcome: Result<Referrers, OpsError>,
    r: Result<Reply, ApiError>,
)
    requires
        call_ensures(answer, (&method, name, &q, outcome), r),
    ensures
        outcome matches Ok(found) ==> r is Ok && r->Ok_0@.status == 200 && (!(method@ is Head)
            ==> exists|index: Json| #[trigger]
            json::json_bytes(index) == r->Ok_0@.body && lists_exactly(index, found.manifests@)),
        outcome == Err::<Referrers, OpsError>(OpsError::RepoUnknown) ==> r is Ok && r->Ok_0@.status
            == 200 && (!(method@ is Head) ==> exists|index: Json| #[trigger]
            json::json_bytes(index) == r->Ok_0@.body && lists_exactly(index, Seq::empty())),
        method@ is Head && r is Ok ==> r->Ok_0@.body.len() == 0,
        outcome matches Ok(found) ==> {
            let headers = r->Ok_0@.headers;
            &&& told(headers, "oci-filters-applied"@) is Some <==> found.filter_applied
            &&& told(headers, "link"@) is Some <==> found.next is Some && !q.explicit_zero
        },
        outcome == Err::<Referrers, OpsError>(OpsError::RepoUnknown) ==> {
            let headers = r->Ok_0@.headers;
            &&& told(headers, "oci-filters-applied"@) is Some <==> q.artifact_type is Some
            &&& told(headers, "link"@) is None
        },
        outcome matches Err(e) ==> (!(e is RepoUnknown) ==> (r matches Err(refused) && refused@
            == handlers::ops_failure(e@))),
{
    match outcome {
        Ok(found) => {
            law_index_lists_every_referrer(found.manifests@);
            law_page_headers(
                method@,
                name@,
                q@,
                found.filter_applied,
                reference::opt_digest(found.next),
                json::json_bytes(index_json(found.manifests@)),
            );
            assert(json::json_bytes(index_json(found.manifests@)) == json::json_bytes(
                index_json(found.manifests@),
            ));
        },
        Err(OpsError::RepoUnknown) => {
            law_index_lists_every_referrer(Seq::empty());
            law_page_headers(
                method@,
                name@,
                q@,
                q@.artifact_type is Some,
                None,
                json::json_bytes(index_json(Seq::empty())),
            );
        },
        Err(e) => {},
    }
}

/// What is asked of the registry is what the request says: the subject in the
/// path, the filter in `?artifactType=`, the cursor in `?last=`, and the page size
/// in `?n=`, no larger than the ceiling, or the default where there is none.
pub proof fn law_referrers_asks_what_was_asked(
    method: MethodView,
    raw_digest: Seq<char>,
    params: Seq<(Seq<char>, Seq<char>)>,
    limits: Limits,
)
    requires
        asked(method, raw_digest, params, limits) is Ok,
    ensures
        ({
            let q = asked(method, raw_digest, params, limits)->Ok_0;
            let filter = query::value_of(params, "artifactType"@);
            let cursor = query::value_of(params, "last"@);
            let size = query::value_of(params, "n"@);
            &&& method is Get || method is Head
            &&& limits.enabled
            &&& q.subject.text() == raw_digest
            &&& q.artifact_type is Some <==> filter is Some && filter->0.len() > 0
            &&& q.artifact_type is Some ==> q.artifact_type == filter
            &&& q.last is Some <==> cursor is Some && cursor->0.len() > 0
            &&& q.last is Some ==> q.last->0.text() == cursor->0
            &&& size is None ==> q.limit == limits.default_size && !q.explicit_zero
            &&& size is Some ==> {
                &&& text::written(size->0) is Some
                &&& text::written(size->0)->0 <= limits.max_size ==> q.limit == text::written(
                    size->0,
                )->0
                &&& text::written(size->0)->0 > limits.max_size ==> q.limit == limits.max_size
                &&& q.explicit_zero <==> text::written(size->0)->0 == 0
            }
        }),
{
    reference::lemma_digest_spelling(raw_digest);
    let cursor = query::value_of(params, "last"@);
    if cursor is Some && cursor->0.len() > 0 {
        reference::lemma_digest_spelling(cursor->0);
    }
}

/// A request is refused for its method, its digest, the endpoint not being served,
/// its page size or its cursor, in that order, and for nothing else.
pub proof fn law_referrers_refusals(
    method: MethodView,
    raw_digest: Seq<char>,
    params: Seq<(Seq<char>, Seq<char>)>,
    limits: Limits,
)
    ensures
        ({
            let r = asked(method, raw_digest, params, limits);
            let size = query::value_of(params, "n"@);
            let cursor = query::value_of(params, "last"@);
            if !(method is Get || method is Head) {
                r matches Err(e) && e.status == 405 && e.extra == seq![("allow"@, "GET, HEAD"@)]
            } else if reference::digest_of(raw_digest) is None {
                r matches Err(e) && e.status == 400 && e.code == ErrorCode::DigestInvalid
            } else if !limits.enabled {
                r matches Err(e) && e.status == 404 && e.code == ErrorCode::Unsupported
            } else if size is Some && text::written(size->0) is None {
                r matches Err(e) && e.status == 400 && e.code == ErrorCode::PaginationNumberInvalid
            } else if cursor is Some && cursor->0.len() > 0 && reference::digest_of(cursor->0) is None {
                r matches Err(e) && e.status == 400 && e.code == ErrorCode::DigestInvalid
            } else {
                r is Ok
            }
        }),
{
}

/// The value of the last header named `name`.
pub open spec fn told(headers: Seq<(Seq<char>, Seq<char>)>, name: Seq<char>) -> Option<Seq<char>>
    decreases headers.len(),
{
    if headers.len() == 0 {
        None
    } else if headers.last().0 == name {
        Some(headers.last().1)
    } else {
        told(headers.drop_last(), name)
    }
}

/// A page says what it is, how long it is, where the listing goes on, where it
/// does and something was asked for, and that it was filtered exactly where it
/// was.
#[verifier::spinoff_prover]
pub proof fn law_page_headers(
    method: MethodView,
    name: Seq<char>,
    q: ReferrersQueryView,
    filter_applied: bool,
    next: Option<DigestView>,
    encoded: Seq<u8>,
)
    ensures
        ({
            let headers = index_reply(method, name, q, filter_applied, next, encoded).headers;
            &&& told(headers, "content-type"@) == Some("application/vnd.oci.image.index.v1+json"@)
            &&& told(headers, "content-length"@) == Some(text::decimal(encoded.len()))
            &&& told(headers, "link"@) is Some <==> next is Some && !q.explicit_zero
            &&& told(headers, "link"@) is Some ==> told(headers, "link"@)->0 == "</v2/"@ + name
                + "/referrers/"@ + q.subject.text() + "?"@ + pagination::next_query(
                q.artifact_type,
                next->0.text(),
                q.limit as nat,
            ) + ">; rel=\"next\""@
            &&& told(headers, "oci-filters-applied"@) == (if filter_applied {
                Some("artifactType"@)
            } else {
                None
            })
        }),
{
    reveal_strlit("link");
    reveal_strlit("content-type");
    reveal_strlit("content-length");
    reveal_strlit("oci-filters-applied");
    assert("link"@.len() == 4);
    assert("content-type"@.len() == 12);
    assert("content-length"@.len() == 14);
    assert("oci-filters-applied"@.len() == 19);
    reveal_strlit("<");
    reveal_strlit("/v2/");
    reveal_strlit("</v2/");
    assert("<"@ + "/v2/"@ =~= "</v2/"@);
    reveal_with_fuel(told, 5);
    let base = seq![
        ("content-type"@, "application/vnd.oci.image.index.v1+json"@),
        ("content-length"@, text::decimal(encoded.len())),
    ];
    assert(base.drop_last() =~= seq![
        ("content-type"@, "application/vnd.oci.image.index.v1+json"@),
    ]);
    assert(base.drop_last().drop_last() =~= Seq::empty());
    let linked = match link_of(name, q, next) {
        Some(link) => {
            assert(base.push(("link"@, link)).drop_last() =~= base);
            assert(link =~= "</v2/"@ + name + "/referrers/"@ + q.subject.text() + "?"@
                + pagination::next_query(q.artifact_type, next->0.text(), q.limit as nat)
                + ">; rel=\"next\""@);
            base.push(("link"@, link))
        },
        None => base,
    };
    assert(linked.push(("oci-filters-applied"@, "artifactType"@)).drop_last() =~= linked);
    assert(told(base, "content-type"@) is Some);
    assert(told(base, "content-length"@) is Some);
    assert(told(base, "link"@) is None);
    assert(told(base, "oci-filters-applied"@) is None);
    assert(told(linked, "content-type"@) == told(base, "content-type"@));
    assert(told(linked, "content-length"@) == told(base, "content-length"@));
    assert(told(linked, "oci-filters-applied"@) is None);
}

/// Once the endpoint is served it does not answer `404` of its own: whatever it
/// refuses is the request's method, digest or page.
pub proof fn law_served_endpoint_is_never_404(
    method: MethodView,
    raw_digest: Seq<char>,
    params: Seq<(Seq<char>, Seq<char>)>,
    limits: Limits,
)
    requires
        limits.enabled,
    ensures
        asked(method, raw_digest, params, limits) matches Err(e) ==> e.status != 404,
{
}

/// A `HEAD` is answered as the `GET` would be, but for the body.
pub proof fn law_head_is_get_without_the_body(
    name: Seq<char>,
    q: ReferrersQueryView,
    filter_applied: bool,
    next: Option<DigestView>,
    encoded: Seq<u8>,
)
    ensures
        index_reply(MethodView::Head, name, q, filter_applied, next, encoded) == (ReplyView {
            body: Seq::empty(),
            ..index_reply(MethodView::Get, name, q, filter_applied, next, encoded)
        }),
        index_reply(MethodView::Get, name, q, filter_applied, next, encoded).body == encoded,
{
}

/// An index is a `200`, and links to another page only where there is one: an
/// unknown repository, which has none, gets no `Link`.
pub proof fn law_index_is_200(
    method: MethodView,
    name: Seq<char>,
    q: ReferrersQueryView,
    filter_applied: bool,
    next: Option<DigestView>,
    encoded: Seq<u8>,
)
    ensures
        index_reply(method, name, q, filter_applied, next, encoded).status == 200,
        next is None ==> forall|i: int|
            0 <= i < index_reply(method, name, q, filter_applied, next, encoded).headers.len()
                ==> (#[trigger] index_reply(
                method,
                name,
                q,
                filter_applied,
                next,
                encoded,
            ).headers[i]).0 != "link"@,
{
    reveal_strlit("link");
    reveal_strlit("content-type");
    reveal_strlit("content-length");
    reveal_strlit("oci-filters-applied");
    assert("link"@.len() == 4);
    assert("content-type"@.len() == 12);
    assert("content-length"@.len() == 14);
    assert("oci-filters-applied"@.len() == 19);
}

/// A malformed digest is a `400` whether or not the endpoint is served.
pub proof fn law_malformed_digest_is_400(
    method: MethodView,
    raw_digest: Seq<char>,
    params: Seq<(Seq<char>, Seq<char>)>,
    limits: Limits,
)
    requires
        method is Get || method is Head,
        reference::digest_of(raw_digest) is None,
    ensures
        asked(method, raw_digest, params, limits) matches Err(e) && e.status == 400 && e.code
            == ErrorCode::DigestInvalid,
{
}

/// Following a page's `Link` asks the same question of the same subject, with
/// the same filter, from where the page stopped.
pub proof fn law_link_continues_the_listing(
    method: MethodView,
    raw_digest: Seq<char>,
    params: Seq<(Seq<char>, Seq<char>)>,
    limits: Limits,
    next: DigestView,
)
    requires
        limits.enabled,
        0 <= limits.default_size <= limits.max_size,
        next.wf(),
        asked(method, raw_digest, params, limits) is Ok,
        asked(method, raw_digest, params, limits)->Ok_0.limit > 0,
    ensures
        ({
            let q = asked(method, raw_digest, params, limits)->Ok_0;
            let followed = query::pairs_of(
                text::split(
                    pagination::next_query(q.artifact_type, next.text(), q.limit as nat),
                    '&',
                ),
            );
            asked(method, q.subject.text(), followed, limits) == Ok::<
                ReferrersQueryView,
                ApiErrorView,
            >(ReferrersQueryView { last: Some(next), explicit_zero: false, ..q })
        }),
{
    let q = asked(method, raw_digest, params, limits)->Ok_0;
    reference::lemma_digest_spelling(raw_digest);
    reference::lemma_digest_round_trip(next);
    reference::lemma_digest_chars(next);
    pagination::law_link_carries_the_query(q.artifact_type, next.text(), q.limit as nat);
    text::lemma_number_of_decimal(q.limit as nat);
    assert(next.text().len() > 0);
}

} // verus!
