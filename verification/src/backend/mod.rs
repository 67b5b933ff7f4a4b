//! What the store-backed registry decides between the calls it makes.
//!
//! Three rules it exists to enforce:
//!
//! - **Bytes land before metadata.** Every write path puts the blob on the disk
//!   and only then applies a batch. An orphan blob is garbage that purge
//!   reclaims; metadata naming a blob that is not there is corruption that
//!   surfaces as a failed pull, days later, to somebody else.
//! - **A pull streams**, and so does a push: see [`drain`].
//! - **Failures arrive in spec vocabulary.** [`OpsError`] is the whole contract.

pub mod count;
pub mod drain;
pub mod open;
pub mod pushes;
pub mod reads;
pub mod sweep;
pub mod uploads;

use vstd::prelude::*;
use vstd::string::*;

use crate::error::ErrorCode;
use crate::json::Json;
use crate::reference::Digest;
use crate::seam;
use crate::seam::{ManifestInfo, OpsError, OpsErrorView};
use crate::text;

verus! {

/// Which metadata engine a registry opens.
#[derive(Debug, Clone, Copy, PartialEq, Eq, Structural)]
pub enum Engine {
    /// The engine a registry runs on.
    Rocks,
    /// The second implementation, kept to hold the engine boundary honest.
    Redb,
}

/// The limits of the layer below HTTP.
#[derive(Debug, Clone, Copy, PartialEq, Eq, Structural)]
pub struct RegistryOptions {
    /// Whether a manifest's layers and children must be present when it is
    /// pushed.
    pub validate_references: bool,
    /// Largest manifest accepted, in bytes.
    pub max_manifest_bytes: usize,
}

/// `a + b`, or the largest `u64` where that is more.
pub open spec fn saturating(a: nat, b: nat) -> nat {
    if a + b <= u64::MAX {
        a + b
    } else {
        u64::MAX as nat
    }
}

// ---- failures ----------------------------------------------------------------

/// Why an operation on the metadata failed.
#[derive(Debug, PartialEq, Eq)]
pub enum RegistryError {
    NameUnknown { repo: String },
    ManifestUnknown { repo: String, reference: String },
    BlobUnknown { repo: String, digest: Digest },
    DigestInvalid { detail: String },
    TagInvalid { tag: String, reason: String },
    ManifestInvalid { reason: String },
    ManifestBlobUnknown { repo: String, digest: Digest },
    /// The metadata store itself failed.
    Meta(String),
}

/// Why an operation on the blob store failed.
#[derive(Debug, PartialEq, Eq)]
pub enum StoreError {
    NotFound,
    InvalidDigest(String),
    InvalidData(String),
    Storage(String),
}

/// A string as `{:?}` prints it.
pub uninterp spec fn quoted_text(s: Seq<char>) -> Seq<char>;

/// `str`'s `Debug` formatting of the standard library, which puts the text in
/// quotes and escapes what would not print: a function of the text alone.
#[verifier::external_body]
fn quoted(s: &str) -> (r: String)
    ensures
        r@ == quoted_text(s@),
{
    format!("{s:?}")
}

/// The failure that an invalid tag is reported as, its name already quoted.
pub open spec fn bad_tag(quoted: Seq<char>, reason: Seq<char>) -> OpsErrorView {
    OpsErrorView::ManifestInvalid("tag "@ + quoted + ": "@ + reason)
}

/// A metadata failure in the vocabulary of the spec.
pub open spec fn metadata_failure(e: RegistryError) -> OpsErrorView {
    match e {
        RegistryError::NameUnknown { .. } => OpsErrorView::RepoUnknown,
        RegistryError::ManifestUnknown { .. } => OpsErrorView::ManifestUnknown,
        RegistryError::BlobUnknown { .. } => OpsErrorView::BlobUnknown,
        RegistryError::DigestInvalid { .. } => OpsErrorView::DigestMismatch,
        RegistryError::TagInvalid { tag, reason } => bad_tag(quoted_text(tag@), reason@),
        RegistryError::ManifestInvalid { reason } => OpsErrorView::ManifestInvalid(reason@),
        RegistryError::ManifestBlobUnknown { digest, .. } => OpsErrorView::ManifestBlobUnknown {
            digest: digest@,
        },
        RegistryError::Meta(detail) => OpsErrorView::Internal(detail@),
    }
}

/// The failure that an invalid tag is reported as, its name already quoted.
pub fn invalid_tag(quoted: &str, reason: &str) -> (r: OpsError)
    ensures
        r@ == bad_tag(quoted@, reason@),
{
    let mut detail = text::copy("tag ");
    detail.append(quoted);
    detail.append(": ");
    detail.append(reason);
    OpsError::ManifestInvalid(detail)
}

/// A metadata failure in the vocabulary of the spec.
///
/// Several distinct storage conditions collapse onto one spec code, and none of
/// them leaks a storage concept upward.
pub fn ops_error(e: RegistryError) -> (r: OpsError)
    ensures
        r@ == metadata_failure(e),
{
    match e {
        RegistryError::NameUnknown { .. } => OpsError::RepoUnknown,
        RegistryError::ManifestUnknown { .. } => OpsError::ManifestUnknown,
        RegistryError::BlobUnknown { .. } => OpsError::BlobUnknown,
        RegistryError::DigestInvalid { .. } => OpsError::DigestMismatch,
        RegistryError::TagInvalid { tag, reason } => invalid_tag(
            quoted(tag.as_str()).as_str(),
            reason.as_str(),
        ),
        RegistryError::ManifestInvalid { reason } => OpsError::ManifestInvalid(reason),
        RegistryError::ManifestBlobUnknown { digest, .. } => OpsError::ManifestBlobUnknown {
            digest,
        },
        RegistryError::Meta(detail) => OpsError::Internal(detail),
    }
}

/// A blob store failure in the vocabulary of the spec.
pub open spec fn store_failure(e: StoreError) -> OpsErrorView {
    match e {
        StoreError::NotFound => OpsErrorView::BlobUnknown,
        StoreError::InvalidDigest(_) => OpsErrorView::DigestMismatch,
        StoreError::InvalidData(detail) => OpsErrorView::Internal(detail@),
        StoreError::Storage(detail) => OpsErrorView::Internal(detail@),
    }
}

/// A blob store failure in the vocabulary of the spec.
///
/// `InvalidDigest` is the one that matters: it is the commit-time verdict on
/// bytes the client claimed a digest for, and it must reach the client as a
/// `400 DIGEST_INVALID` rather than as a 500.
pub fn storage_error(e: StoreError) -> (r: OpsError)
    ensures
        r@ == store_failure(e),
{
    match e {
        StoreError::NotFound => OpsError::BlobUnknown,
        StoreError::InvalidDigest(_) => OpsError::DigestMismatch,
        StoreError::InvalidData(detail) | StoreError::Storage(detail) => OpsError::Internal(detail),
    }
}

/// What a task's own failure is reported as.
pub open spec fn task_failure(e: Seq<char>) -> Seq<char> {
    "metadata task failed: "@ + e
}

/// The outcome of a metadata operation that ran as a task of its own: the task
/// may fail, and so may the operation.
pub fn offloaded<T>(outcome: Result<Result<T, RegistryError>, String>) -> (r: Result<T, OpsError>)
    ensures
        match outcome {
            Err(e) => r matches Err(f) && f@ == OpsErrorView::Internal(task_failure(e@)),
            Ok(Err(e)) => r matches Err(f) && f@ == metadata_failure(e),
            Ok(Ok(value)) => r == Ok::<T, OpsError>(value),
        },
{
    match outcome {
        Err(e) => {
            let mut detail = text::copy("metadata task failed: ");
            detail.append(e.as_str());
            Err(OpsError::Internal(detail))
        },
        Ok(Err(e)) => Err(ops_error(e)),
        Ok(Ok(value)) => Ok(value),
    }
}

/// What the client is told of a failure of the metadata: that the repository, the
/// manifest or the blob is unknown, what is wrong with what it sent, or, of a
/// failure of the store itself, nothing.
pub proof fn law_metadata_failures_reach_the_client(e: RegistryError)
    ensures
        ({
            let told = crate::handlers::ops_failure(metadata_failure(e));
            match e {
                RegistryError::NameUnknown { .. } => told.status == 404 && told.code
                    == ErrorCode::NameUnknown,
                RegistryError::ManifestUnknown { .. } => told.status == 404 && told.code
                    == ErrorCode::ManifestUnknown,
                RegistryError::BlobUnknown { .. } => told.status == 404 && told.code
                    == ErrorCode::BlobUnknown,
                RegistryError::DigestInvalid { .. } => told.status == 400 && told.code
                    == ErrorCode::DigestInvalid,
                RegistryError::TagInvalid { tag, reason } => told.status == 400 && told.code
                    == ErrorCode::ManifestInvalid && told.detail == Some(
                    Json::Text("tag "@ + quoted_text(tag@) + ": "@ + reason@),
                ),
                RegistryError::ManifestInvalid { reason } => told.status == 400 && told.code
                    == ErrorCode::ManifestInvalid && told.detail == Some(Json::Text(reason@)),
                RegistryError::ManifestBlobUnknown { digest, .. } => told.status == 400 && told.code
                    == ErrorCode::ManifestBlobUnknown && told.detail == Some(
                    Json::Text(digest@.text() + " is not present in this repository"@),
                ),
                RegistryError::Meta(detail) => told.status == 500 && told.bare && told.logged
                    == Some(detail@),
            }
        }),
{
}

/// What the client is told of a failure of the blob store: that the blob is
/// unknown, that its bytes are not those of the digest, or, of a failure of the
/// store itself, nothing.
pub proof fn law_store_failures_reach_the_client(e: StoreError)
    ensures
        ({
            let told = crate::handlers::ops_failure(store_failure(e));
            match e {
                StoreError::NotFound => told.status == 404 && told.code == ErrorCode::BlobUnknown,
                StoreError::InvalidDigest(_) => told.status == 400 && told.code
                    == ErrorCode::DigestInvalid,
                StoreError::InvalidData(detail) => told.status == 500 && told.bare && told.logged
                    == Some(detail@),
                StoreError::Storage(detail) => told.status == 500 && told.bare && told.logged
                    == Some(detail@),
            }
        }),
{
}

/// What ran as a task of its own comes back as it was: the value, the failure of
/// the operation, or a fault of the registry where the task itself failed.
pub proof fn law_task_gives_back_its_outcome<T>(
    value: T,
    e: RegistryError,
    detail: String,
    r: Result<T, OpsError>,
)
    ensures
        call_ensures(offloaded::<T>, (Ok(Ok(value)),), r) ==> r == Ok::<T, OpsError>(value),
        call_ensures(offloaded::<T>, (Ok(Err(e)),), r) ==> (r matches Err(f) && f@
            == metadata_failure(e)),
        call_ensures(offloaded::<T>, (Err(detail),), r) ==> (r matches Err(f) && f@
            == OpsErrorView::Internal("metadata task failed: "@ + detail@)),
{
}

// ---- manifests ---------------------------------------------------------------

/// What an image runs on.
#[derive(Debug)]
pub struct Platform {
    pub os: String,
    pub arch: String,
    pub variant: Option<String>,
}

/// A manifest an index lists.
#[derive(Debug)]
pub struct Child {
    pub digest: Digest,
    pub platform: Option<Platform>,
}

/// A manifest as it is stored.
#[derive(Debug)]
pub struct ManifestRecord {
    pub digest: Digest,
    pub media_type: String,
    pub size: u64,
    pub total_layer_size: u64,
    pub artifact_type: Option<String>,
    pub subject: Option<Digest>,
    pub pushed_at: u64,
    pub platform: Option<Platform>,
    pub layers: Vec<Digest>,
    pub children: Vec<Child>,
    pub annotations: Vec<(String, String)>,
}

impl ManifestRecord {
    /// The annotations are in the order of their keys, each key once.
    pub open spec fn wf(&self) -> bool {
        seam::keyed(self.annotations@)
    }
}

/// `os/arch` or `os/arch/variant`.
pub open spec fn label_of(p: Platform) -> Seq<char> {
    match p.variant {
        Some(v) => p.os@ + seq!['/'] + p.arch@ + seq!['/'] + v@,
        None => p.os@ + seq!['/'] + p.arch@,
    }
}

/// `os/arch` or `os/arch/variant`. The variant is part of the identity, so it is
/// rendered rather than dropped.
pub fn platform_label(platform: &Platform) -> (r: String)
    ensures
        r@ == label_of(*platform),
{
    let mut r = text::copy(platform.os.as_str());
    r.push('/');
    r.append(platform.arch.as_str());
    if let Some(variant) = &platform.variant {
        r.push('/');
        r.append(variant.as_str());
        assert(r@ =~= label_of(*platform));
    } else {
        assert(r@ =~= label_of(*platform));
    }
    r
}

/// The platforms a manifest and its children name: its own first, then each
/// child's that is not there yet.
pub open spec fn platforms_of(own: Option<Platform>, children: Seq<Child>) -> Seq<Seq<char>>
    decreases children.len(),
{
    if children.len() == 0 {
        match own {
            Some(p) => seq![label_of(p)],
            None => Seq::empty(),
        }
    } else {
        let before = platforms_of(own, children.drop_last());
        match children.last().platform {
            Some(p) => if before.contains(label_of(p)) {
                before
            } else {
                before.push(label_of(p))
            },
            None => before,
        }
    }
}

/// Whether `label` is among `labels`.
fn listed(labels: &Vec<String>, label: &str) -> (r: bool)
    ensures
        r == text::texts(labels@).contains(label@),
{
    let mut i: usize = 0;
    while i < labels.len()
        invariant
            0 <= i <= labels@.len(),
            forall|j: int| 0 <= j < i ==> text::texts(labels@)[j] != label@,
        decreases labels@.len() - i,
    {
        assert(text::texts(labels@)[i as int] == labels@[i as int]@);
        if text::same(labels[i].as_str(), label) {
            assert(text::texts(labels@).contains(label@));
            return true;
        }
        i = i + 1;
    }
    false
}

/// A stored record, and the tags on it, as the discovery API shows them.
///
/// An image manifest carries its own platform; an index carries none and its
/// children carry theirs. Deduplicated because an index may list the same
/// platform twice.
pub fn manifest_info(record: ManifestRecord, tags: Vec<String>) -> (r: ManifestInfo)
    ensures
        r.digest == record.digest,
        r.media_type == record.media_type,
        r.size == record.size,
        r.blob_size == record.total_layer_size,
        r.artifact_type == record.artifact_type,
        r.subject == record.subject,
        r.pushed_at == record.pushed_at,
        text::texts(r.platforms@) == platforms_of(record.platform, record.children@),
        r.blobs == record.layers@.len(),
        r.children == record.children@.len(),
        r.tags == tags,
        r.annotations == record.annotations,
        record.wf() ==> r.wf(),
{
    let mut platforms: Vec<String> = Vec::new();
    if let Some(p) = &record.platform {
        platforms.push(platform_label(p));
    }
    let mut i: usize = 0;
    proof {
        assert(record.children@.take(0) =~= Seq::empty());
        assert(text::texts(platforms@) =~= platforms_of(record.platform, record.children@.take(0)));
    }
    while i < record.children.len()
        invariant
            0 <= i <= record.children@.len(),
            text::texts(platforms@) == platforms_of(
                record.platform,
                record.children@.take(i as int),
            ),
        decreases record.children@.len() - i,
    {
        let ghost before = text::texts(platforms@);
        proof {
            assert(record.children@.take(i + 1).drop_last() =~= record.children@.take(i as int));
            assert(record.children@.take(i + 1).last() == record.children@[i as int]);
        }
        if let Some(p) = &record.children[i].platform {
            let label = platform_label(p);
            if !listed(&platforms, label.as_str()) {
                let ghost added = label@;
                platforms.push(label);
                assert(text::texts(platforms@) =~= before.push(added));
            }
        }
        i = i + 1;
    }
    proof {
        assert(record.children@.take(record.children@.len() as int) =~= record.children@);
    }
    ManifestInfo {
        digest: record.digest,
        media_type: record.media_type,
        size: record.size,
        blob_size: record.total_layer_size,
        artifact_type: record.artifact_type,
        subject: record.subject,
        pushed_at: record.pushed_at,
        platforms,
        blobs: record.layers.len() as u64,
        children: record.children.len() as u64,
        tags,
        annotations: record.annotations,
    }
}

/// No platform is listed twice, and every platform that the manifest or a child
/// of it names is listed.
pub proof fn law_platforms_are_listed_once(own: Option<Platform>, children: Seq<Child>)
    ensures
        platforms_of(own, children).no_duplicates(),
        own matches Some(p) ==> platforms_of(own, children).contains(label_of(p)),
        forall|i: int|
            0 <= i < children.len() && (#[trigger] children[i]).platform is Some ==> platforms_of(
                own,
                children,
            ).contains(label_of(children[i].platform->0)),
    decreases children.len(),
{
    if children.len() == 0 {
        if own is Some {
            assert(platforms_of(own, children)[0] == label_of(own->0));
        }
    } else {
        let front = children.drop_last();
        let before = platforms_of(own, front);
        let all = platforms_of(own, children);
        law_platforms_are_listed_once(own, front);
        assert forall|s: Seq<char>| before.contains(s) implies all.contains(s) by {
            let k = choose|k: int| 0 <= k < before.len() && before[k] == s;
            assert(all[k] == s);
        }
        if children.last().platform is Some {
            let label = label_of(children.last().platform->0);
            if !before.contains(label) {
                assert(all[before.len() as int] == label);
            }
        }
        assert forall|i: int|
            0 <= i < children.len() && (#[trigger] children[i]).platform is Some implies all.contains(
            label_of(children[i].platform->0),
        ) by {
            if i < front.len() {
                assert(front[i] == children[i]);
            }
        }
    }
}

/// Nothing is listed that neither the manifest nor a child of it names, its own
/// platform comes first, and what a list of children adds comes behind what the
/// children before them named.
pub proof fn law_only_named_platforms_are_listed(own: Option<Platform>, children: Seq<Child>)
    ensures
        own matches Some(p) ==> platforms_of(own, children).len() > 0 && platforms_of(own, children)[0]
            == label_of(p),
        children.len() > 0 ==> platforms_of(own, children.drop_last()).is_prefix_of(
            platforms_of(own, children),
        ),
        forall|k: int|
            0 <= k < platforms_of(own, children).len() ==> {
                ||| own is Some && #[trigger] platforms_of(own, children)[k] == label_of(own->0)
                ||| exists|i: int|
                    0 <= i < children.len() && (#[trigger] children[i]).platform is Some
                        && platforms_of(own, children)[k] == label_of(children[i].platform->0)
            },
    decreases children.len(),
{
    if children.len() > 0 {
        let front = children.drop_last();
        let before = platforms_of(own, front);
        let all = platforms_of(own, children);
        law_only_named_platforms_are_listed(own, front);
        assert(before.is_prefix_of(all)) by {
            assert(before =~= all.take(before.len() as int));
        }
        assert forall|k: int| 0 <= k < all.len() implies {
            ||| own is Some && #[trigger] all[k] == label_of(own->0)
            ||| exists|i: int|
                0 <= i < children.len() && (#[trigger] children[i]).platform is Some && all[k]
                    == label_of(children[i].platform->0)
        } by {
            if k < before.len() {
                assert(before[k] == all[k]);
                if !(own is Some && all[k] == label_of(own->0)) {
                    let i = choose|i: int|
                        0 <= i < front.len() && (#[trigger] front[i]).platform is Some && before[k]
                            == label_of(front[i].platform->0);
                    assert(children[i] == front[i]);
                }
            } else {
                let last = children.len() - 1;
                assert(children[last].platform is Some && all[k] == label_of(
                    children[last].platform->0,
                ));
            }
        }
    }
}

/// A platform is shown by its system, its architecture and, where it has one, its
/// variant, with a slash between: the variant is part of the identity, so two
/// platforms that differ in it alone are shown differently.
pub proof fn law_platform_shows_its_variant(p: Platform, q: Platform)
    ensures
        p.variant is None ==> label_of(p) == p.os@ + "/"@ + p.arch@,
        p.variant matches Some(v) ==> label_of(p) == p.os@ + "/"@ + p.arch@ + "/"@ + v@,
        p.os@ == q.os@ && p.arch@ == q.arch@ && text::opt_text(p.variant) != text::opt_text(
            q.variant,
        ) ==> label_of(p) != label_of(q),
{
    reveal_strlit("/");
    assert("/"@ =~= seq!['/']);
    if p.os@ == q.os@ && p.arch@ == q.arch@ && label_of(p) == label_of(q) {
        let n = (p.os@.len() + 1 + p.arch@.len()) as int;
        if p.variant is Some && q.variant is Some {
            assert(label_of(p).skip(n + 1) =~= p.variant->0@);
            assert(label_of(q).skip(n + 1) =~= q.variant->0@);
        } else {
            assert(p.variant is None ==> label_of(p).len() == n);
            assert(q.variant is None ==> label_of(q).len() == n);
        }
    }
}

/// A manifest is shown by its own record and the tags that were found on it.
pub proof fn law_manifest_is_shown_as_recorded(
    record: ManifestRecord,
    tags: Vec<String>,
    r: ManifestInfo,
)
    requires
        call_ensures(manifest_info, (record, tags), r),
    ensures
        r.digest == record.digest,
        r.media_type == record.media_type,
        r.size == record.size,
        r.blob_size == record.total_layer_size,
        r.artifact_type == record.artifact_type,
        r.subject == record.subject,
        r.pushed_at == record.pushed_at,
        r.blobs == record.layers@.len(),
        r.children == record.children@.len(),
        r.tags == tags,
        r.annotations == record.annotations,
        text::texts(r.platforms@).no_duplicates(),
        record.platform matches Some(p) ==> text::texts(r.platforms@).contains(label_of(p)),
{
    law_platforms_are_listed_once(record.platform, record.children@);
}

// ---- locks -------------------------------------------------------------------

/// How many locks the repositories share.
pub const SHARDS: usize = 256;

/// The lock of a repository whose name hashes to `hash`.
///
/// A fixed array rather than a map keyed by name: a map would grow with the
/// number of repositories and want an eviction policy, and getting that wrong is
/// a lock that stops locking. Two repositories on one shard serialise their tag
/// writes against each other, which costs a little throughput and no
/// correctness.
pub fn shard_of(hash: u64) -> (r: usize)
    ensures
        r == (hash as usize) as int % 256,
        r < SHARDS,
{
    (hash as usize) % SHARDS
}

/// A repository always takes the same lock: one of the two hundred and fifty-six,
/// by the hash of its name alone.
pub proof fn law_a_name_has_one_lock(hash: u64, a: usize, b: usize)
    requires
        call_ensures(shard_of, (hash,), a),
        call_ensures(shard_of, (hash,), b),
    ensures
        a == b,
        a == hash % 256,
{
    assert((hash as usize) % 256 == hash % 256) by (bit_vector);
}

} // verus!
