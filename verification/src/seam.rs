//! The vocabulary the HTTP layer and the store share.

use vstd::prelude::*;

use crate::reference::{Digest, DigestView};
use crate::text;

verus! {

// ---- failures ----------------------------------------------------------------

/// Why an operation of the registry failed.
#[derive(Debug, PartialEq, Eq)]
pub enum OpsError {
    RepoUnknown,
    ManifestUnknown,
    BlobUnknown,
    UploadUnknown,
    /// A chunk that does not start where the session ends.
    OffsetMismatch { current: u64 },
    DigestMismatch,
    ManifestInvalid(String),
    /// A manifest naming content its repository does not have.
    ManifestBlobUnknown { digest: Digest },
    /// A body that is not as long as it declared.
    SizeMismatch { declared: u64, actual: u64 },
    BodyTooLarge { limit: u64 },
    BodyIncomplete(String),
    Internal(String),
}

/// Why an operation of the registry failed, its text as characters.
pub enum OpsErrorView {
    RepoUnknown,
    ManifestUnknown,
    BlobUnknown,
    UploadUnknown,
    OffsetMismatch { current: u64 },
    DigestMismatch,
    ManifestInvalid(Seq<char>),
    ManifestBlobUnknown { digest: DigestView },
    SizeMismatch { declared: u64, actual: u64 },
    BodyTooLarge { limit: u64 },
    BodyIncomplete(Seq<char>),
    Internal(Seq<char>),
}

impl View for OpsError {
    type V = OpsErrorView;

    open spec fn view(&self) -> OpsErrorView {
        match self {
            OpsError::RepoUnknown => OpsErrorView::RepoUnknown,
            OpsError::ManifestUnknown => OpsErrorView::ManifestUnknown,
            OpsError::BlobUnknown => OpsErrorView::BlobUnknown,
            OpsError::UploadUnknown => OpsErrorView::UploadUnknown,
            OpsError::OffsetMismatch { current } => OpsErrorView::OffsetMismatch {
                current: *current,
            },
            OpsError::DigestMismatch => OpsErrorView::DigestMismatch,
            OpsError::ManifestInvalid(detail) => OpsErrorView::ManifestInvalid(detail@),
            OpsError::ManifestBlobUnknown { digest } => OpsErrorView::ManifestBlobUnknown {
                digest: digest@,
            },
            OpsError::SizeMismatch { declared, actual } => OpsErrorView::SizeMismatch {
                declared: *declared,
                actual: *actual,
            },
            OpsError::BodyTooLarge { limit } => OpsErrorView::BodyTooLarge { limit: *limit },
            OpsError::BodyIncomplete(detail) => OpsErrorView::BodyIncomplete(detail@),
            OpsError::Internal(detail) => OpsErrorView::Internal(detail@),
        }
    }
}

// ---- counts ------------------------------------------------------------------

/// Where a bounded count stops.
pub const COUNT_CEILING: u64 = 10_000;

/// A count that may be a floor.
#[derive(Debug, Clone, Copy, PartialEq, Eq, Structural)]
pub struct Tally {
    pub count: u64,
    /// `false` means `count` is a floor: the scan stopped at its ceiling.
    pub complete: bool,
}

impl Tally {
    /// A count that ran to the end.
    pub fn exact(count: u64) -> (r: Tally)
        ensures
            r == (Tally { count, complete: true }),
    {
        Tally { count, complete: true }
    }
}

// ---- pages -------------------------------------------------------------------

/// One page of a listing, and whether there is another.
#[derive(Debug)]
pub struct Page<T> {
    pub items: Vec<T>,
    pub more: bool,
}

/// A repository as the listing shows it.
#[derive(Debug)]
pub struct RepoSummary {
    pub name: String,
    pub tags: Tally,
    pub manifests: Tally,
}

/// One page of repositories. The cursor comes from the scan rather than from
/// the last row, because a search may stop on a name it never served.
#[derive(Debug)]
pub struct RepoPage {
    pub items: Vec<RepoSummary>,
    pub next: Option<String>,
}

/// A repository on its own page.
#[derive(Debug)]
pub struct RepoDetail {
    pub name: String,
    pub tags: Tally,
    pub manifests: Tally,
    pub blobs: Tally,
    /// Summed over the blobs counted, so a floor whenever `blobs` is one.
    pub size_bytes: u64,
}

// ---- manifests ---------------------------------------------------------------

/// How many tags a manifest's row lists at most.
pub const TAGS_PER_MANIFEST: usize = 100;

/// What a `HEAD` of a manifest answers.
#[derive(Debug)]
pub struct ManifestStat {
    pub digest: Digest,
    pub media_type: String,
    pub size: u64,
}

/// What a manifest `PUT` did.
#[derive(Debug)]
pub struct ManifestPut {
    pub digest: Digest,
    pub subject: Option<Digest>,
    pub tags: Vec<String>,
}

/// Annotations in the order of their keys, each key once.
pub open spec fn keyed(annotations: Seq<(String, String)>) -> bool {
    forall|i: int, j: int|
        0 <= i < j < annotations.len() ==> text::sorts_before(
            (#[trigger] annotations[i]).0@,
            (#[trigger] annotations[j]).0@,
        )
}

/// A manifest as the discovery API shows it.
#[derive(Debug)]
pub struct ManifestInfo {
    pub digest: Digest,
    pub media_type: String,
    pub size: u64,
    pub blob_size: u64,
    pub artifact_type: Option<String>,
    pub subject: Option<Digest>,
    pub pushed_at: u64,
    pub platforms: Vec<String>,
    pub blobs: u64,
    pub children: u64,
    pub tags: Vec<String>,
    pub annotations: Vec<(String, String)>,
}

impl ManifestInfo {
    /// The annotations are in the order of their keys, each key once.
    pub open spec fn wf(&self) -> bool {
        keyed(self.annotations@)
    }
}

/// A tag as the discovery API shows it.
#[derive(Debug)]
pub struct TagInfo {
    pub name: String,
    pub digest: Digest,
    pub tagged_at: u64,
    pub manifest: Option<ManifestInfo>,
}

/// One tag event. `at` is unix milliseconds.
#[derive(Debug)]
pub struct TagEventInfo {
    pub at: u64,
    pub tag: String,
    pub digest: Digest,
    pub deleted: bool,
    pub media_type: String,
    pub size: u64,
}

/// Both halves of a resume position, because events can share an instant.
#[derive(Debug)]
pub struct HistoryCursor {
    pub before: u64,
    pub last: String,
}

// ---- referrers ---------------------------------------------------------------

/// A manifest that refers to a subject.
#[derive(Debug)]
pub struct Descriptor {
    pub media_type: String,
    pub digest: Digest,
    pub size: u64,
    pub artifact_type: Option<String>,
    pub annotations: Vec<(String, String)>,
}

impl Descriptor {
    /// The annotations are in the order of their keys, each key once.
    pub open spec fn wf(&self) -> bool {
        keyed(self.annotations@)
    }
}

/// One page of a subject's referrers.
#[derive(Debug)]
pub struct Referrers {
    pub manifests: Vec<Descriptor>,
    /// Whether every descriptor of another type was left out.
    pub filter_applied: bool,
    pub next: Option<Digest>,
}

// ---- pull counts -------------------------------------------------------------

/// What a series of pull counts is about.
#[derive(Debug)]
pub enum PullCountScope {
    Repository,
    Tag(String),
    Manifest(Digest),
}

impl PullCountScope {
    /// The scope's name on the wire.
    pub open spec fn spec_label(self) -> Seq<char> {
        match self {
            PullCountScope::Repository => "repository"@,
            PullCountScope::Tag(_) => "tag"@,
            PullCountScope::Manifest(_) => "manifest"@,
        }
    }

    /// The scope's name on the wire.
    pub fn label(&self) -> (r: &'static str)
        ensures
            r@ == self.spec_label(),
    {
        match self {
            PullCountScope::Repository => "repository",
            PullCountScope::Tag(_) => "tag",
            PullCountScope::Manifest(_) => "manifest",
        }
    }
}

/// One day of counters, hour by hour.
#[derive(Debug, Clone, Copy)]
pub struct CounterBucket {
    pub manifest_pulls: [u32; 24],
    pub blob_pulls: [u32; 24],
    pub bytes_out: [u64; 24],
}

/// One stored day of counters.
#[derive(Debug, Clone, Copy)]
pub struct PullCountDay {
    /// Days since the Unix epoch, UTC.
    pub day: u16,
    pub bucket: CounterBucket,
}

// ---- purge -------------------------------------------------------------------

/// What one purge pass did, or would do.
#[derive(Debug, Clone, Copy, PartialEq, Eq, Structural)]
pub struct PurgeReport {
    /// Unix seconds the pass began.
    pub started_at: u64,
    pub duration_ms: u64,
    /// `true` when the pass wrote nothing.
    pub dry_run: bool,
    pub manifests: u64,
    pub memberships: u64,
    pub marked: u64,
    pub blobs: u64,
    pub bytes: u64,
    pub uploads: u64,
    pub repositories: u64,
}

} // verus!
