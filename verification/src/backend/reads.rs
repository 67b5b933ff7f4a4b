//! What the registry's answers are made of, once the store has answered.

use vstd::prelude::*;
use vstd::string::*;

use crate::backend;
use crate::backend::{ManifestRecord, StoreError};
use crate::reference::{Digest, DigestView, Reference};
use crate::seam;
use crate::seam::{
    Descriptor, HistoryCursor, ManifestInfo, ManifestStat, OpsError, OpsErrorView, Page, Referrers,
    TagEventInfo, TagInfo,
};
use crate::text;

verus! {

// ---- listings ----------------------------------------------------------------

/// One page of names: there is more exactly when the scan has a cursor.
pub fn name_page(names: Vec<String>, next: Option<String>) -> (r: Page<String>)
    ensures
        r == (Page { items: names, more: next is Some }),
{
    Page { items: names, more: next.is_some() }
}

/// A tag the scan saw, and what looking it up found.
#[derive(Debug)]
pub struct TagRow {
    pub tag: String,
    /// The tag's digest and when it was set. Nothing where a delete landed
    /// between the scan and the lookup.
    pub record: Option<(Digest, u64)>,
    pub manifest: Option<ManifestInfo>,
}

/// The tags that were still there.
pub open spec fn standing(rows: Seq<TagRow>) -> Seq<TagInfo>
    decreases rows.len(),
{
    if rows.len() == 0 {
        Seq::empty()
    } else {
        let before = standing(rows.drop_last());
        match rows.last().record {
            Some((digest, tagged_at)) => before.push(
                TagInfo { name: rows.last().tag, digest, tagged_at, manifest: rows.last().manifest },
            ),
            None => before,
        }
    }
}

/// One page of tags. A tag that was in the scan and gone by the lookup is left
/// out: it no longer exists.
pub fn tag_details(rows: Vec<TagRow>, next: Option<String>) -> (r: Page<TagInfo>)
    ensures
        r.items@ == standing(rows@),
        r.more == (next is Some),
{
    let mut items: Vec<TagInfo> = Vec::new();
    let ghost all = rows@;
    proof {
        assert(all.take(0) =~= Seq::empty());
        assert(items@ =~= standing(all.take(0)));
    }
    for row in it: rows
        invariant
            it.seq() == all,
            items@ == standing(all.take(it.index() as int)),
    {
        proof {
            assert(all.take(it.index() + 1).drop_last() =~= all.take(it.index() as int));
            assert(all.take(it.index() + 1).last() == row);
        }
        match row.record {
            Some((digest, tagged_at)) => items.push(
                TagInfo { name: row.tag, digest, tagged_at, manifest: row.manifest },
            ),
            None => (),
        }
    }
    proof {
        assert(all.take(all.len() as int) =~= all);
    }
    Page { items, more: next.is_some() }
}

/// A manifest the scan saw, and the tags on it.
#[derive(Debug)]
pub struct ManifestRow {
    pub record: ManifestRecord,
    pub tags: Vec<String>,
}

/// `info` shows what `row` holds.
pub open spec fn shows(info: ManifestInfo, row: ManifestRow) -> bool {
    &&& info.digest == row.record.digest
    &&& info.media_type == row.record.media_type
    &&& info.size == row.record.size
    &&& info.blob_size == row.record.total_layer_size
    &&& info.artifact_type == row.record.artifact_type
    &&& info.subject == row.record.subject
    &&& info.pushed_at == row.record.pushed_at
    &&& text::texts(info.platforms@) == backend::platforms_of(
        row.record.platform,
        row.record.children@,
    )
    &&& info.blobs == row.record.layers@.len()
    &&& info.children == row.record.children@.len()
    &&& info.tags == row.tags
    &&& info.annotations == row.record.annotations
}

/// One page of manifests, in the order of the scan: there is more exactly when
/// the scan has a cursor.
pub fn manifest_details(rows: Vec<ManifestRow>, next: Option<Digest>) -> (r: Page<ManifestInfo>)
    ensures
        r.more == (next is Some),
        r.items@.len() == rows@.len(),
        forall|i: int| 0 <= i < rows@.len() ==> shows(#[trigger] r.items@[i], rows@[i]),
        forall|i: int|
            0 <= i < rows@.len() && rows@[i].record.wf() ==> (#[trigger] r.items@[i]).wf(),
{
    let mut items: Vec<ManifestInfo> = Vec::new();
    let ghost all = rows@;
    for row in it: rows
        invariant
            it.seq() == all,
            items@.len() == it.index(),
            forall|i: int| 0 <= i < it.index() ==> shows(#[trigger] items@[i], all[i]),
    {
        items.push(backend::manifest_info(row.record, row.tags));
    }
    Page { items, more: next.is_some() }
}

/// A referrer as the store keeps it.
#[derive(Debug)]
pub struct ReferrerEntry {
    pub digest: Digest,
    pub media_type: String,
    pub size: u64,
    pub artifact_type: Option<String>,
    pub annotations: Vec<(String, String)>,
}

impl ReferrerEntry {
    /// The annotations are in the order of their keys, each key once.
    pub open spec fn wf(&self) -> bool {
        seam::keyed(self.annotations@)
    }
}

/// `d` describes `entry`.
pub open spec fn describes(d: Descriptor, entry: ReferrerEntry) -> bool {
    &&& d.digest == entry.digest
    &&& d.media_type == entry.media_type
    &&& d.size == entry.size
    &&& d.artifact_type == entry.artifact_type
    &&& d.annotations == entry.annotations
}

/// One page of referrers, in the order of the scan.
pub fn referrers(entries: Vec<ReferrerEntry>, filter_applied: bool, next: Option<Digest>) -> (r:
    Referrers)
    ensures
        r.filter_applied == filter_applied,
        r.next == next,
        r.manifests@.len() == entries@.len(),
        forall|i: int| 0 <= i < entries@.len() ==> describes(#[trigger] r.manifests@[i], entries@[i]),
        forall|i: int| 0 <= i < entries@.len() && entries@[i].wf() ==> (#[trigger] r.manifests@[i]).wf(),
{
    let mut manifests: Vec<Descriptor> = Vec::new();
    let ghost all = entries@;
    for entry in it: entries
        invariant
            it.seq() == all,
            manifests@.len() == it.index(),
            forall|i: int| 0 <= i < it.index() ==> describes(#[trigger] manifests@[i], all[i]),
    {
        manifests.push(
            Descriptor {
                digest: entry.digest,
                media_type: entry.media_type,
                size: entry.size,
                artifact_type: entry.artifact_type,
                annotations: entry.annotations,
            },
        );
    }
    Referrers { manifests, filter_applied, next }
}

/// A page of names is the names of the scan, and says there is more exactly where
/// the scan stopped early.
pub proof fn law_name_page_is_the_scan(names: Vec<String>, next: Option<String>, r: Page<String>)
    requires
        call_ensures(name_page, (names, next), r),
    ensures
        r.items@ == names@,
        r.more <==> next is Some,
{
}

/// A page of tags holds what each part of the scan would: nothing is moved,
/// doubled or lost between the rows.
pub proof fn law_tags_are_listed_row_by_row(a: Seq<TagRow>, b: Seq<TagRow>)
    ensures
        standing(a + b) == standing(a) + standing(b),
    decreases b.len(),
{
    if b.len() == 0 {
        assert(a + b =~= a);
        assert(standing(a) + standing(b) =~= standing(a));
    } else {
        law_tags_are_listed_row_by_row(a, b.drop_last());
        assert((a + b).drop_last() =~= a + b.drop_last());
        assert((a + b).last() == b.last());
        assert(standing(a + b) =~= standing(a) + standing(b));
    }
}

/// A tag that was still there is listed with its own name, digest, time and
/// manifest, and one that was gone is not listed.
pub proof fn law_tag_is_listed_where_it_stands(row: TagRow)
    ensures
        row.record is None ==> standing(seq![row]).len() == 0,
        row.record matches Some((digest, tagged_at)) ==> {
            &&& standing(seq![row]).len() == 1
            &&& standing(seq![row])[0].name == row.tag
            &&& standing(seq![row])[0].digest == digest
            &&& standing(seq![row])[0].tagged_at == tagged_at
            &&& standing(seq![row])[0].manifest == row.manifest
        },
{
    assert(seq![row].drop_last() =~= Seq::empty());
    assert(standing(seq![row].drop_last()) =~= Seq::empty());
}

/// There is another page of tags exactly where the scan stopped early.
pub proof fn law_tags_say_whether_there_is_more(
    rows: Vec<TagRow>,
    next: Option<String>,
    r: Page<TagInfo>,
)
    requires
        call_ensures(tag_details, (rows, next), r),
    ensures
        r.items@ == standing(rows@),
        r.more <==> next is Some,
{
}

/// Every manifest of the scan is listed in its place, with the tags on it and
/// what its own record holds.
pub proof fn law_manifests_are_listed_as_recorded(
    rows: Vec<ManifestRow>,
    next: Option<Digest>,
    r: Page<ManifestInfo>,
    i: int,
)
    requires
        call_ensures(manifest_details, (rows, next), r),
        0 <= i < rows@.len(),
    ensures
        r.items@.len() == rows@.len(),
        r.more <==> next is Some,
        r.items@[i].digest == rows@[i].record.digest,
        r.items@[i].media_type == rows@[i].record.media_type,
        r.items@[i].size == rows@[i].record.size,
        r.items@[i].blob_size == rows@[i].record.total_layer_size,
        r.items@[i].artifact_type == rows@[i].record.artifact_type,
        r.items@[i].subject == rows@[i].record.subject,
        r.items@[i].pushed_at == rows@[i].record.pushed_at,
        r.items@[i].blobs == rows@[i].record.layers@.len(),
        r.items@[i].children == rows@[i].record.children@.len(),
        r.items@[i].tags == rows@[i].tags,
        r.items@[i].annotations == rows@[i].record.annotations,
        text::texts(r.items@[i].platforms@) == backend::platforms_of(
            rows@[i].record.platform,
            rows@[i].record.children@,
        ),
{
    assert(shows(r.items@[i], rows@[i]));
}

/// Every referrer of the scan is described in its place by what the store keeps
/// of it, and the page goes on, and claims the filter, as the scan did.
pub proof fn law_referrers_are_described_as_kept(
    entries: Vec<ReferrerEntry>,
    filter_applied: bool,
    next: Option<Digest>,
    r: Referrers,
    i: int,
)
    requires
        call_ensures(referrers, (entries, filter_applied, next), r),
        0 <= i < entries@.len(),
    ensures
        r.filter_applied == filter_applied,
        r.next == next,
        r.manifests@.len() == entries@.len(),
        r.manifests@[i].digest == entries@[i].digest,
        r.manifests@[i].media_type == entries@[i].media_type,
        r.manifests@[i].size == entries@[i].size,
        r.manifests@[i].artifact_type == entries@[i].artifact_type,
        r.manifests@[i].annotations == entries@[i].annotations,
{
    assert(describes(r.manifests@[i], entries@[i]));
}

// ---- manifests ---------------------------------------------------------------

/// What a `HEAD` found.
pub fn stat_manifest(found: Result<Option<ManifestStat>, OpsError>) -> (r: Result<
    ManifestStat,
    OpsError,
>)
    ensures
        r == (match found {
            Err(e) => Err(e),
            Ok(None) => Err(OpsError::ManifestUnknown),
            Ok(Some(stat)) => Ok(stat),
        }),
{
    match found {
        Err(e) => Err(e),
        Ok(None) => Err(OpsError::ManifestUnknown),
        Ok(Some(stat)) => Ok(stat),
    }
}

/// A manifest as the store keeps it.
#[derive(Debug)]
pub struct StoredManifest {
    pub digest: Digest,
    pub media_type: String,
    pub body: Vec<u8>,
}

/// What a `GET` found: the document, and its size as it is served.
pub fn get_manifest(found: Result<Option<StoredManifest>, OpsError>) -> (r: Result<
    (ManifestStat, Vec<u8>),
    OpsError,
>)
    ensures
        match found {
            Err(e) => r == Err::<(ManifestStat, Vec<u8>), OpsError>(e),
            Ok(None) => r == Err::<(ManifestStat, Vec<u8>), OpsError>(OpsError::ManifestUnknown),
            Ok(Some(stored)) => r == Ok::<(ManifestStat, Vec<u8>), OpsError>(
                (
                    ManifestStat {
                        digest: stored.digest,
                        media_type: stored.media_type,
                        size: stored.body@.len() as u64,
                    },
                    stored.body,
                ),
            ),
        },
{
    match found {
        Err(e) => Err(e),
        Ok(None) => Err(OpsError::ManifestUnknown),
        Ok(Some(stored)) => {
            let size: u64 = stored.body.len() as u64;
            Ok(
                (
                    ManifestStat { digest: stored.digest, media_type: stored.media_type, size },
                    stored.body,
                ),
            )
        },
    }
}

/// How a reference is looked up, or deleted: a tag and a digest are different
/// operations. Deleting a tag leaves its manifest reachable by digest; deleting
/// a digest takes every tag that points at it.
#[derive(Debug)]
pub enum Lookup {
    ByTag(String),
    ByDigest(Digest),
}

/// How a reference is looked up.
pub fn lookup(reference: Reference) -> (r: Lookup)
    ensures
        r == (match reference {
            Reference::Tag(t) => Lookup::ByTag(t),
            Reference::Digest(d) => Lookup::ByDigest(d),
        }),
{
    match reference {
        Reference::Tag(t) => Lookup::ByTag(t),
        Reference::Digest(d) => Lookup::ByDigest(d),
    }
}

/// The digest a reference names, once a tag has been looked up.
pub fn resolve(by: Lookup, tag: Result<Option<Digest>, OpsError>) -> (r: Result<Digest, OpsError>)
    ensures
        r == (match by {
            Lookup::ByDigest(d) => Ok(d),
            Lookup::ByTag(_) => match tag {
                Err(e) => Err(e),
                Ok(None) => Err(OpsError::ManifestUnknown),
                Ok(Some(d)) => Ok(d),
            },
        }),
{
    match by {
        Lookup::ByDigest(d) => Ok(d),
        Lookup::ByTag(_) => match tag {
            Err(e) => Err(e),
            Ok(None) => Err(OpsError::ManifestUnknown),
            Ok(Some(d)) => Ok(d),
        },
    }
}

/// The record behind a digest, or that there is none.
pub fn manifest_detail(found: Result<Option<ManifestRecord>, OpsError>) -> (r: Result<
    ManifestRecord,
    OpsError,
>)
    ensures
        r == (match found {
            Err(e) => Err(e),
            Ok(None) => Err(OpsError::ManifestUnknown),
            Ok(Some(record)) => Ok(record),
        }),
{
    match found {
        Err(e) => Err(e),
        Ok(None) => Err(OpsError::ManifestUnknown),
        Ok(Some(record)) => Ok(record),
    }
}

/// A manifest that is there is served: a `HEAD` tells what the store keeps of it,
/// and a `GET` gives its bytes unchanged, told of by their own number.
pub proof fn law_stored_manifest_is_served(
    stat: ManifestStat,
    told: Result<ManifestStat, OpsError>,
    stored: StoredManifest,
    got: Result<(ManifestStat, Vec<u8>), OpsError>,
)
    requires
        call_ensures(stat_manifest, (Ok(Some(stat)),), told),
        call_ensures(get_manifest, (Ok(Some(stored)),), got),
    ensures
        told == Ok::<ManifestStat, OpsError>(stat),
        got is Ok,
        got->Ok_0.1@ == stored.body@,
        got->Ok_0.0.digest == stored.digest,
        got->Ok_0.0.media_type == stored.media_type,
        got->Ok_0.0.size == stored.body@.len(),
{
    assert(stored.body.len() == stored.body@.len());
}

/// A manifest that is not there is unknown, however it is asked for, and a failure
/// to look is that failure.
pub proof fn law_missing_manifest_is_unknown(
    e: OpsError,
    told: Result<ManifestStat, OpsError>,
    got: Result<(ManifestStat, Vec<u8>), OpsError>,
    detailed: Result<ManifestRecord, OpsError>,
    resolved: Result<Digest, OpsError>,
    tag: String,
)
    ensures
        call_ensures(stat_manifest, (Ok(None),), told) ==> told == Err::<ManifestStat, OpsError>(
            OpsError::ManifestUnknown,
        ),
        call_ensures(get_manifest, (Ok(None),), got) ==> got == Err::<
            (ManifestStat, Vec<u8>),
            OpsError,
        >(OpsError::ManifestUnknown),
        call_ensures(manifest_detail, (Ok(None),), detailed) ==> detailed == Err::<
            ManifestRecord,
            OpsError,
        >(OpsError::ManifestUnknown),
        call_ensures(resolve, (Lookup::ByTag(tag), Ok(None)), resolved) ==> resolved == Err::<
            Digest,
            OpsError,
        >(OpsError::ManifestUnknown),
        call_ensures(stat_manifest, (Err(e),), told) ==> told == Err::<ManifestStat, OpsError>(e),
        call_ensures(get_manifest, (Err(e),), got) ==> got == Err::<(ManifestStat, Vec<u8>), OpsError>(
            e,
        ),
        call_ensures(manifest_detail, (Err(e),), detailed) ==> detailed == Err::<
            ManifestRecord,
            OpsError,
        >(e),
        call_ensures(resolve, (Lookup::ByTag(tag), Err(e)), resolved) ==> resolved == Err::<
            Digest,
            OpsError,
        >(e),
{
}

/// A reference names what it says: a digest itself, whatever a tag of that name
/// would be, and a tag what the tag was found to point at.
pub proof fn law_reference_names_its_digest(
    reference: Reference,
    by: Lookup,
    tag: Result<Option<Digest>, OpsError>,
    pointed: Digest,
    r: Result<Digest, OpsError>,
)
    requires
        call_ensures(lookup, (reference,), by),
        call_ensures(resolve, (by, tag), r),
    ensures
        reference matches Reference::Digest(d) ==> r == Ok::<Digest, OpsError>(d),
        reference matches Reference::Tag(t) ==> by == Lookup::ByTag(t) && (tag == Ok::<
            Option<Digest>,
            OpsError,
        >(Some(pointed)) ==> r == Ok::<Digest, OpsError>(pointed)),
{
}

/// A record that is there is the detail that is shown.
pub proof fn law_found_record_is_shown(record: ManifestRecord, r: Result<ManifestRecord, OpsError>)
    requires
        call_ensures(manifest_detail, (Ok(Some(record)),), r),
    ensures
        r == Ok::<ManifestRecord, OpsError>(record),
{
}

// ---- blobs -------------------------------------------------------------------

/// The size of a blob this repository may serve. Membership is asked first and
/// always: that the bytes exist somewhere is not permission to serve them under
/// this name, and whatever went wrong in asking is answered the same way.
pub fn stat_blob(found: Result<Option<u64>, OpsError>) -> (r: Result<u64, OpsError>)
    ensures
        r == (match found {
            Ok(Some(size)) => Ok(size),
            _ => Err(OpsError::BlobUnknown),
        }),
{
    match found {
        Ok(Some(size)) => Ok(size),
        _ => Err(OpsError::BlobUnknown),
    }
}

/// Whether a blob may be deleted under this repository's name. Unlike a read,
/// a failure to ask is reported as itself.
pub fn delete_blob(found: Result<bool, OpsError>) -> (r: Result<(), OpsError>)
    ensures
        match found {
            Ok(true) => r is Ok,
            Ok(false) => r == Err::<(), OpsError>(OpsError::BlobUnknown),
            Err(e) => r == Err::<(), OpsError>(e),
        },
{
    match found {
        Ok(true) => Ok(()),
        Ok(false) => Err(OpsError::BlobUnknown),
        Err(e) => Err(e),
    }
}

/// A blob is told of, with its size, exactly where the repository was found to
/// hold it: not holding it and failing to find out look the same from outside.
pub proof fn law_blob_is_told_of_where_it_is_held(
    found: Result<Option<u64>, OpsError>,
    r: Result<u64, OpsError>,
)
    requires
        call_ensures(stat_blob, (found,), r),
    ensures
        r is Ok <==> found matches Ok(Some(_)),
        r matches Ok(size) ==> found == Ok::<Option<u64>, OpsError>(Some(size)),
        r matches Err(e) ==> e == OpsError::BlobUnknown,
{
}

/// A blob may be deleted exactly where the repository was found to hold it. One
/// that it does not hold is unknown, and a failure to find out is that failure.
pub proof fn law_blob_is_deleted_where_it_is_held(
    found: Result<bool, OpsError>,
    r: Result<(), OpsError>,
)
    requires
        call_ensures(delete_blob, (found,), r),
    ensures
        r is Ok <==> found == Ok::<bool, OpsError>(true),
        found == Ok::<bool, OpsError>(false) ==> r == Err::<(), OpsError>(OpsError::BlobUnknown),
        found matches Err(e) ==> r == Err::<(), OpsError>(e),
{
}

/// The complaint about a window that the blob does not have.
pub open spec fn outside_text(start: u64, end: u64, digest: DigestView, total: u64) -> Seq<char> {
    "range "@ + text::decimal(start as nat) + "-"@ + text::decimal(end as nat) + " outside blob "@
        + digest.text() + " of "@ + text::decimal(total as nat) + " bytes"@
}

/// A window that the blob does not have. The window was resolved against the
/// recorded size before it was asked for, so the two sizes disagree: corruption,
/// not a client error.
pub fn range_outside(start: u64, end: u64, digest: &Digest, total: u64) -> (r: OpsError)
    ensures
        r@ == OpsErrorView::Internal(outside_text(start, end, digest@, total)),
{
    let mut detail = text::copy("range ");
    detail.append(text::decimal_text(start).as_str());
    detail.append("-");
    detail.append(text::decimal_text(end).as_str());
    detail.append(" outside blob ");
    detail.append(digest.to_text().as_str());
    detail.append(" of ");
    detail.append(text::decimal_text(total).as_str());
    detail.append(" bytes");
    OpsError::Internal(detail)
}

/// The next step of serving a blob.
#[derive(Debug)]
pub enum ServeStep {
    /// Ask whether the repository may serve the blob.
    CheckServable,
    /// Open the blob.
    Open,
    /// Resolve the window against the blob that is open, of so many bytes.
    Resolve { start: u64, end: u64, total: u64 },
    /// Stream the blob, or the window of it that was asked for.
    Stream { total: u64, window: Option<(u64, u64)> },
    /// It cannot be served.
    Failed(OpsError),
}

/// The outcome of a step of serving a blob.
#[derive(Debug)]
pub enum ServeEvent {
    Servable(Result<bool, OpsError>),
    /// The length of the file itself, not the recorded one: the arithmetic of a
    /// range has to agree with what the read is issued against.
    Opened(Result<u64, StoreError>),
    /// Whether the blob has the window.
    Resolved(bool),
}

/// `r` is where serving `digest`, or `window` of it, goes from `step`.
pub open spec fn serves(
    r: Option<ServeStep>,
    digest: DigestView,
    window: Option<(u64, u64)>,
    step: ServeStep,
    event: ServeEvent,
) -> bool {
    match (step, event) {
        (ServeStep::CheckServable, ServeEvent::Servable(found)) => if found == Ok::<bool, OpsError>(
            true,
        ) {
            r == Some(ServeStep::Open)
        } else {
            r == Some(ServeStep::Failed(OpsError::BlobUnknown))
        },
        (ServeStep::Open, ServeEvent::Opened(Ok(total))) => r == Some(
            match window {
                Some((start, end)) => ServeStep::Resolve { start, end, total },
                None => ServeStep::Stream { total, window: None },
            },
        ),
        (ServeStep::Open, ServeEvent::Opened(Err(e))) => {
            &&& r matches Some(ServeStep::Failed(f))
            &&& f@ == backend::store_failure(e)
        },
        (ServeStep::Resolve { start, end, total }, ServeEvent::Resolved(true)) => r == Some(
            ServeStep::Stream { total, window: Some((start, end)) },
        ),
        (ServeStep::Resolve { start, end, total }, ServeEvent::Resolved(false)) => {
            &&& r matches Some(ServeStep::Failed(f))
            &&& f@ == OpsErrorView::Internal(outside_text(start, end, digest, total))
        },
        _ => r is None,
    }
}

/// Where serving a blob, or a window of it, goes from `step`.
///
/// Membership is asked first, and whatever goes wrong in asking is answered as a
/// blob this repository does not have.
pub fn get_blob_next(
    digest: &Digest,
    window: Option<(u64, u64)>,
    step: ServeStep,
    event: ServeEvent,
) -> (r: Option<ServeStep>)
    ensures
        serves(r, digest@, window, step, event),
{
    match (step, event) {
        (ServeStep::CheckServable, ServeEvent::Servable(Ok(true))) => Some(ServeStep::Open),
        (ServeStep::CheckServable, ServeEvent::Servable(_)) => Some(
            ServeStep::Failed(OpsError::BlobUnknown),
        ),
        (ServeStep::Open, ServeEvent::Opened(Ok(total))) => match window {
            Some((start, end)) => Some(ServeStep::Resolve { start, end, total }),
            None => Some(ServeStep::Stream { total, window: None }),
        },
        (ServeStep::Open, ServeEvent::Opened(Err(e))) => Some(
            ServeStep::Failed(backend::storage_error(e)),
        ),
        (ServeStep::Resolve { start, end, total }, ServeEvent::Resolved(true)) => Some(
            ServeStep::Stream { total, window: Some((start, end)) },
        ),
        (ServeStep::Resolve { start, end, total }, ServeEvent::Resolved(false)) => Some(
            ServeStep::Failed(range_outside(start, end, digest, total)),
        ),
        _ => None,
    }
}

/// A blob is opened only once its repository was found to hold it: that the
/// bytes exist somewhere is not permission to serve them under this name.
pub proof fn law_serving_needs_membership(
    r: Option<ServeStep>,
    digest: DigestView,
    window: Option<(u64, u64)>,
    step: ServeStep,
    event: ServeEvent,
)
    requires
        serves(r, digest, window, step, event),
        r == Some(ServeStep::Open),
    ensures
        step is CheckServable,
        event == ServeEvent::Servable(Ok(true)),
{
}

/// Serving `digest`, or `window` of it, took `steps`, each from the one before it
/// by an outcome of `events`.
pub open spec fn serve_run(
    digest: Digest,
    window: Option<(u64, u64)>,
    steps: Seq<ServeStep>,
    events: Seq<ServeEvent>,
) -> bool {
    &&& steps.len() == events.len() + 1
    &&& steps[0] is CheckServable
    &&& forall|i: int|
        0 <= i < events.len() ==> call_ensures(
            get_blob_next,
            (&digest, window, #[trigger] steps[i], events[i]),
            Some(steps[i + 1]),
        )
}

/// An outcome is followed by a step exactly where it is the outcome of the step
/// that was taken: serving never stands still on its way.
pub proof fn law_serving_goes_on_from_its_own_outcome(
    digest: Digest,
    window: Option<(u64, u64)>,
    step: ServeStep,
    event: ServeEvent,
    r: Option<ServeStep>,
)
    requires
        call_ensures(get_blob_next, (&digest, window, step, event), r),
    ensures
        r is Some <==> {
            ||| step is CheckServable && event is Servable
            ||| step is Open && event is Opened
            ||| step is Resolve && event is Resolved
        },
{
}

/// What is streamed is what was asked for: of a blob that the repository may
/// serve, whole where no window was asked for, and otherwise exactly the window
/// that was asked for and that the blob has.
pub proof fn law_what_was_asked_for_is_streamed(
    digest: Digest,
    window: Option<(u64, u64)>,
    steps: Seq<ServeStep>,
    total: u64,
)
    ensures
        serve_run(
            digest,
            window,
            steps,
            seq![ServeEvent::Servable(Ok(true)), ServeEvent::Opened(Ok(total))],
        ) && window is None ==> steps.last() == (ServeStep::Stream { total, window: None }),
        serve_run(
            digest,
            window,
            steps,
            seq![
                ServeEvent::Servable(Ok(true)),
                ServeEvent::Opened(Ok(total)),
                ServeEvent::Resolved(true),
            ],
        ) ==> window is Some && steps.last() == (ServeStep::Stream { total, window }),
{
    let whole = seq![ServeEvent::Servable(Ok(true)), ServeEvent::Opened(Ok(total))];
    let part = seq![
        ServeEvent::Servable(Ok(true)),
        ServeEvent::Opened(Ok(total)),
        ServeEvent::Resolved(true),
    ];
    if serve_run(digest, window, steps, whole) && window is None {
        assert(serves(Some(steps[1]), digest@, window, steps[0], whole[0]));
        assert(serves(Some(steps[2]), digest@, window, steps[1], whole[1]));
    }
    if serve_run(digest, window, steps, part) {
        assert(serves(Some(steps[1]), digest@, window, steps[0], part[0]));
        assert(serves(Some(steps[2]), digest@, window, steps[1], part[1]));
        assert(serves(Some(steps[3]), digest@, window, steps[2], part[2]));
    }
}

/// However serving went, where it streams it had asked for membership and been
/// told of it, it streams the blob of the length that was opened, and no other
/// window than the one asked for.
pub proof fn law_nothing_else_is_streamed(
    digest: Digest,
    window: Option<(u64, u64)>,
    steps: Seq<ServeStep>,
    events: Seq<ServeEvent>,
)
    requires
        serve_run(digest, window, steps, events),
        steps.last() is Stream,
    ensures
        events.len() == (if window is Some {
            3int
        } else {
            2
        }),
        events[0] == ServeEvent::Servable(Ok(true)),
        steps.last()->window == window,
        events[1] == ServeEvent::Opened(Ok(steps.last()->Stream_total)),
        window is Some ==> events[2] == ServeEvent::Resolved(true),
{
    assert(events.len() > 0);
    assert(serves(Some(steps[1]), digest@, window, steps[0], events[0]));
    if events.len() > 1 {
        assert(serves(Some(steps[2]), digest@, window, steps[1], events[1]));
    }
    if events.len() > 2 {
        assert(serves(Some(steps[3]), digest@, window, steps[2], events[2]));
    }
    if events.len() > 3 {
        assert(serves(Some(steps[4]), digest@, window, steps[3], events[3]));
    }
}

/// A blob that the repository was not found to hold is unknown, whatever was found
/// instead; one that cannot be opened fails as the store did; and a window that
/// the opened blob does not have is a fault of the registry, told with the window,
/// the blob and its length.
pub proof fn law_what_cannot_be_served_fails(
    digest: Digest,
    window: Option<(u64, u64)>,
    found: Result<bool, OpsError>,
    e: StoreError,
    start: u64,
    end: u64,
    total: u64,
    r: Option<ServeStep>,
)
    ensures
        found != Ok::<bool, OpsError>(true) && call_ensures(
            get_blob_next,
            (&digest, window, ServeStep::CheckServable, ServeEvent::Servable(found)),
            r,
        ) ==> r == Some(ServeStep::Failed(OpsError::BlobUnknown)),
        call_ensures(
            get_blob_next,
            (&digest, window, ServeStep::Open, ServeEvent::Opened(Err(e))),
            r,
        ) ==> (r matches Some(ServeStep::Failed(f)) && f@ == backend::store_failure(e)),
        call_ensures(
            get_blob_next,
            (
                &digest,
                window,
                ServeStep::Resolve { start, end, total },
                ServeEvent::Resolved(false),
            ),
            r,
        ) ==> (r matches Some(ServeStep::Failed(f)) && f@ == OpsErrorView::Internal(
            "range "@ + text::decimal(start as nat) + "-"@ + text::decimal(end as nat)
                + " outside blob "@ + digest@.text() + " of "@ + text::decimal(total as nat)
                + " bytes"@,
        )),
{
}

/// The next step of mounting a blob from another repository.
#[derive(Debug)]
pub enum MountStep {
    /// Ask whether the source repository may serve the blob. Mounting out of one
    /// that could not would launder the content across a boundary.
    AskSource,
    /// Ask for the blob's size: it exists if it has one.
    AskSize,
    /// Record the blob, of this size, under the target's name. Nothing is
    /// copied.
    Commit { size: u64 },
    /// Whether it is mounted.
    Done(Result<bool, OpsError>),
}

/// The outcome of a step of mounting a blob.
#[derive(Debug)]
pub enum MountEvent {
    Source(Result<bool, OpsError>),
    Size(Result<Option<u64>, OpsError>),
    Committed(Result<(), OpsError>),
}

/// The first step: a named source must be entitled to the blob, and without one
/// the question is only whether the content exists.
pub fn mount_blob(from: &Option<String>) -> (r: MountStep)
    ensures
        r == (if from is Some {
            MountStep::AskSource
        } else {
            MountStep::AskSize
        }),
{
    match from {
        Some(_) => MountStep::AskSource,
        None => MountStep::AskSize,
    }
}

/// The step after `step`, given its outcome.
pub open spec fn mount_after(step: MountStep, event: MountEvent) -> Option<MountStep> {
    match (step, event) {
        (MountStep::AskSource, MountEvent::Source(Ok(true))) => Some(MountStep::AskSize),
        (MountStep::AskSource, MountEvent::Source(Ok(false))) => Some(MountStep::Done(Ok(false))),
        (MountStep::AskSource, MountEvent::Source(Err(e))) => Some(MountStep::Done(Err(e))),
        (MountStep::AskSize, MountEvent::Size(Ok(Some(size)))) => Some(MountStep::Commit { size }),
        (MountStep::AskSize, MountEvent::Size(Ok(None))) => Some(MountStep::Done(Ok(false))),
        (MountStep::AskSize, MountEvent::Size(Err(e))) => Some(MountStep::Done(Err(e))),
        (MountStep::Commit { .. }, MountEvent::Committed(Ok(()))) => Some(MountStep::Done(Ok(true))),
        (MountStep::Commit { .. }, MountEvent::Committed(Err(e))) => Some(MountStep::Done(Err(e))),
        _ => None,
    }
}

/// The step after `step`, given its outcome.
pub fn mount_blob_next(step: MountStep, event: MountEvent) -> (r: Option<MountStep>)
    ensures
        r == mount_after(step, event),
{
    match (step, event) {
        (MountStep::AskSource, MountEvent::Source(Ok(true))) => Some(MountStep::AskSize),
        (MountStep::AskSource, MountEvent::Source(Ok(false))) => Some(MountStep::Done(Ok(false))),
        (MountStep::AskSource, MountEvent::Source(Err(e))) => Some(MountStep::Done(Err(e))),
        (MountStep::AskSize, MountEvent::Size(Ok(Some(size)))) => Some(MountStep::Commit { size }),
        (MountStep::AskSize, MountEvent::Size(Ok(None))) => Some(MountStep::Done(Ok(false))),
        (MountStep::AskSize, MountEvent::Size(Err(e))) => Some(MountStep::Done(Err(e))),
        (MountStep::Commit { .. }, MountEvent::Committed(Ok(()))) => Some(MountStep::Done(Ok(true))),
        (MountStep::Commit { .. }, MountEvent::Committed(Err(e))) => Some(MountStep::Done(Err(e))),
        _ => None,
    }
}

/// Where a mount stands after `events`.
pub open spec fn mount_run(start: MountStep, events: Seq<MountEvent>) -> Option<MountStep>
    decreases events.len(),
{
    if events.len() == 0 {
        Some(start)
    } else {
        match mount_run(start, events.drop_last()) {
            Some(step) => mount_after(step, events.last()),
            None => None,
        }
    }
}

/// From a named source a blob is mounted only if that source may serve it, and
/// with the size it has.
pub proof fn law_mount_needs_an_entitled_source(events: Seq<MountEvent>, size: u64)
    requires
        mount_run(MountStep::AskSource, events) == Some(MountStep::Commit { size }),
    ensures
        events.len() == 2,
        events[0] == MountEvent::Source(Ok(true)),
        events[1] == MountEvent::Size(Ok(Some(size))),
{
    let before = events.drop_last();
    assert(events.last() == events[events.len() - 1]);
    lemma_mount_at_size(before);
    assert(before[0] == events[0]);
}

proof fn lemma_mount_at_size(events: Seq<MountEvent>)
    requires
        mount_run(MountStep::AskSource, events) == Some(MountStep::AskSize),
    ensures
        events.len() == 1,
        events[0] == MountEvent::Source(Ok(true)),
{
    if events.len() > 0 {
        let before = events.drop_last();
        assert(events.last() == events[events.len() - 1]);
        if before.len() > 0 {
            lemma_mount_never_returns(before);
        }
    }
}

/// Nothing leads back to asking the source.
proof fn lemma_mount_never_returns(events: Seq<MountEvent>)
    requires
        events.len() > 0,
    ensures
        mount_run(MountStep::AskSource, events) != Some(MountStep::AskSource),
{
}

/// A mount from a named source begins by asking that source, and one without a
/// source by asking for the content.
pub proof fn law_mount_begins_with_its_source(from: Option<String>, r: MountStep)
    requires
        call_ensures(mount_blob, (&from,), r),
    ensures
        from is Some ==> r is AskSource,
        from is None ==> r is AskSize,
{
}

/// An outcome is followed by a step exactly where it is the outcome of the step
/// that was taken: a mount never stands still on its way.
pub proof fn law_mount_goes_on_from_its_own_outcome(step: MountStep, event: MountEvent)
    ensures
        mount_after(step, event) is Some <==> {
            ||| step is AskSource && event is Source
            ||| step is AskSize && event is Size
            ||| step is Commit && event is Committed
        },
{
}

/// Content that exists is recorded under the target with the size it has, and is
/// then mounted: out of a source that may serve it, or where none is named.
pub proof fn law_existing_content_is_mounted(size: u64)
    ensures
        mount_run(
            MountStep::AskSource,
            seq![MountEvent::Source(Ok(true)), MountEvent::Size(Ok(Some(size)))],
        ) == Some(MountStep::Commit { size }),
        mount_run(
            MountStep::AskSource,
            seq![
                MountEvent::Source(Ok(true)),
                MountEvent::Size(Ok(Some(size))),
                MountEvent::Committed(Ok(())),
            ],
        ) == Some(MountStep::Done(Ok(true))),
        mount_run(MountStep::AskSize, seq![MountEvent::Size(Ok(Some(size)))]) == Some(
            MountStep::Commit { size },
        ),
        mount_run(
            MountStep::AskSize,
            seq![MountEvent::Size(Ok(Some(size))), MountEvent::Committed(Ok(()))],
        ) == Some(MountStep::Done(Ok(true))),
{
    reveal_with_fuel(mount_run, 4);
    let asked = seq![MountEvent::Source(Ok(true))];
    let sized = asked.push(MountEvent::Size(Ok(Some(size))));
    let done = sized.push(MountEvent::Committed(Ok(())));
    assert(asked.drop_last() =~= Seq::empty());
    assert(sized.drop_last() =~= asked);
    assert(done.drop_last() =~= sized);
    assert(seq![MountEvent::Source(Ok(true)), MountEvent::Size(Ok(Some(size)))] =~= sized);
    assert(seq![
        MountEvent::Source(Ok(true)),
        MountEvent::Size(Ok(Some(size))),
        MountEvent::Committed(Ok(())),
    ] =~= done);
    let found = seq![MountEvent::Size(Ok(Some(size)))];
    let mounted = found.push(MountEvent::Committed(Ok(())));
    assert(found.drop_last() =~= Seq::empty());
    assert(mounted.drop_last() =~= found);
    assert(seq![MountEvent::Size(Ok(Some(size))), MountEvent::Committed(Ok(()))] =~= mounted);
}

/// A source that may not serve the blob, and content that does not exist, are not
/// mounted and are no failure; a failure to ask or to record is that failure.
pub proof fn law_what_cannot_be_mounted_is_not(size: u64, e: OpsError)
    ensures
        mount_after(MountStep::AskSource, MountEvent::Source(Ok(false))) == Some(
            MountStep::Done(Ok(false)),
        ),
        mount_after(MountStep::AskSize, MountEvent::Size(Ok(None))) == Some(
            MountStep::Done(Ok(false)),
        ),
        mount_after(MountStep::AskSource, MountEvent::Source(Err(e))) == Some(
            MountStep::Done(Err(e)),
        ),
        mount_after(MountStep::AskSize, MountEvent::Size(Err(e))) == Some(MountStep::Done(Err(e))),
        mount_after(MountStep::Commit { size }, MountEvent::Committed(Err(e))) == Some(
            MountStep::Done(Err(e)),
        ),
{
}

// ---- history -----------------------------------------------------------------

/// A tag event as the store keeps it. `at` is unix milliseconds.
#[derive(Debug)]
pub struct TagEventEntry {
    pub at: u64,
    pub tag: String,
    pub digest: Digest,
    pub kind: TagEventKind,
    pub media_type: String,
    pub size: u64,
}

/// What happened to a tag.
#[derive(Debug, Clone, Copy, PartialEq, Eq, Structural)]
pub enum TagEventKind {
    Created,
    Deleted,
}

/// A tag event as the registry tells it.
pub fn tag_event_info(entry: TagEventEntry) -> (r: TagEventInfo)
    ensures
        r == (TagEventInfo {
            at: entry.at,
            tag: entry.tag,
            digest: entry.digest,
            deleted: entry.kind == TagEventKind::Deleted,
            media_type: entry.media_type,
            size: entry.size,
        }),
{
    TagEventInfo {
        at: entry.at,
        tag: entry.tag,
        digest: entry.digest,
        deleted: entry.kind == TagEventKind::Deleted,
        media_type: entry.media_type,
        size: entry.size,
    }
}

/// `info` tells `entry`.
pub open spec fn tells(info: TagEventInfo, entry: TagEventEntry) -> bool {
    &&& info.at == entry.at
    &&& info.tag == entry.tag
    &&& info.digest == entry.digest
    &&& info.deleted == (entry.kind == TagEventKind::Deleted)
    &&& info.media_type == entry.media_type
    &&& info.size == entry.size
}

/// One page of a history, in the order of the scan.
pub fn tag_history(entries: Vec<TagEventEntry>, next: Option<HistoryCursor>) -> (r: (
    Vec<TagEventInfo>,
    Option<HistoryCursor>,
))
    ensures
        r.1 == next,
        r.0@.len() == entries@.len(),
        forall|i: int| 0 <= i < entries@.len() ==> tells(#[trigger] r.0@[i], entries@[i]),
{
    let mut events: Vec<TagEventInfo> = Vec::new();
    let ghost all = entries@;
    for entry in it: entries
        invariant
            it.seq() == all,
            events@.len() == it.index(),
            forall|i: int| 0 <= i < it.index() ==> tells(#[trigger] events@[i], all[i]),
    {
        events.push(tag_event_info(entry));
    }
    (events, next)
}

/// Every event of the scan is told in its place as the store keeps it, a deletion
/// as a deletion, and the history goes on where the scan stopped.
pub proof fn law_history_is_told_as_kept(
    entries: Vec<TagEventEntry>,
    next: Option<HistoryCursor>,
    r: (Vec<TagEventInfo>, Option<HistoryCursor>),
    i: int,
)
    requires
        call_ensures(tag_history, (entries, next), r),
        0 <= i < entries@.len(),
    ensures
        r.1 == next,
        r.0@.len() == entries@.len(),
        r.0@[i].at == entries@[i].at,
        r.0@[i].tag == entries@[i].tag,
        r.0@[i].digest == entries@[i].digest,
        r.0@[i].deleted <==> entries@[i].kind is Deleted,
        r.0@[i].media_type == entries@[i].media_type,
        r.0@[i].size == entries@[i].size,
{
    assert(tells(r.0@[i], entries@[i]));
}

} // verus!
