//! The bodies of the discovery API.

use vstd::prelude::*;

use crate::calendar;
use crate::reference;
use crate::reference::Digest;
use crate::seam::{
    CounterBucket, HistoryCursor, ManifestInfo, Page, PullCountDay, PullCountScope,
    RepoDetail, RepoPage, RepoSummary, TagEventInfo, TagInfo, Tally,
};
use crate::text;

verus! {

// ---- repositories ------------------------------------------------------------

/// One row of the repository list.
#[derive(Debug)]
pub struct RepoRow {
    pub name: String,
    pub tags: Tally,
    pub manifests: Tally,
}

/// One page of the repository list.
#[derive(Debug)]
pub struct RepositoriesBody {
    pub repositories: Vec<RepoRow>,
    /// Pass back as `?last=`. `null` when the listing is exhausted.
    pub next: Option<String>,
}

/// One repository.
#[derive(Debug)]
pub struct RepositoryBody {
    pub name: String,
    pub tags: Tally,
    pub manifests: Tally,
    pub blobs: Tally,
    pub size_bytes: u64,
}

/// `row` shows `summary`.
pub open spec fn shows_summary(row: RepoRow, summary: RepoSummary) -> bool {
    row.name == summary.name && row.tags == summary.tags && row.manifests == summary.manifests
}

/// The page of the repository list that shows a page of summaries.
pub fn repositories_body(page: RepoPage) -> (r: RepositoriesBody)
    ensures
        r.next == page.next,
        r.repositories@.len() == page.items@.len(),
        forall|i: int|
            0 <= i < page.items@.len() ==> shows_summary(#[trigger] r.repositories@[i], page.items@[i]),
{
    let mut repositories: Vec<RepoRow> = Vec::new();
    let next = page.next;
    let items = page.items;
    let ghost all = items@;
    for summary in it: items
        invariant
            it.seq() == all,
            repositories@.len() == it.index(),
            forall|i: int|
                0 <= i < it.index() ==> shows_summary(#[trigger] repositories@[i], all[i]),
    {
        repositories.push(
            RepoRow { name: summary.name, tags: summary.tags, manifests: summary.manifests },
        );
    }
    RepositoriesBody { repositories, next }
}

/// The page that shows one repository.
pub fn repository_body(detail: RepoDetail) -> (r: RepositoryBody)
    ensures
        r == (RepositoryBody {
            name: detail.name,
            tags: detail.tags,
            manifests: detail.manifests,
            blobs: detail.blobs,
            size_bytes: detail.size_bytes,
        }),
{
    RepositoryBody {
        name: detail.name,
        tags: detail.tags,
        manifests: detail.manifests,
        blobs: detail.blobs,
        size_bytes: detail.size_bytes,
    }
}

/// The repository list shows every summary of the page in its place, with its own
/// name and counts, and goes on where the page does.
pub proof fn law_repositories_are_shown_as_summarised(page: RepoPage, r: RepositoriesBody, i: int)
    requires
        call_ensures(repositories_body, (page,), r),
        0 <= i < page.items@.len(),
    ensures
        r.next == page.next,
        r.repositories@.len() == page.items@.len(),
        r.repositories@[i].name == page.items@[i].name,
        r.repositories@[i].tags == page.items@[i].tags,
        r.repositories@[i].manifests == page.items@[i].manifests,
{
    assert(shows_summary(r.repositories@[i], page.items@[i]));
}

/// A repository's page shows its own figures.
pub proof fn law_repository_shows_its_figures(detail: RepoDetail, r: RepositoryBody)
    requires
        call_ensures(repository_body, (detail,), r),
    ensures
        r.name == detail.name,
        r.tags == detail.tags,
        r.manifests == detail.manifests,
        r.blobs == detail.blobs,
        r.size_bytes == detail.size_bytes,
{
}

// ---- manifests and tags ------------------------------------------------------

/// One manifest.
#[derive(Debug)]
pub struct ManifestBody {
    pub digest: String,
    pub media_type: String,
    pub size: u64,
    pub blob_size: u64,
    pub artifact_type: Option<String>,
    pub subject: Option<String>,
    pub pushed_at: u64,
    pub platforms: Vec<String>,
    pub blobs: u64,
    pub children: u64,
    pub tags: Vec<String>,
    pub annotations: Vec<(String, String)>,
}

/// The text of an optional digest.
pub open spec fn digest_text(o: Option<Digest>) -> Option<Seq<char>> {
    match o {
        Some(d) => Some(d@.text()),
        None => None,
    }
}

/// `body` shows `info`, its digests written out.
pub open spec fn shows_manifest(body: ManifestBody, info: ManifestInfo) -> bool {
    &&& body.digest@ == info.digest@.text()
    &&& body.media_type == info.media_type
    &&& body.size == info.size
    &&& body.blob_size == info.blob_size
    &&& body.artifact_type == info.artifact_type
    &&& text::opt_text(body.subject) == digest_text(info.subject)
    &&& body.pushed_at == info.pushed_at
    &&& body.platforms == info.platforms
    &&& body.blobs == info.blobs
    &&& body.children == info.children
    &&& body.tags == info.tags
    &&& body.annotations == info.annotations
}

/// The body that shows one manifest.
pub fn manifest_body(info: ManifestInfo) -> (r: ManifestBody)
    ensures
        shows_manifest(r, info),
{
    ManifestBody {
        digest: info.digest.to_text(),
        media_type: info.media_type,
        size: info.size,
        blob_size: info.blob_size,
        artifact_type: info.artifact_type,
        subject: match &info.subject {
            Some(d) => Some(d.to_text()),
            None => None,
        },
        pushed_at: info.pushed_at,
        platforms: info.platforms,
        blobs: info.blobs,
        children: info.children,
        tags: info.tags,
        annotations: info.annotations,
    }
}

/// One tag.
#[derive(Debug)]
pub struct TagBody {
    pub name: String,
    pub digest: String,
    pub tagged_at: u64,
    pub manifest: Option<ManifestBody>,
}

/// One page of a tag list.
#[derive(Debug)]
pub struct TagsBody {
    pub tags: Vec<TagBody>,
    pub next: Option<String>,
}

/// One page of a manifest list.
#[derive(Debug)]
pub struct ManifestsBody {
    pub manifests: Vec<ManifestBody>,
    /// A digest, to pass back as `?last=`.
    pub next: Option<String>,
}

/// `body` shows `info`.
pub open spec fn shows_tag(body: TagBody, info: TagInfo) -> bool {
    &&& body.name == info.name
    &&& body.digest@ == info.digest@.text()
    &&& body.tagged_at == info.tagged_at
    &&& match info.manifest {
        Some(m) => body.manifest is Some && shows_manifest(body.manifest->0, m),
        None => body.manifest is None,
    }
}

/// Where a tag list goes on: behind its last row, where there is more.
pub open spec fn tags_next(page: Page<TagInfo>) -> Option<Seq<char>> {
    if page.more && page.items@.len() > 0 {
        Some(page.items@.last().name@)
    } else {
        None
    }
}

/// Where a manifest list goes on: behind its last row, where there is more.
pub open spec fn manifests_next(page: Page<ManifestInfo>) -> Option<Seq<char>> {
    if page.more && page.items@.len() > 0 {
        Some(page.items@.last().digest@.text())
    } else {
        None
    }
}

/// The page that shows a page of tags.
pub fn tags_body(page: Page<TagInfo>) -> (r: TagsBody)
    ensures
        text::opt_text(r.next) == tags_next(page),
        r.tags@.len() == page.items@.len(),
        forall|i: int| 0 <= i < page.items@.len() ==> shows_tag(#[trigger] r.tags@[i], page.items@[i]),
{
    let n: usize = page.items.len();
    let next: Option<String> = if page.more && n > 0 {
        Some(text::copy(page.items[n - 1].name.as_str()))
    } else {
        None
    };
    let mut tags: Vec<TagBody> = Vec::new();
    let items = page.items;
    let ghost all = items@;
    for info in it: items
        invariant
            it.seq() == all,
            tags@.len() == it.index(),
            forall|i: int| 0 <= i < it.index() ==> shows_tag(#[trigger] tags@[i], all[i]),
    {
        let digest = info.digest.to_text();
        let manifest: Option<ManifestBody> = match info.manifest {
            Some(m) => Some(manifest_body(m)),
            None => None,
        };
        tags.push(TagBody { name: info.name, digest, tagged_at: info.tagged_at, manifest });
    }
    TagsBody { tags, next }
}

/// The page that shows a page of manifests.
pub fn manifests_body(page: Page<ManifestInfo>) -> (r: ManifestsBody)
    ensures
        text::opt_text(r.next) == manifests_next(page),
        r.manifests@.len() == page.items@.len(),
        forall|i: int|
            0 <= i < page.items@.len() ==> shows_manifest(#[trigger] r.manifests@[i], page.items@[i]),
{
    let n: usize = page.items.len();
    let next: Option<String> = if page.more && n > 0 {
        Some(page.items[n - 1].digest.to_text())
    } else {
        None
    };
    let mut manifests: Vec<ManifestBody> = Vec::new();
    let items = page.items;
    let ghost all = items@;
    for info in it: items
        invariant
            it.seq() == all,
            manifests@.len() == it.index(),
            forall|i: int| 0 <= i < it.index() ==> shows_manifest(#[trigger] manifests@[i], all[i]),
    {
        manifests.push(manifest_body(info));
    }
    ManifestsBody { manifests, next }
}

/// The cursor of a manifest list is understood when it comes back: it is a
/// digest, and the one the page ended on.
pub proof fn law_manifest_cursor_is_a_digest(page: Page<ManifestInfo>)
    requires
        forall|i: int| 0 <= i < page.items@.len() ==> (#[trigger] page.items@[i]).digest@.wf(),
    ensures
        manifests_next(page) matches Some(cursor) ==> reference::digest_of(cursor) == Some(
            page.items@.last().digest@,
        ),
{
    if manifests_next(page) is Some {
        let d = page.items@[page.items@.len() - 1].digest@;
        reference::lemma_digest_round_trip(d);
    }
}

/// A manifest is shown by its own digests, sizes, times and lists.
pub proof fn law_manifest_shows_its_own_fields(body: ManifestBody, info: ManifestInfo)
    requires
        call_ensures(manifest_body, (info,), body),
    ensures
        body.digest@ == info.digest@.text(),
        body.media_type == info.media_type,
        body.size == info.size,
        body.blob_size == info.blob_size,
        body.artifact_type == info.artifact_type,
        body.subject is Some <==> info.subject is Some,
        info.subject matches Some(d) ==> body.subject->0@ == d@.text(),
        body.pushed_at == info.pushed_at,
        body.platforms == info.platforms,
        body.blobs == info.blobs,
        body.children == info.children,
        body.tags == info.tags,
        body.annotations == info.annotations,
{
}

/// Every tag of a page is shown in its place by its own name, digest and time and,
/// where its manifest was found, by that manifest.
pub proof fn law_tags_show_their_own_fields(page: Page<TagInfo>, r: TagsBody, i: int)
    requires
        call_ensures(tags_body, (page,), r),
        0 <= i < page.items@.len(),
    ensures
        r.tags@.len() == page.items@.len(),
        r.tags@[i].name == page.items@[i].name,
        r.tags@[i].digest@ == page.items@[i].digest@.text(),
        r.tags@[i].tagged_at == page.items@[i].tagged_at,
        r.tags@[i].manifest is Some <==> page.items@[i].manifest is Some,
        page.items@[i].manifest matches Some(m) ==> {
            &&& r.tags@[i].manifest->0.digest@ == m.digest@.text()
            &&& r.tags@[i].manifest->0.media_type == m.media_type
            &&& r.tags@[i].manifest->0.size == m.size
            &&& r.tags@[i].manifest->0.blob_size == m.blob_size
            &&& r.tags@[i].manifest->0.artifact_type == m.artifact_type
            &&& text::opt_text(r.tags@[i].manifest->0.subject) == digest_text(m.subject)
            &&& r.tags@[i].manifest->0.pushed_at == m.pushed_at
            &&& r.tags@[i].manifest->0.platforms == m.platforms
            &&& r.tags@[i].manifest->0.blobs == m.blobs
            &&& r.tags@[i].manifest->0.children == m.children
            &&& r.tags@[i].manifest->0.tags == m.tags
            &&& r.tags@[i].manifest->0.annotations == m.annotations
        },
{
    assert(shows_tag(r.tags@[i], page.items@[i]));
}

/// Every manifest of a page is shown in its place by its own fields.
pub proof fn law_manifests_show_their_own_fields(
    page: Page<ManifestInfo>,
    r: ManifestsBody,
    i: int,
)
    requires
        call_ensures(manifests_body, (page,), r),
        0 <= i < page.items@.len(),
    ensures
        r.manifests@.len() == page.items@.len(),
        r.manifests@[i].digest@ == page.items@[i].digest@.text(),
        r.manifests@[i].media_type == page.items@[i].media_type,
        r.manifests@[i].size == page.items@[i].size,
        r.manifests@[i].blob_size == page.items@[i].blob_size,
        r.manifests@[i].artifact_type == page.items@[i].artifact_type,
        r.manifests@[i].subject is Some <==> page.items@[i].subject is Some,
        page.items@[i].subject matches Some(d) ==> r.manifests@[i].subject->0@ == d@.text(),
        r.manifests@[i].pushed_at == page.items@[i].pushed_at,
        r.manifests@[i].platforms == page.items@[i].platforms,
        r.manifests@[i].blobs == page.items@[i].blobs,
        r.manifests@[i].children == page.items@[i].children,
        r.manifests@[i].tags == page.items@[i].tags,
        r.manifests@[i].annotations == page.items@[i].annotations,
{
    assert(shows_manifest(r.manifests@[i], page.items@[i]));
}

/// A listing goes on exactly where there is more behind a row that was shown, and
/// then behind the last row.
pub proof fn law_listings_go_on_behind_their_last_row(
    tags: Page<TagInfo>,
    tags_shown: TagsBody,
    manifests: Page<ManifestInfo>,
    manifests_shown: ManifestsBody,
)
    requires
        call_ensures(tags_body, (tags,), tags_shown),
        call_ensures(manifests_body, (manifests,), manifests_shown),
    ensures
        tags_shown.next is Some <==> tags.more && tags.items@.len() > 0,
        tags_shown.next is Some ==> tags_shown.next->0@ == tags.items@[tags.items@.len() - 1].name@,
        manifests_shown.next is Some <==> manifests.more && manifests.items@.len() > 0,
        manifests_shown.next is Some ==> manifests_shown.next->0@
            == manifests.items@[manifests.items@.len() - 1].digest@.text(),
{
}

// ---- tag history -------------------------------------------------------------

/// One tag event. `at` is unix **milliseconds**.
#[derive(Debug)]
pub struct TagEventBody {
    pub at: u64,
    pub tag: String,
    pub digest: String,
    pub event: &'static str,
    /// The manifest's media type and size *at the time of the event*.
    pub media_type: String,
    pub size: u64,
}

/// One page of a tag's history, newest first.
#[derive(Debug)]
pub struct TagHistoryBody {
    pub events: Vec<TagEventBody>,
    pub next: Option<HistoryCursor>,
}

/// `body` shows `event`: a tag is `created` by every push that moves it and
/// `deleted` when it goes.
pub open spec fn shows_event(body: TagEventBody, event: TagEventInfo) -> bool {
    &&& body.at == event.at
    &&& body.tag == event.tag
    &&& body.digest@ == event.digest@.text()
    &&& body.event@ == (if event.deleted {
        "deleted"@
    } else {
        "created"@
    })
    &&& body.media_type == event.media_type
    &&& body.size == event.size
}

/// The page that shows a page of events.
pub fn tag_history_body(events: Vec<TagEventInfo>, next: Option<HistoryCursor>) -> (r: TagHistoryBody)
    ensures
        r.next == next,
        r.events@.len() == events@.len(),
        forall|i: int| 0 <= i < events@.len() ==> shows_event(#[trigger] r.events@[i], events@[i]),
{
    let mut rows: Vec<TagEventBody> = Vec::new();
    let ghost all = events@;
    for event in it: events
        invariant
            it.seq() == all,
            rows@.len() == it.index(),
            forall|i: int| 0 <= i < it.index() ==> shows_event(#[trigger] rows@[i], all[i]),
    {
        rows.push(
            TagEventBody {
                at: event.at,
                digest: event.digest.to_text(),
                tag: event.tag,
                event: if event.deleted {
                    "deleted"
                } else {
                    "created"
                },
                media_type: event.media_type,
                size: event.size,
            },
        );
    }
    TagHistoryBody { events: rows, next }
}

/// Every event of a history is shown in its place as it was told, a deletion as
/// `deleted` and every other as `created`, and the history goes on where it was
/// told to.
pub proof fn law_history_shows_its_events(
    events: Vec<TagEventInfo>,
    next: Option<HistoryCursor>,
    r: TagHistoryBody,
    i: int,
)
    requires
        call_ensures(tag_history_body, (events, next), r),
        0 <= i < events@.len(),
    ensures
        r.next == next,
        r.events@.len() == events@.len(),
        r.events@[i].at == events@[i].at,
        r.events@[i].tag == events@[i].tag,
        r.events@[i].digest@ == events@[i].digest@.text(),
        events@[i].deleted ==> r.events@[i].event@ == "deleted"@,
        !events@[i].deleted ==> r.events@[i].event@ == "created"@,
        r.events@[i].media_type == events@[i].media_type,
        r.events@[i].size == events@[i].size,
{
    assert(shows_event(r.events@[i], events@[i]));
}

// ---- pull counts -------------------------------------------------------------

/// The sum of some `u32`s.
pub open spec fn sum32(s: Seq<u32>) -> nat
    decreases s.len(),
{
    if s.len() == 0 {
        0
    } else {
        sum32(s.drop_last()) + s.last() as nat
    }
}

/// The sum of some `u64`s.
pub open spec fn sum64(s: Seq<u64>) -> nat
    decreases s.len(),
{
    if s.len() == 0 {
        0
    } else {
        sum64(s.drop_last()) + s.last() as nat
    }
}

proof fn lemma_sum32_bound(s: Seq<u32>)
    ensures
        sum32(s) <= s.len() * 0xffff_ffff,
    decreases s.len(),
{
    if s.len() > 0 {
        lemma_sum32_bound(s.drop_last());
    }
}

proof fn lemma_sum64_grows(s: Seq<u64>, k: int)
    requires
        0 <= k <= s.len(),
    ensures
        sum64(s.take(k)) <= sum64(s),
    decreases s.len() - k,
{
    if k < s.len() {
        lemma_sum64_grows(s, k + 1);
        assert(s.take(k + 1).drop_last() =~= s.take(k));
    } else {
        assert(s.take(k) =~= s);
    }
}

proof fn lemma_zero_sums()
    ensures
        sum32(Seq::new(24, |i: int| 0u32)) == 0,
        sum64(Seq::new(24, |i: int| 0u64)) == 0,
{
    lemma_zeros(24);
}

proof fn lemma_zeros(n: nat)
    ensures
        sum32(Seq::new(n, |i: int| 0u32)) == 0,
        sum64(Seq::new(n, |i: int| 0u64)) == 0,
    decreases n,
{
    if n > 0 {
        let m = (n - 1) as nat;
        lemma_zeros(m);
        assert(Seq::new(n, |i: int| 0u32).drop_last() =~= Seq::new(m, |i: int| 0u32));
        assert(Seq::new(n, |i: int| 0u64).drop_last() =~= Seq::new(m, |i: int| 0u64));
    }
}

/// The sum of a day's hours.
fn total32(hours: &Vec<u32>) -> (r: u64)
    requires
        hours@.len() == 24,
    ensures
        r == sum32(hours@),
        r <= 103_079_215_080,
{
    let mut total: u64 = 0;
    let mut i: usize = 0;
    while i < hours.len()
        invariant
            0 <= i <= hours@.len(),
            hours@.len() == 24,
            total == sum32(hours@.take(i as int)),
            total <= i * 0xffff_ffff,
        decreases hours@.len() - i,
    {
        proof {
            assert(hours@.take(i + 1).drop_last() =~= hours@.take(i as int));
        }
        total = total + hours[i] as u64;
        i = i + 1;
    }
    proof {
        assert(hours@.take(24) =~= hours@);
    }
    total
}

/// The sum of a day's hours, where it fits.
fn total64(hours: &Vec<u64>) -> (r: Option<u64>)
    ensures
        match r {
            Some(total) => total == sum64(hours@),
            None => sum64(hours@) > u64::MAX,
        },
{
    let mut total: u64 = 0;
    let mut i: usize = 0;
    while i < hours.len()
        invariant
            0 <= i <= hours@.len(),
            total == sum64(hours@.take(i as int)),
        decreases hours@.len() - i,
    {
        proof {
            assert(hours@.take(i + 1).drop_last() =~= hours@.take(i as int));
            lemma_sum64_grows(hours@, i + 1);
        }
        if hours[i] > u64::MAX - total {
            return None;
        }
        total = total + hours[i];
        i = i + 1;
    }
    proof {
        assert(hours@.take(hours@.len() as int) =~= hours@);
    }
    Some(total)
}

fn hours32(a: &[u32; 24]) -> (r: Vec<u32>)
    ensures
        r@ == a@,
{
    let mut r: Vec<u32> = Vec::new();
    let mut i: usize = 0;
    while i < 24
        invariant
            0 <= i <= 24,
            r@ == a@.take(i as int),
        decreases 24 - i,
    {
        r.push(a[i]);
        i = i + 1;
        assert(r@ =~= a@.take(i as int));
    }
    assert(a@.take(24) =~= a@);
    r
}

fn hours64(a: &[u64; 24]) -> (r: Vec<u64>)
    ensures
        r@ == a@,
{
    let mut r: Vec<u64> = Vec::new();
    let mut i: usize = 0;
    while i < 24
        invariant
            0 <= i <= 24,
            r@ == a@.take(i as int),
        decreases 24 - i,
    {
        r.push(a[i]);
        i = i + 1;
        assert(r@ =~= a@.take(i as int));
    }
    assert(a@.take(24) =~= a@);
    r
}

fn no_hours32() -> (r: Vec<u32>)
    ensures
        r@ == Seq::new(24, |i: int| 0u32),
{
    let mut r: Vec<u32> = Vec::new();
    let mut i: usize = 0;
    while i < 24
        invariant
            0 <= i <= 24,
            r@.len() == i,
            forall|j: int| 0 <= j < i ==> r@[j] == 0,
        decreases 24 - i,
    {
        r.push(0);
        i = i + 1;
    }
    assert(r@ =~= Seq::new(24, |i: int| 0u32));
    r
}

fn no_hours64() -> (r: Vec<u64>)
    ensures
        r@ == Seq::new(24, |i: int| 0u64),
{
    let mut r: Vec<u64> = Vec::new();
    let mut i: usize = 0;
    while i < 24
        invariant
            0 <= i <= 24,
            r@.len() == i,
            forall|j: int| 0 <= j < i ==> r@[j] == 0,
        decreases 24 - i,
    {
        r.push(0);
        i = i + 1;
    }
    assert(r@ =~= Seq::new(24, |i: int| 0u64));
    r
}

/// The day broken down by hour, UTC.
///
/// The day bucket is fixed at write time and must never be re-bucketed, but
/// hours can be re-summed into any zone.
#[derive(Debug)]
pub struct PullCountHoursBody {
    pub manifest_pulls: Vec<u32>,
    pub blob_pulls: Vec<u32>,
    pub bytes_out: Vec<u64>,
}

/// One day of counters, zero-filled.
///
/// Every day in the window is present whether or not it saw traffic, because
/// the client is a grid and a gap in a grid is a missing cell rather than a
/// zero one.
#[derive(Debug)]
pub struct PullCountDayBody {
    /// Days since the Unix epoch, UTC.
    pub day: u16,
    /// The same day as `YYYY-MM-DD`.
    pub date: String,
    /// `0` is Sunday.
    pub weekday: u8,
    pub manifest_pulls: u64,
    pub blob_pulls: u64,
    pub bytes_out: u64,
    pub hours: PullCountHoursBody,
}

/// The window's sums.
#[derive(Debug, Clone, Copy, PartialEq, Eq, Structural)]
pub struct PullCountTotalsBody {
    pub manifest_pulls: u64,
    pub blob_pulls: u64,
    pub bytes_out: u64,
}

/// A window of pull counts.
#[derive(Debug)]
pub struct PullCountsBody {
    pub repository: String,
    /// Absent for the repository scope.
    pub reference: Option<String>,
    /// `repository`, `tag` or `manifest`.
    pub scope: &'static str,
    /// **Always `true`.** Increments are held in memory between flushes: this is
    /// a popularity signal and not billing data.
    pub approximate: bool,
    /// The window, inclusive at both ends.
    pub from: String,
    pub to: String,
    pub totals: PullCountTotalsBody,
    pub days: Vec<PullCountDayBody>,
}

/// The day `offset` days after `from`, no later than the last bucket.
pub open spec fn day_at(from: int, offset: int) -> int {
    if from + offset <= 65_535 {
        from + offset
    } else {
        65_535
    }
}

/// How many stored days the first `offset` rows show: a stored day is shown as
/// soon as its row comes.
pub open spec fn shown(series: Seq<PullCountDay>, from: int, offset: int) -> int
    decreases offset,
{
    if offset <= 0 {
        0
    } else {
        let before = shown(series, from, offset - 1);
        if before < series.len() && series[before].day == day_at(from, offset - 1) {
            before + 1
        } else {
            before
        }
    }
}

/// The stored counters of row `offset`, if it has any.
pub open spec fn bucket_at(series: Seq<PullCountDay>, from: int, offset: int) -> Option<
    CounterBucket,
> {
    let at = shown(series, from, offset);
    if at < series.len() && series[at].day == day_at(from, offset) {
        Some(series[at].bucket)
    } else {
        None
    }
}

/// A day's manifest pulls by hour: zeros where nothing is stored.
pub open spec fn manifest_hours(bucket: Option<CounterBucket>) -> Seq<u32> {
    match bucket {
        Some(b) => b.manifest_pulls@,
        None => Seq::new(24, |i: int| 0u32),
    }
}

/// A day's blob pulls by hour: zeros where nothing is stored.
pub open spec fn blob_hours(bucket: Option<CounterBucket>) -> Seq<u32> {
    match bucket {
        Some(b) => b.blob_pulls@,
        None => Seq::new(24, |i: int| 0u32),
    }
}

/// A day's bytes by hour: zeros where nothing is stored.
pub open spec fn byte_hours(bucket: Option<CounterBucket>) -> Seq<u64> {
    match bucket {
        Some(b) => b.bytes_out@,
        None => Seq::new(24, |i: int| 0u64),
    }
}

/// `row` shows the counters of `day`, its sums those of its hours.
pub open spec fn shows_day(row: PullCountDayBody, day: int, bucket: Option<CounterBucket>) -> bool {
    &&& row.day == day
    &&& calendar::names_day(row.date@, day)
    &&& row.weekday == calendar::weekday_of(day)
    &&& row.hours.manifest_pulls@ == manifest_hours(bucket)
    &&& row.hours.blob_pulls@ == blob_hours(bucket)
    &&& row.hours.bytes_out@ == byte_hours(bucket)
    &&& row.manifest_pulls == sum32(manifest_hours(bucket))
    &&& row.blob_pulls == sum32(blob_hours(bucket))
    &&& row.bytes_out == sum64(byte_hours(bucket))
}

/// The sums of some rows.
pub open spec fn row_sums(rows: Seq<PullCountDayBody>) -> (nat, nat, nat)
    decreases rows.len(),
{
    if rows.len() == 0 {
        (0, 0, 0)
    } else {
        let before = row_sums(rows.drop_last());
        let row = rows.last();
        (
            before.0 + row.manifest_pulls as nat,
            before.1 + row.blob_pulls as nat,
            before.2 + row.bytes_out as nat,
        )
    }
}

/// The bytes of all stored days.
pub open spec fn stored_bytes(series: Seq<PullCountDay>) -> nat
    decreases series.len(),
{
    if series.len() == 0 {
        0
    } else {
        stored_bytes(series.drop_last()) + sum64(series.last().bucket.bytes_out@)
    }
}

proof fn lemma_stored_grows(series: Seq<PullCountDay>, k: int)
    requires
        0 <= k <= series.len(),
    ensures
        stored_bytes(series.take(k)) <= stored_bytes(series),
    decreases series.len() - k,
{
    if k < series.len() {
        lemma_stored_grows(series, k + 1);
        assert(series.take(k + 1).drop_last() =~= series.take(k));
    } else {
        assert(series.take(k) =~= series);
    }
}

/// The bytes of the stored days that a window shows.
pub open spec fn shown_bytes(series: Seq<PullCountDay>, from: int, days: int) -> nat {
    stored_bytes(series.take(shown(series, from, days)))
}

proof fn lemma_shown_grows(series: Seq<PullCountDay>, from: int, a: int, b: int)
    requires
        0 <= a <= b,
    ensures
        0 <= shown(series, from, a) <= shown(series, from, b) <= series.len(),
    decreases b,
{
    if a < b {
        lemma_shown_grows(series, from, a, b - 1);
    } else if a > 0 {
        lemma_shown_grows(series, from, a - 1, a - 1);
    }
}

/// The first `k` of the stored days that a window shows have no more bytes than
/// all of them.
proof fn lemma_shown_bytes(series: Seq<PullCountDay>, from: int, days: int, k: int)
    requires
        0 <= days,
        0 <= k <= shown(series, from, days),
    ensures
        stored_bytes(series.take(k)) <= shown_bytes(series, from, days),
{
    lemma_shown_grows(series, from, days, days);
    let all = series.take(shown(series, from, days));
    lemma_stored_grows(all, k);
    assert(all.take(k) =~= series.take(k));
}

/// The day `offset` days after `from`, no later than the last bucket.
fn window_day(from: u16, offset: u16) -> (r: u16)
    ensures
        r == day_at(from as int, offset as int),
{
    if offset <= 65_535 - from {
        from + offset
    } else {
        65_535
    }
}

/// How many stored days a window shows.
fn shown_days(series: &Vec<PullCountDay>, from: u16, days: u16) -> (r: usize)
    ensures
        r == shown(series@, from as int, days as int),
        r <= series@.len(),
{
    let mut at: usize = 0;
    let mut offset: u16 = 0;
    while offset < days
        invariant
            0 <= offset <= days,
            0 <= at <= series@.len(),
            at == shown(series@, from as int, offset as int),
        decreases days - offset,
    {
        if at < series.len() && series[at].day == window_day(from, offset) {
            at = at + 1;
        }
        offset = offset + 1;
    }
    at
}

/// Whether the bytes of the days that a window shows can be summed.
pub fn bytes_fit(series: &Vec<PullCountDay>, from: u16, days: u16) -> (r: bool)
    ensures
        r == (shown_bytes(series@, from as int, days as int) <= u64::MAX),
{
    let shown_here: usize = shown_days(series, from, days);
    let mut total: u64 = 0;
    let mut i: usize = 0;
    while i < shown_here
        invariant
            0 <= i <= shown_here <= series@.len(),
            shown_here == shown(series@, from as int, days as int),
            total == stored_bytes(series@.take(i as int)),
        decreases shown_here - i,
    {
        proof {
            assert(series@.take(i + 1).drop_last() =~= series@.take(i as int));
            assert(series@.take(i + 1).last() == series@[i as int]);
            lemma_shown_bytes(series@, from as int, days as int, i + 1);
        }
        match total64(&hours64(&series[i].bucket.bytes_out)) {
            Some(day) => {
                if day > u64::MAX - total {
                    return false;
                }
                total = total + day;
            },
            None => return false,
        }
        i = i + 1;
    }
    true
}

fn day_row(day: u16, bucket: Option<&CounterBucket>) -> (r: PullCountDayBody)
    requires
        bucket matches Some(b) ==> sum64(b.bytes_out@) <= u64::MAX,
    ensures
        shows_day(
            r,
            day as int,
            match bucket {
                Some(b) => Some(*b),
                None => None,
            },
        ),
        r.manifest_pulls <= 103_079_215_080,
        r.blob_pulls <= 103_079_215_080,
{
    let (manifest_pulls, blob_pulls, bytes_out): (Vec<u32>, Vec<u32>, Vec<u64>) = match bucket {
        Some(b) => (hours32(&b.manifest_pulls), hours32(&b.blob_pulls), hours64(&b.bytes_out)),
        None => (no_hours32(), no_hours32(), no_hours64()),
    };
    proof {
        lemma_zero_sums();
    }
    let bytes: u64 = match total64(&bytes_out) {
        Some(total) => total,
        None => 0,
    };
    PullCountDayBody {
        day,
        date: calendar::iso_date(day),
        weekday: calendar::weekday(day),
        manifest_pulls: total32(&manifest_pulls),
        blob_pulls: total32(&blob_pulls),
        bytes_out: bytes,
        hours: PullCountHoursBody { manifest_pulls, blob_pulls, bytes_out },
    }
}

/// A window of pull counts, every day of it a row.
///
/// The store returns only days with traffic, in order, so filling the window is
/// a merge: walk the window and take the next stored day whenever it matches.
pub fn pull_counts_body(
    name: &str,
    reference: Option<String>,
    scope: &PullCountScope,
    from: u16,
    days: u16,
    series: &Vec<PullCountDay>,
) -> (r: PullCountsBody)
    requires
        shown_bytes(series@, from as int, days as int) <= u64::MAX,
    ensures
        r.repository@ == name@,
        r.reference == reference,
        r.scope@ == scope.spec_label(),
        r.approximate,
        calendar::names_day(r.from@, from as int),
        calendar::names_day(
            r.to@,
            day_at(
                from as int,
                if days > 0 {
                    days - 1
                } else {
                    0
                },
            ),
        ),
        r.days@.len() == days,
        forall|k: int|
            0 <= k < days ==> shows_day(
                #[trigger] r.days@[k],
                day_at(from as int, k),
                bucket_at(series@, from as int, k),
            ),
        (r.totals.manifest_pulls as nat, r.totals.blob_pulls as nat, r.totals.bytes_out as nat)
            == row_sums(r.days@),
{
    let mut rows: Vec<PullCountDayBody> = Vec::new();
    let mut totals = PullCountTotalsBody { manifest_pulls: 0, blob_pulls: 0, bytes_out: 0 };
    let mut at: usize = 0;
    let mut offset: u16 = 0;
    proof {
        assert(series@.take(0) =~= Seq::empty());
    }
    while offset < days
        invariant
            0 <= offset <= days,
            shown_bytes(series@, from as int, days as int) <= u64::MAX,
            rows@.len() == offset,
            0 <= at <= series@.len(),
            at == shown(series@, from as int, offset as int),
            forall|k: int|
                0 <= k < offset ==> shows_day(
                    #[trigger] rows@[k],
                    day_at(from as int, k),
                    bucket_at(series@, from as int, k),
                ),
            (totals.manifest_pulls as nat, totals.blob_pulls as nat, totals.bytes_out as nat)
                == row_sums(rows@),
            totals.manifest_pulls <= offset * 103_079_215_080,
            totals.blob_pulls <= offset * 103_079_215_080,
            totals.bytes_out == stored_bytes(series@.take(at as int)),
        decreases days - offset,
    {
        let day: u16 = window_day(from, offset);
        let matched = at < series.len() && series[at].day == day;
        let ghost before = rows@;
        proof {
            lemma_zero_sums();
            if matched {
                assert(shown(series@, from as int, offset + 1) == at + 1);
                lemma_shown_grows(series@, from as int, offset + 1, days as int);
                lemma_shown_bytes(series@, from as int, days as int, at + 1);
                assert(series@.take(at + 1).drop_last() =~= series@.take(at as int));
                assert(series@.take(at + 1).last() == series@[at as int]);
            }
        }
        let row = if matched {
            day_row(day, Some(&series[at].bucket))
        } else {
            day_row(day, None)
        };
        if matched {
            at = at + 1;
        }
        totals = PullCountTotalsBody {
            manifest_pulls: totals.manifest_pulls + row.manifest_pulls,
            blob_pulls: totals.blob_pulls + row.blob_pulls,
            bytes_out: totals.bytes_out + row.bytes_out,
        };
        rows.push(row);
        proof {
            assert(rows@.drop_last() =~= before);
            assert(rows@.last() == row);
        }
        offset = offset + 1;
    }
    let last: u16 = if days > 0 {
        days - 1
    } else {
        0
    };
    let to: u16 = window_day(from, last);
    PullCountsBody {
        repository: text::copy(name),
        reference,
        scope: scope.label(),
        approximate: true,
        from: calendar::iso_date(from),
        to: calendar::iso_date(to),
        totals,
        days: rows,
    }
}

/// The stored days are in order, each once.
pub open spec fn in_order(series: Seq<PullCountDay>) -> bool {
    forall|i: int, j: int| 0 <= i < j < series.len() ==> (#[trigger] series[i]).day < (
    #[trigger] series[j]).day
}

proof fn lemma_shown_counts(series: Seq<PullCountDay>, from: int, offset: int)
    requires
        in_order(series),
        forall|i: int| 0 <= i < series.len() ==> from <= (#[trigger] series[i]).day,
        0 <= offset,
        0 <= from,
        from + offset <= 65_536,
    ensures
        0 <= shown(series, from, offset) <= series.len(),
        forall|i: int|
            0 <= i < shown(series, from, offset) ==> (#[trigger] series[i]).day < from + offset,
        forall|i: int|
            shown(series, from, offset) <= i < series.len() ==> (#[trigger] series[i]).day >= from
                + offset,
    decreases offset,
{
    if offset > 0 {
        lemma_shown_counts(series, from, offset - 1);
        let before = shown(series, from, offset - 1);
        assert(day_at(from, offset - 1) == from + offset - 1);
        assert forall|i: int|
            shown(series, from, offset) <= i < series.len() implies (#[trigger] series[i]).day
            >= from + offset by {
            if before < series.len() && before < i {
                assert(series[before].day < series[i].day);
            }
        }
    }
}

/// Of stored days that are in order, every one in the window stands in its own
/// row and every other row is zero: no count is lost, moved or doubled.
pub proof fn law_every_stored_day_is_shown(
    series: Seq<PullCountDay>,
    from: int,
    days: int,
    offset: int,
)
    requires
        in_order(series),
        forall|i: int| 0 <= i < series.len() ==> from <= (#[trigger] series[i]).day < from + days,
        0 <= from,
        from + days <= 65_536,
        0 <= offset < days,
    ensures
        forall|i: int|
            0 <= i < series.len() && (#[trigger] series[i]).day == from + offset ==> bucket_at(
                series,
                from,
                offset,
            ) == Some(series[i].bucket),
        (forall|i: int| 0 <= i < series.len() ==> (#[trigger] series[i]).day != from + offset)
            ==> bucket_at(series, from, offset) is None,
{
    lemma_shown_counts(series, from, offset);
    let at = shown(series, from, offset);
    assert forall|i: int|
        0 <= i < series.len() && (#[trigger] series[i]).day == from + offset implies bucket_at(
        series,
        from,
        offset,
    ) == Some(series[i].bucket) by {
        assert(at <= i);
        if at < i {
            assert(series[at].day < series[i].day);
        }
    }
}

/// Sums add up: of two stretches together they are those of the one and the other,
/// and of one hour or one row they are its own.
pub proof fn law_sums_add_up(
    a: Seq<u32>,
    b: Seq<u32>,
    c: Seq<u64>,
    d: Seq<u64>,
    rows: Seq<PullCountDayBody>,
    more: Seq<PullCountDayBody>,
)
    ensures
        sum32(a + b) == sum32(a) + sum32(b),
        sum64(c + d) == sum64(c) + sum64(d),
        row_sums(rows + more) == (
            row_sums(rows).0 + row_sums(more).0,
            row_sums(rows).1 + row_sums(more).1,
            row_sums(rows).2 + row_sums(more).2,
        ),
        a.len() == 0 ==> sum32(a) == 0,
        c.len() == 0 ==> sum64(c) == 0,
        a.len() == 1 ==> sum32(a) == a[0],
        c.len() == 1 ==> sum64(c) == c[0],
        rows.len() == 0 ==> row_sums(rows) == (0nat, 0nat, 0nat),
        rows.len() == 1 ==> row_sums(rows) == (
            rows[0].manifest_pulls as nat,
            rows[0].blob_pulls as nat,
            rows[0].bytes_out as nat,
        ),
    decreases b.len() + d.len() + more.len(),
{
    reveal_with_fuel(sum32, 2);
    reveal_with_fuel(sum64, 2);
    reveal_with_fuel(row_sums, 2);
    if b.len() > 0 {
        law_sums_add_up(a, b.drop_last(), c, d, rows, more);
        assert((a + b).drop_last() =~= a + b.drop_last());
        assert((a + b).last() == b.last());
    } else if d.len() > 0 {
        law_sums_add_up(a, b, c, d.drop_last(), rows, more);
        assert((c + d).drop_last() =~= c + d.drop_last());
        assert((c + d).last() == d.last());
    } else if more.len() > 0 {
        law_sums_add_up(a, b, c, d, rows, more.drop_last());
        assert((rows + more).drop_last() =~= rows + more.drop_last());
        assert((rows + more).last() == more.last());
    } else {
        assert(a + b =~= a);
        assert(c + d =~= c);
        assert(rows + more =~= rows);
    }
}

/// A window shows each of its days once and in order, under its own number and
/// date, hour by hour as it was stored or as zeros where nothing was, with the sum
/// of its hours; and it names the repository, the reference and the days that were
/// asked for.
#[verifier::spinoff_prover]
pub proof fn law_window_shows_its_days(
    name: &str,
    reference: Option<String>,
    scope: PullCountScope,
    from: u16,
    days: u16,
    series: Vec<PullCountDay>,
    r: PullCountsBody,
    k: int,
)
    requires
        call_ensures(pull_counts_body, (name, reference, &scope, from, days, &series), r),
        in_order(series@),
        forall|i: int|
            0 <= i < series@.len() ==> from <= (#[trigger] series@[i]).day < from + days,
        from + days <= 65_536,
        0 <= k < days,
    ensures
        r.repository@ == name@,
        r.reference == reference,
        r.approximate,
        scope is Repository ==> r.scope@ == "repository"@,
        scope is Tag ==> r.scope@ == "tag"@,
        scope is Manifest ==> r.scope@ == "manifest"@,
        calendar::names_day(r.from@, from as int),
        calendar::names_day(r.to@, from + days - 1),
        r.days@.len() == days,
        r.days@[k].day == from + k,
        calendar::names_day(r.days@[k].date@, from + k),
        r.days@[k].weekday == (from + k + 4) % 7,
        forall|i: int|
            0 <= i < series@.len() && (#[trigger] series@[i]).day == from + k ==> {
                &&& r.days@[k].hours.manifest_pulls@ == series@[i].bucket.manifest_pulls@
                &&& r.days@[k].hours.blob_pulls@ == series@[i].bucket.blob_pulls@
                &&& r.days@[k].hours.bytes_out@ == series@[i].bucket.bytes_out@
            },
        (forall|i: int| 0 <= i < series@.len() ==> (#[trigger] series@[i]).day != from + k) ==> {
            &&& r.days@[k].manifest_pulls == 0
            &&& r.days@[k].blob_pulls == 0
            &&& r.days@[k].bytes_out == 0
            &&& r.days@[k].hours.manifest_pulls@.len() == 24
            &&& r.days@[k].hours.blob_pulls@.len() == 24
            &&& r.days@[k].hours.bytes_out@.len() == 24
            &&& forall|h: int|
                0 <= h < 24 ==> #[trigger] r.days@[k].hours.manifest_pulls@[h] == 0
            &&& forall|h: int| 0 <= h < 24 ==> #[trigger] r.days@[k].hours.blob_pulls@[h] == 0
            &&& forall|h: int| 0 <= h < 24 ==> #[trigger] r.days@[k].hours.bytes_out@[h] == 0
        },
        r.days@[k].manifest_pulls == sum32(r.days@[k].hours.manifest_pulls@),
        r.days@[k].blob_pulls == sum32(r.days@[k].hours.blob_pulls@),
        r.days@[k].bytes_out == sum64(r.days@[k].hours.bytes_out@),
        r.totals.manifest_pulls == row_sums(r.days@).0,
        r.totals.blob_pulls == row_sums(r.days@).1,
        r.totals.bytes_out == row_sums(r.days@).2,
{
    assert(shows_day(r.days@[k], day_at(from as int, k), bucket_at(series@, from as int, k)));
    law_every_stored_day_is_shown(series@, from as int, days as int, k);
    lemma_zero_sums();
    let sums = row_sums(r.days@);
    assert((r.totals.manifest_pulls as nat, r.totals.blob_pulls as nat, r.totals.bytes_out as nat)
        == sums);
}

} // verus!
