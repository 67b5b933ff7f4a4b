//! Bounded counts.
//!
//! There is no stored total, because keeping one would be a read-modify-write on
//! the push path, and no count runs to the end of ten million keys while a
//! client waits. A count walks in steps until the keys end or the ceiling is
//! reached, and says which.

use vstd::prelude::*;

use crate::backend;
use crate::backend::RegistryError;
use crate::seam;
use crate::seam::{OpsError, RepoDetail, Tally};

verus! {

/// How many keys one step of a bounded count reads.
///
/// A count runs to the ceiling in steps of this rather than asking for the
/// ceiling at once: the engine materialises the keys of a page, and a step is
/// one seek and a sequential walk.
pub const COUNT_STEP: usize = 500;

/// A count that has not reached its end.
#[derive(Debug)]
pub struct Count {
    counted: u64,
}

/// What follows a step.
#[derive(Debug)]
pub enum Counted<C> {
    /// The count is over.
    Done(Tally),
    /// Read the next step from here.
    More { count: Count, cursor: C },
}

impl Count {
    /// What has been counted so far.
    pub closed spec fn counted(&self) -> nat {
        self.counted as nat
    }

    /// A count that goes on is below the ceiling.
    pub open spec fn wf(&self) -> bool {
        self.counted() < seam::COUNT_CEILING
    }

    /// Nothing counted yet.
    pub fn start() -> (r: Count)
        ensures
            r.wf(),
            r.counted() == 0,
    {
        Count { counted: 0 }
    }

    /// Whether a step of `added` keys can be added.
    pub fn takes(&self, added: u64) -> (r: bool)
        ensures
            r == (self.counted() + added <= u64::MAX),
    {
        added <= u64::MAX - self.counted
    }

    /// Take one step's result: how many keys it read, and where the next step
    /// starts if there is one.
    ///
    /// The ceiling is checked *after* adding a page rather than before requesting
    /// one, so a repository with exactly the ceiling's worth of keys reports a
    /// complete count instead of a floor that happens to be right.
    pub fn add<C>(self, added: u64, next: Option<C>) -> (r: Counted<C>)
        requires
            self.wf(),
            self.counted() + added <= u64::MAX,
        ensures
            match next {
                None => r == Counted::<C>::Done(
                    Tally { count: (self.counted() + added) as u64, complete: true },
                ),
                Some(cursor) => if self.counted() + added >= seam::COUNT_CEILING {
                    r == Counted::<C>::Done(
                        Tally { count: (self.counted() + added) as u64, complete: false },
                    )
                } else {
                    &&& r matches Counted::More { count, cursor: at }
                    &&& count.wf()
                    &&& count.counted() == self.counted() + added
                    &&& at == cursor
                },
            },
    {
        let counted: u64 = self.counted + added;
        match next {
            None => Counted::Done(Tally::exact(counted)),
            Some(cursor) => {
                if counted >= seam::COUNT_CEILING {
                    Counted::Done(Tally { count: counted, complete: false })
                } else {
                    Counted::More { count: Count { counted }, cursor }
                }
            },
        }
    }
}

/// The verdict of a count that has reached `counted` and then reads `pages`:
/// for each, how many keys it held and whether there were more behind it.
pub open spec fn tally(counted: nat, pages: Seq<(u64, bool)>) -> Option<(nat, bool)>
    decreases pages.len(),
{
    if pages.len() == 0 {
        None
    } else {
        let reached = counted + pages[0].0 as nat;
        if !pages[0].1 {
            Some((reached, true))
        } else if reached >= seam::COUNT_CEILING {
            Some((reached, false))
        } else {
            tally(reached, pages.drop_first())
        }
    }
}

/// The keys of some pages.
pub open spec fn keys_in(pages: Seq<(u64, bool)>) -> nat
    decreases pages.len(),
{
    if pages.len() == 0 {
        0
    } else {
        pages[0].0 as nat + keys_in(pages.drop_first())
    }
}

/// A count that has reached `counted` and then reads `pages` stays a `u64`, up to
/// the page that ends it.
pub open spec fn addable(counted: nat, pages: Seq<(u64, bool)>) -> bool
    decreases pages.len(),
{
    pages.len() > 0 ==> {
        let reached = counted + pages[0].0 as nat;
        &&& reached <= u64::MAX
        &&& pages[0].1 && reached < seam::COUNT_CEILING ==> addable(reached, pages.drop_first())
    }
}

/// Count the keys of `pages`, or nothing where they end before the count does.
pub fn count_to_ceiling(pages: &Vec<(u64, bool)>) -> (r: Option<Tally>)
    requires
        addable(0, pages@),
    ensures
        match r {
            Some(t) => tally(0, pages@) == Some((t.count as nat, t.complete)),
            None => tally(0, pages@) is None,
        },
{
    let mut count = Count::start();
    let mut i: usize = 0;
    proof {
        assert(pages@.skip(0) =~= pages@);
    }
    while i < pages.len()
        invariant
            0 <= i <= pages@.len(),
            count.wf(),
            addable(count.counted(), pages@.skip(i as int)),
            tally(0, pages@) == tally(count.counted(), pages@.skip(i as int)),
        decreases pages@.len() - i,
    {
        let (added, more): (u64, bool) = pages[i];
        let next: Option<usize> = if more {
            Some(i + 1)
        } else {
            None
        };
        proof {
            assert(pages@.skip(i as int)[0] == pages@[i as int]);
            assert(pages@.skip(i as int).drop_first() =~= pages@.skip(i + 1));
        }
        match count.add(added, next) {
            Counted::Done(t) => return Some(t),
            Counted::More { count: onward, cursor } => {
                count = onward;
                i = cursor;
            },
        }
    }
    None
}

/// A complete count is the number of keys there are: it read every page, up to
/// the one with nothing behind it.
pub proof fn law_complete_count_is_exact(counted: nat, pages: Seq<(u64, bool)>)
    requires
        tally(counted, pages) matches Some((_, complete)) && complete,
    ensures
        exists|n: int|
            0 < n <= pages.len() && !pages[n - 1].1 && tally(counted, pages) == Some(
                (counted + keys_in(#[trigger] pages.take(n)), true),
            ),
    decreases pages.len(),
{
    let reached = counted + pages[0].0 as nat;
    if !pages[0].1 {
        let one = pages.take(1);
        assert(one.drop_first() =~= Seq::empty());
        assert(keys_in(one) == pages[0].0 as nat + keys_in(one.drop_first()));
        assert(0 < 1 <= pages.len() && !pages[1 - 1].1);
    } else {
        let rest = pages.drop_first();
        law_complete_count_is_exact(reached, rest);
        let n = choose|n: int|
            0 < n <= rest.len() && !rest[n - 1].1 && tally(reached, rest) == Some(
                (reached + keys_in(#[trigger] rest.take(n)), true),
            );
        let longer = pages.take(n + 1);
        assert(longer.drop_first() =~= rest.take(n));
        assert(keys_in(longer) == pages[0].0 as nat + keys_in(rest.take(n)));
        assert(pages[n] == rest[n - 1]);
    }
}

/// A count that is a floor has reached the ceiling.
pub proof fn law_floor_reaches_the_ceiling(counted: nat, pages: Seq<(u64, bool)>)
    requires
        tally(counted, pages) matches Some((_, complete)) && !complete,
    ensures
        (tally(counted, pages)->0).0 >= seam::COUNT_CEILING,
    decreases pages.len(),
{
    let reached = counted + pages[0].0 as nat;
    if pages[0].1 && reached < seam::COUNT_CEILING {
        law_floor_reaches_the_ceiling(reached, pages.drop_first());
    }
}

/// A count whose keys end below the ceiling, or exactly on it, is complete.
pub proof fn law_count_up_to_the_ceiling_is_complete(counted: nat, pages: Seq<(u64, bool)>)
    requires
        pages.len() > 0,
        !pages.last().1,
        forall|i: int| 0 <= i < pages.len() - 1 ==> (#[trigger] pages[i]).1,
        pages.last().0 > 0,
        counted + keys_in(pages) <= seam::COUNT_CEILING,
    ensures
        tally(counted, pages) == Some((counted + keys_in(pages), true)),
    decreases pages.len(),
{
    if pages.len() == 1 {
        assert(pages.drop_first() =~= Seq::empty());
        assert(keys_in(pages) == pages[0].0 as nat + keys_in(pages.drop_first()));
    } else {
        let rest = pages.drop_first();
        assert(pages[0].1);
        assert(rest.last() == pages.last());
        assert forall|i: int| 0 <= i < rest.len() - 1 implies (#[trigger] rest[i]).1 by {
            assert(pages[i + 1].1);
        }
        lemma_keys_at_least_last(rest);
        law_count_up_to_the_ceiling_is_complete(counted + pages[0].0 as nat, rest);
    }
}

/// A count that is a floor is the number of keys it read, there were more behind
/// them, and every page before the last left it below the ceiling.
pub proof fn law_floor_is_what_was_read(counted: nat, pages: Seq<(u64, bool)>)
    requires
        counted < 10_000,
        tally(counted, pages) matches Some((_, complete)) && !complete,
    ensures
        exists|n: int|
            0 < n <= pages.len() && pages[n - 1].1 && tally(counted, pages) == Some(
                (counted + keys_in(#[trigger] pages.take(n)), false),
            ) && counted + keys_in(pages.take(n)) - pages[n - 1].0 < 10_000,
    decreases pages.len(),
{
    let reached = counted + pages[0].0 as nat;
    if reached >= 10_000 {
        let one = pages.take(1);
        assert(one.drop_first() =~= Seq::empty());
        assert(keys_in(one) == pages[0].0 as nat + keys_in(one.drop_first()));
        assert(0 < 1 <= pages.len() && pages[1 - 1].1);
    } else {
        let rest = pages.drop_first();
        law_floor_is_what_was_read(reached, rest);
        let n = choose|n: int|
            0 < n <= rest.len() && rest[n - 1].1 && tally(reached, rest) == Some(
                (reached + keys_in(#[trigger] rest.take(n)), false),
            ) && reached + keys_in(rest.take(n)) - rest[n - 1].0 < 10_000;
        let longer = pages.take(n + 1);
        assert(longer.drop_first() =~= rest.take(n));
        assert(keys_in(longer) == pages[0].0 as nat + keys_in(rest.take(n)));
        assert(pages[n] == rest[n - 1]);
    }
}

/// A count ends with the pages, whatever they hold, where the last has nothing
/// behind it.
pub proof fn law_count_ends_with_the_pages(counted: nat, pages: Seq<(u64, bool)>)
    requires
        pages.len() > 0,
        !pages.last().1,
    ensures
        tally(counted, pages) is Some,
    decreases pages.len(),
{
    if pages.len() > 1 {
        assert(pages.drop_first().last() == pages.last());
        law_count_ends_with_the_pages(counted + pages[0].0 as nat, pages.drop_first());
    }
}

proof fn lemma_keys_at_least_last(pages: Seq<(u64, bool)>)
    requires
        pages.len() > 0,
    ensures
        keys_in(pages) >= pages.last().0,
    decreases pages.len(),
{
    if pages.len() > 1 {
        lemma_keys_at_least_last(pages.drop_first());
        assert(pages.drop_first().last() == pages.last());
    }
}

// ---- usage -------------------------------------------------------------------

/// Blob count and byte total, folded to the same ceiling.
#[derive(Debug)]
pub struct Usage {
    pub count: Count,
    pub bytes: u64,
}

/// What follows a step of a usage count.
#[derive(Debug)]
pub enum Used<C> {
    /// The count is over.
    Done { blobs: Tally, bytes: u64 },
    /// Read the next step from here.
    More { usage: Usage, cursor: C },
}

impl Usage {
    /// Nothing counted yet.
    pub fn start() -> (r: Usage)
        ensures
            r.count.wf(),
            r.count.counted() == 0,
            r.bytes == 0,
    {
        Usage { count: Count::start(), bytes: 0 }
    }

    /// Take one step's result: how many blobs it read, their bytes, and where the
    /// next step starts if there is one. The bytes are those of the blobs
    /// counted, so a floor whenever the count is one.
    pub fn add<C>(self, blobs: u64, bytes: u64, next: Option<C>) -> (r: Used<C>)
        requires
            self.count.wf(),
            self.count.counted() + blobs <= u64::MAX,
        ensures
            ({
                let sum = backend::saturating(self.bytes as nat, bytes as nat);
                let reached = self.count.counted() + blobs;
                match next {
                    None => r == (Used::<C>::Done {
                        blobs: Tally { count: reached as u64, complete: true },
                        bytes: sum as u64,
                    }),
                    Some(cursor) => if reached >= seam::COUNT_CEILING {
                        r == (Used::<C>::Done {
                            blobs: Tally { count: reached as u64, complete: false },
                            bytes: sum as u64,
                        })
                    } else {
                        &&& r matches Used::More { usage, cursor: at }
                        &&& usage.count.wf()
                        &&& usage.count.counted() == reached
                        &&& usage.bytes == sum
                        &&& at == cursor
                    },
                }
            }),
    {
        let sum: u64 = if bytes <= u64::MAX - self.bytes {
            self.bytes + bytes
        } else {
            u64::MAX
        };
        match self.count.add(blobs, next) {
            Counted::Done(tally) => Used::Done { blobs: tally, bytes: sum },
            Counted::More { count, cursor } => Used::More {
                usage: Usage { count, bytes: sum },
                cursor,
            },
        }
    }
}

// ---- a repository's figures --------------------------------------------------

/// One step's answer: how many keys it read, their bytes where they are blobs,
/// and where the next step starts if there is one.
#[derive(Debug)]
pub struct Stepped<C> {
    pub keys: u64,
    pub bytes: u64,
    pub next: Option<C>,
}

/// Which count a repository's page is taking.
#[derive(Debug)]
pub enum Figures {
    Tags { count: Count },
    Manifests { tags: Tally, count: Count },
    Blobs { tags: Tally, manifests: Tally, usage: Usage },
}

impl Figures {
    /// The count under way is below the ceiling.
    pub open spec fn wf(&self) -> bool {
        match self {
            Figures::Tags { count } => count.wf(),
            Figures::Manifests { count, .. } => count.wf(),
            Figures::Blobs { usage, .. } => usage.count.wf(),
        }
    }

    /// What has been counted so far, by the count under way.
    pub open spec fn counted(&self) -> nat {
        match self {
            Figures::Tags { count } => count.counted(),
            Figures::Manifests { count, .. } => count.counted(),
            Figures::Blobs { usage, .. } => usage.count.counted(),
        }
    }

    /// Whether a step of `keys` keys can be added to the count under way.
    pub fn takes(&self, keys: u64) -> (r: bool)
        ensures
            r == (self.counted() + keys <= u64::MAX),
    {
        match self {
            Figures::Tags { count } => count.takes(keys),
            Figures::Manifests { count, .. } => count.takes(keys),
            Figures::Blobs { usage, .. } => usage.count.takes(keys),
        }
    }

    /// `self` goes on with the count that `before` was taking, after `keys` more
    /// keys of `bytes` bytes.
    pub open spec fn goes_on(&self, before: Figures, keys: u64, bytes: u64) -> bool {
        &&& self.wf()
        &&& self.counted() == before.counted() + keys
        &&& match (before, *self) {
            (Figures::Tags { .. }, Figures::Tags { .. }) => true,
            (Figures::Manifests { tags: a, .. }, Figures::Manifests { tags: b, .. }) => a == b,
            (
                Figures::Blobs { tags: a, manifests: m, usage: u },
                Figures::Blobs { tags: b, manifests: n, usage: v },
            ) => a == b && m == n && v.bytes == backend::saturating(u.bytes as nat, bytes as nat),
            _ => false,
        }
    }
}

/// What follows a step of a repository's page.
#[derive(Debug)]
pub enum Figured<C> {
    /// The step failed, and so does the page.
    Failed(OpsError),
    /// Read the next step from here, or the first step of the next count.
    More { figures: Figures, cursor: Option<C> },
    /// Every figure is known.
    Done(RepoDetail),
}

/// The verdict of a count that reaches `reached` with or without more behind it,
/// where it is over.
pub open spec fn ends(reached: nat, more: bool) -> Option<Tally> {
    if !more {
        Some(Tally { count: reached as u64, complete: true })
    } else if reached >= seam::COUNT_CEILING {
        Some(Tally { count: reached as u64, complete: false })
    } else {
        None
    }
}

/// A repository's page before any figure is known.
pub fn repository_detail() -> (r: Figures)
    ensures
        r.wf(),
        r is Tags,
        r.counted() == 0,
{
    Figures::Tags { count: Count::start() }
}

/// What follows a step of a repository's page: tags, then manifests, then blobs,
/// each to its own ceiling.
///
/// There is no check that the repository exists: every count resolves the name
/// and fails if it cannot, so the first one already says it.
pub fn repository_detail_next<C>(
    name: String,
    figures: Figures,
    step: Result<Stepped<C>, RegistryError>,
) -> (r: Figured<C>)
    requires
        figures.wf(),
        step matches Ok(s) ==> figures.counted() + s.keys <= u64::MAX,
    ensures
        match step {
            Err(e) => r matches Figured::Failed(f) && f@ == backend::metadata_failure(e),
            Ok(s) => match ends(figures.counted() + s.keys as nat, s.next is Some) {
                None => {
                    &&& r matches Figured::More { figures: onward, cursor }
                    &&& onward.goes_on(figures, s.keys, s.bytes)
                    &&& cursor == s.next
                },
                Some(tally) => match figures {
                    Figures::Tags { .. } => {
                        &&& r matches Figured::More { figures: onward, cursor }
                        &&& onward matches Figures::Manifests { tags, .. }
                        &&& tags == tally
                        &&& onward.wf()
                        &&& onward.counted() == 0
                        &&& cursor is None
                    },
                    Figures::Manifests { tags, .. } => {
                        &&& r matches Figured::More { figures: onward, cursor }
                        &&& onward matches Figures::Blobs { tags: kept, manifests, usage }
                        &&& kept == tags
                        &&& manifests == tally
                        &&& usage.bytes == 0
                        &&& onward.wf()
                        &&& onward.counted() == 0
                        &&& cursor is None
                    },
                    Figures::Blobs { tags, manifests, usage } => r == Figured::<C>::Done(
                        RepoDetail {
                            name,
                            tags,
                            manifests,
                            blobs: tally,
                            size_bytes: backend::saturating(
                                usage.bytes as nat,
                                s.bytes as nat,
                            ) as u64,
                        },
                    ),
                },
            },
        },
{
    let s = match step {
        Err(e) => return Figured::Failed(backend::ops_error(e)),
        Ok(s) => s,
    };
    match figures {
        Figures::Tags { count } => match count.add(s.keys, s.next) {
            Counted::More { count, cursor } => Figured::More {
                figures: Figures::Tags { count },
                cursor: Some(cursor),
            },
            Counted::Done(tags) => Figured::More {
                figures: Figures::Manifests { tags, count: Count::start() },
                cursor: None,
            },
        },
        Figures::Manifests { tags, count } => match count.add(s.keys, s.next) {
            Counted::More { count, cursor } => Figured::More {
                figures: Figures::Manifests { tags, count },
                cursor: Some(cursor),
            },
            Counted::Done(manifests) => Figured::More {
                figures: Figures::Blobs { tags, manifests, usage: Usage::start() },
                cursor: None,
            },
        },
        Figures::Blobs { tags, manifests, usage } => match usage.add(s.keys, s.bytes, s.next) {
            Used::More { usage, cursor } => Figured::More {
                figures: Figures::Blobs { tags, manifests, usage },
                cursor: Some(cursor),
            },
            Used::Done { blobs, bytes } => Figured::Done(
                RepoDetail { name, tags, manifests, blobs, size_bytes: bytes },
            ),
        },
    }
}

/// A count is over where nothing is left, and is then complete, and where it has
/// reached ten thousand with more behind it, and is then a floor; it says what was
/// reached.
pub proof fn law_a_count_ends_at_its_end_or_its_ceiling(reached: nat, more: bool)
    requires
        reached <= u64::MAX,
    ensures
        ends(reached, more) is None <==> more && reached < 10_000,
        ends(reached, more) matches Some(t) ==> t.count == reached && t.complete == !more,
{
}

/// A repository's figures are taken one after the other, and each that is known is
/// kept to the end: the page shows the name that was asked for, the tags and the
/// manifests as they were counted, and the blobs with the bytes of those counted.
#[verifier::spinoff_prover]
pub proof fn law_figures_are_kept_to_the_page<C>(
    name: String,
    figures: Figures,
    s: Stepped<C>,
    r: Figured<C>,
)
    requires
        figures.counted() + s.keys <= u64::MAX,
        call_ensures(repository_detail_next::<C>, (name, figures, Ok(s)), r),
    ensures
        !(r is Failed),
        ({
            let reached = figures.counted() + s.keys;
            let over = s.next is None || reached >= 10_000;
            let known = Tally { count: reached as u64, complete: s.next is None };
            &&& r is Done <==> figures is Blobs && over
            &&& !over ==> {
                &&& r->cursor == s.next
                &&& r->figures.counted() == reached
                &&& r->figures is Tags <==> figures is Tags
                &&& r->figures is Blobs <==> figures is Blobs
            }
            &&& over && figures is Tags ==> {
                &&& r->cursor is None
                &&& r->figures is Manifests
                &&& r->figures->Manifests_tags == known
                &&& r->figures.counted() == 0
            }
            &&& over && figures is Manifests ==> {
                &&& r->cursor is None
                &&& r->figures is Blobs
                &&& r->figures->Blobs_tags == figures->Manifests_tags
                &&& r->figures->manifests == known
                &&& r->figures->usage.bytes == 0
                &&& r->figures.counted() == 0
            }
            &&& r matches Figured::Done(page) ==> {
                &&& page.name == name
                &&& page.tags == figures->Blobs_tags
                &&& page.manifests == figures->manifests
                &&& page.blobs == known
                &&& figures->usage.bytes + s.bytes <= u64::MAX ==> page.size_bytes
                    == figures->usage.bytes + s.bytes
                &&& figures->usage.bytes + s.bytes > u64::MAX ==> page.size_bytes == u64::MAX
            }
        }),
{
}

/// A step that fails, fails the page, as the metadata did.
pub proof fn law_a_failed_figure_fails_the_page<C>(
    name: String,
    figures: Figures,
    e: RegistryError,
    r: Figured<C>,
)
    requires
        call_ensures(repository_detail_next::<C>, (name, figures, Err(e)), r),
    ensures
        r matches Figured::Failed(f) && f@ == backend::metadata_failure(e),
{
}

/// A repository's page begins with its tags, none of them counted.
pub proof fn law_figures_begin_with_the_tags(r: Figures)
    requires
        call_ensures(repository_detail, (), r),
    ensures
        r is Tags,
        r.counted() == 0,
        r.wf(),
{
}

} // verus!
