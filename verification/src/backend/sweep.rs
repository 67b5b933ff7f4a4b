//! What happens while no client waits: sweeping a deleted repository, and
//! folding pull counts into the store.

use vstd::prelude::*;

use crate::reference::Digest;
use crate::seam::OpsError;

verus! {

// ---- one dead repository -----------------------------------------------------

/// How often the sweeper looks for work it was not told about, in seconds.
///
/// A delete wakes the sweeper directly, so this is not what makes a delete
/// progress: it is what picks up a sweep that a crash interrupted.
pub const SWEEP_INTERVAL: u64 = 60;

/// Manifests whose reference edges one sweep step retracts.
pub const SWEEP_STEP: usize = 500;

/// Dead repositories one pass picks up at a time.
pub const SWEEP_BATCH: usize = 32;

/// The next step of sweeping one repository.
///
/// The edges go first and the records last, and must stay in that order: an
/// edge is only reachable through the manifest records that name its blob, so
/// dropping those first strands every one of them, and a stranded edge is a blob
/// that is never reclaimed.
#[derive(Debug)]
pub enum SweepStep {
    /// Retract the reference edges of the manifests from this cursor on. The
    /// cursor lives across steps rather than the scan restarting, which keeps
    /// the sweep linear.
    Retract { cursor: Option<Vec<u8>> },
    /// Drop everything under the repository's id.
    Drop,
    /// How many manifests were swept, or what went wrong.
    Done(Result<u64, String>),
}

/// The outcome of a step of sweeping one repository.
#[derive(Debug)]
pub enum SweepEvent {
    /// So many manifests' edges are gone, and where the next step starts.
    Retracted(Result<(u64, Option<Vec<u8>>), String>),
    Dropped(Result<(), String>),
}

/// A sweep under way.
#[derive(Debug)]
pub struct Sweep {
    pub manifests: u64,
    pub step: SweepStep,
}

/// Where a sweep goes from `sweep`, given the outcome of its step.
pub open spec fn sweep_after(sweep: Sweep, event: SweepEvent) -> Option<Sweep> {
    match (sweep.step, event) {
        (SweepStep::Retract { .. }, SweepEvent::Retracted(Ok((n, next)))) => Some(
            Sweep {
                manifests: (sweep.manifests + n) as u64,
                step: match next {
                    Some(cursor) => SweepStep::Retract { cursor: Some(cursor) },
                    None => SweepStep::Drop,
                },
            },
        ),
        (SweepStep::Retract { .. }, SweepEvent::Retracted(Err(e))) => Some(
            Sweep { manifests: sweep.manifests, step: SweepStep::Done(Err(e)) },
        ),
        (SweepStep::Drop, SweepEvent::Dropped(Ok(()))) => Some(
            Sweep { manifests: sweep.manifests, step: SweepStep::Done(Ok(sweep.manifests)) },
        ),
        (SweepStep::Drop, SweepEvent::Dropped(Err(e))) => Some(
            Sweep { manifests: sweep.manifests, step: SweepStep::Done(Err(e)) },
        ),
        _ => None,
    }
}

/// The sweep of a repository, at its first step.
pub fn sweep_one() -> (r: Sweep)
    ensures
        r == (Sweep { manifests: 0, step: SweepStep::Retract { cursor: None } }),
{
    Sweep { manifests: 0, step: SweepStep::Retract { cursor: None } }
}

/// Where a sweep goes from `sweep`, given the outcome of its step.
pub fn sweep_next(sweep: Sweep, event: SweepEvent) -> (r: Option<Sweep>)
    requires
        event matches SweepEvent::Retracted(Ok((n, _))) ==> sweep.manifests + n <= u64::MAX,
    ensures
        r == sweep_after(sweep, event),
{
    match (sweep.step, event) {
        (SweepStep::Retract { .. }, SweepEvent::Retracted(Ok((n, next)))) => Some(
            Sweep {
                manifests: sweep.manifests + n,
                step: match next {
                    Some(cursor) => SweepStep::Retract { cursor: Some(cursor) },
                    None => SweepStep::Drop,
                },
            },
        ),
        (SweepStep::Retract { .. }, SweepEvent::Retracted(Err(e))) => Some(
            Sweep { manifests: sweep.manifests, step: SweepStep::Done(Err(e)) },
        ),
        (SweepStep::Drop, SweepEvent::Dropped(Ok(()))) => Some(
            Sweep { manifests: sweep.manifests, step: SweepStep::Done(Ok(sweep.manifests)) },
        ),
        (SweepStep::Drop, SweepEvent::Dropped(Err(e))) => Some(
            Sweep { manifests: sweep.manifests, step: SweepStep::Done(Err(e)) },
        ),
        _ => None,
    }
}

/// Where a sweep stands after `events`.
pub open spec fn sweep_run(events: Seq<SweepEvent>) -> Option<Sweep>
    decreases events.len(),
{
    if events.len() == 0 {
        Some(Sweep { manifests: 0, step: SweepStep::Retract { cursor: None } })
    } else {
        match sweep_run(events.drop_last()) {
            Some(sweep) => sweep_after(sweep, events.last()),
            None => None,
        }
    }
}

/// A step that retracted edges and left more of them.
pub open spec fn retracted_more(event: SweepEvent) -> bool {
    event matches SweepEvent::Retracted(Ok((_, Some(_))))
}

/// A step that retracted the last of the edges.
pub open spec fn retracted_last(event: SweepEvent) -> bool {
    event matches SweepEvent::Retracted(Ok((_, None)))
}

proof fn lemma_retracting(events: Seq<SweepEvent>)
    requires
        sweep_run(events) matches Some(sweep) && sweep.step is Retract,
    ensures
        forall|i: int| 0 <= i < events.len() ==> retracted_more(#[trigger] events[i]),
    decreases events.len(),
{
    if events.len() > 0 {
        let before = events.drop_last();
        lemma_retracting(before);
        assert forall|i: int| 0 <= i < events.len() implies retracted_more(#[trigger] events[i]) by {
            if i < before.len() {
                assert(before[i] == events[i]);
            } else {
                assert(events[i] == events.last());
            }
        }
    }
}

/// A repository's records are dropped only once every one of its edges has been
/// retracted: each step went on from where the one before it stopped, and the
/// last one left nothing.
pub proof fn law_edges_go_before_records(events: Seq<SweepEvent>)
    requires
        sweep_run(events) matches Some(sweep) && sweep.step is Drop,
    ensures
        events.len() > 0,
        retracted_last(events.last()),
        forall|i: int| 0 <= i < events.len() - 1 ==> retracted_more(#[trigger] events[i]),
{
    let before = events.drop_last();
    lemma_retracting(before);
    assert forall|i: int| 0 <= i < events.len() - 1 implies retracted_more(#[trigger] events[i]) by {
        assert(before[i] == events[i]);
    }
}

/// A sweep begins with no cursor and nothing counted.
pub proof fn law_sweep_begins_at_the_start(r: Sweep)
    requires
        call_ensures(sweep_one, (), r),
    ensures
        r.manifests == 0,
        r.step == (SweepStep::Retract { cursor: None }),
        sweep_run(Seq::empty()) == Some(r),
{
}

/// An outcome is followed by a step exactly where it is the outcome of the step
/// that was taken: a sweep never stands still on its way.
pub proof fn law_sweep_goes_on_from_its_own_outcome(sweep: Sweep, event: SweepEvent)
    ensures
        sweep_after(sweep, event) is Some <==> {
            ||| sweep.step is Retract && event is Retracted
            ||| sweep.step is Drop && event is Dropped
        },
{
}

/// A step that left edges is followed by one from exactly where it stopped, one
/// that left none by the drop, and the drop by the end; what has been swept is
/// added up on the way and is what the end reports.
pub proof fn law_sweep_goes_on_from_where_it_stopped(
    sweep: Sweep,
    n: u64,
    cursor: Vec<u8>,
    e: String,
)
    requires
        sweep.manifests + n <= u64::MAX,
    ensures
        sweep.step is Retract ==> {
            let more = sweep_after(sweep, SweepEvent::Retracted(Ok((n, Some(cursor)))));
            let last = sweep_after(sweep, SweepEvent::Retracted(Ok((n, None))));
            let failed = sweep_after(sweep, SweepEvent::Retracted(Err(e)));
            &&& more is Some && more->0.manifests == sweep.manifests + n
            &&& more->0.step == (SweepStep::Retract { cursor: Some(cursor) })
            &&& last is Some && last->0.manifests == sweep.manifests + n
            &&& last->0.step is Drop
            &&& failed is Some && failed->0.step == SweepStep::Done(Err(e))
        },
        sweep.step is Drop ==> {
            let dropped = sweep_after(sweep, SweepEvent::Dropped(Ok(())));
            let failed = sweep_after(sweep, SweepEvent::Dropped(Err(e)));
            &&& dropped is Some && dropped->0.step == SweepStep::Done(Ok(sweep.manifests))
            &&& failed is Some && failed->0.step == SweepStep::Done(Err(e))
        },
{
}

/// How many manifests `events` report swept.
pub open spec fn manifests_swept(events: Seq<SweepEvent>) -> nat
    decreases events.len(),
{
    if events.len() == 0 {
        0
    } else {
        manifests_swept(events.drop_last()) + (match events.last() {
            SweepEvent::Retracted(Ok((n, _))) => n as nat,
            _ => 0,
        })
    }
}

/// A sweep that ends well reports every manifest that its steps swept.
pub proof fn law_sweep_counts_every_manifest(events: Seq<SweepEvent>)
    requires
        manifests_swept(events) <= u64::MAX,
        sweep_run(events) is Some,
    ensures
        sweep_run(events)->0.manifests == manifests_swept(events),
        sweep_run(events)->0.step matches SweepStep::Done(Ok(n)) ==> n == manifests_swept(events),
    decreases events.len(),
{
    if events.len() > 0 {
        law_sweep_counts_every_manifest(events.drop_last());
    }
}

// ---- a pass over the dead ----------------------------------------------------

/// A repository whose name is gone and whose keys are not.
#[derive(Debug)]
pub struct DeadRepo {
    pub id: u64,
    pub name: String,
}

/// The next step of a pass.
#[derive(Debug)]
pub enum PassStep {
    /// Ask for the next dead repositories, from the start.
    Ask,
    /// Sweep the next of the repositories that the last answer named; so many of
    /// them are left.
    Sweep { left: usize },
    /// How many repositories were swept, or what went wrong.
    Done(Result<u64, String>),
}

/// The outcome of a step of a pass.
#[derive(Debug)]
pub enum PassEvent {
    /// So many repositories are dead, out of a batch at most.
    Dead(Result<usize, String>),
    /// A repository was swept, with so many manifests in it.
    Swept(Result<u64, String>),
}

/// A pass under way.
#[derive(Debug)]
pub struct Pass {
    pub swept: u64,
    pub step: PassStep,
}

/// Where a pass goes from `pass`, given the outcome of its step.
pub open spec fn pass_after(pass: Pass, event: PassEvent) -> Option<Pass> {
    match (pass.step, event) {
        (PassStep::Ask, PassEvent::Dead(Ok(n))) => Some(
            Pass {
                swept: pass.swept,
                step: if n == 0 {
                    PassStep::Done(Ok(pass.swept))
                } else {
                    PassStep::Sweep { left: n }
                },
            },
        ),
        (PassStep::Ask, PassEvent::Dead(Err(e))) => Some(
            Pass { swept: pass.swept, step: PassStep::Done(Err(e)) },
        ),
        (PassStep::Sweep { left }, PassEvent::Swept(Ok(_))) => Some(
            Pass {
                swept: (pass.swept + 1) as u64,
                step: if left <= 1 {
                    PassStep::Ask
                } else {
                    PassStep::Sweep { left: (left - 1) as usize }
                },
            },
        ),
        (PassStep::Sweep { .. }, PassEvent::Swept(Err(e))) => Some(
            Pass { swept: pass.swept, step: PassStep::Done(Err(e)) },
        ),
        _ => None,
    }
}

/// A pass over every outstanding dead repository, at its first step.
pub fn sweep_dead_repos() -> (r: Pass)
    ensures
        r == (Pass { swept: 0, step: PassStep::Ask }),
{
    Pass { swept: 0, step: PassStep::Ask }
}

/// Where a pass goes from `pass`, given the outcome of its step.
pub fn sweep_dead_repos_next(pass: Pass, event: PassEvent) -> (r: Option<Pass>)
    requires
        event matches PassEvent::Swept(Ok(_)) ==> pass.swept < u64::MAX,
    ensures
        r == pass_after(pass, event),
{
    match (pass.step, event) {
        (PassStep::Ask, PassEvent::Dead(Ok(n))) => Some(
            Pass {
                swept: pass.swept,
                step: if n == 0 {
                    PassStep::Done(Ok(pass.swept))
                } else {
                    PassStep::Sweep { left: n }
                },
            },
        ),
        (PassStep::Ask, PassEvent::Dead(Err(e))) => Some(
            Pass { swept: pass.swept, step: PassStep::Done(Err(e)) },
        ),
        (PassStep::Sweep { left }, PassEvent::Swept(Ok(_))) => Some(
            Pass {
                swept: pass.swept + 1,
                step: if left <= 1 {
                    PassStep::Ask
                } else {
                    PassStep::Sweep { left: left - 1 }
                },
            },
        ),
        (PassStep::Sweep { .. }, PassEvent::Swept(Err(e))) => Some(
            Pass { swept: pass.swept, step: PassStep::Done(Err(e)) },
        ),
        _ => None,
    }
}

/// Where a pass stands after `events`.
pub open spec fn pass_run(events: Seq<PassEvent>) -> Option<Pass>
    decreases events.len(),
{
    if events.len() == 0 {
        Some(Pass { swept: 0, step: PassStep::Ask })
    } else {
        match pass_run(events.drop_last()) {
            Some(pass) => pass_after(pass, events.last()),
            None => None,
        }
    }
}

/// How many of `events` report a repository swept.
pub open spec fn repositories_swept(events: Seq<PassEvent>) -> nat
    decreases events.len(),
{
    if events.len() == 0 {
        0
    } else {
        repositories_swept(events.drop_last()) + (if events.last() matches PassEvent::Swept(Ok(_)) {
            1nat
        } else {
            0nat
        })
    }
}

proof fn lemma_pass_counts(events: Seq<PassEvent>)
    requires
        pass_run(events) is Some,
        events.len() <= u64::MAX,
    ensures
        (pass_run(events)->0).swept == repositories_swept(events),
        repositories_swept(events) <= events.len(),
    decreases events.len(),
{
    if events.len() > 0 {
        lemma_pass_counts(events.drop_last());
    }
}

/// A pass ends well only when it asked and nothing was dead any more, and it
/// reports the number of repositories that were swept.
pub proof fn law_a_pass_sweeps_everything(events: Seq<PassEvent>)
    requires
        events.len() <= u64::MAX,
        pass_run(events) matches Some(pass) && pass.step matches PassStep::Done(Ok(_)),
    ensures
        events.len() > 0,
        events.last() matches PassEvent::Dead(Ok(n)) && n == 0,
        (pass_run(events)->0).step matches PassStep::Done(Ok(n)) && n == repositories_swept(events),
{
    lemma_pass_counts(events);
    lemma_pass_counts(events.drop_last());
}

/// A pass begins by asking, with nothing counted.
pub proof fn law_pass_begins_by_asking(r: Pass)
    requires
        call_ensures(sweep_dead_repos, (), r),
    ensures
        r.swept == 0,
        r.step is Ask,
        pass_run(Seq::empty()) == Some(r),
{
}

/// An outcome is followed by a step exactly where it is the outcome of the step
/// that was taken: a pass never stands still on its way.
pub proof fn law_pass_goes_on_from_its_own_outcome(pass: Pass, event: PassEvent)
    ensures
        pass_after(pass, event) is Some <==> {
            ||| pass.step is Ask && event is Dead
            ||| pass.step is Sweep && event is Swept
        },
{
}

/// A pass that is told of dead repositories sweeps as many, one that is told of
/// none is over and reports what it swept, and a failure is what it fails with.
pub proof fn law_pass_sweeps_what_is_dead(pass: Pass, n: usize, e: String)
    requires
        pass.step is Ask,
    ensures
        n > 0 ==> pass_after(pass, PassEvent::Dead(Ok(n))) == Some(
            Pass { swept: pass.swept, step: PassStep::Sweep { left: n } },
        ),
        n == 0 ==> pass_after(pass, PassEvent::Dead(Ok(n))) == Some(
            Pass { swept: pass.swept, step: PassStep::Done(Ok(pass.swept)) },
        ),
        pass_after(pass, PassEvent::Dead(Err(e))) == Some(
            Pass { swept: pass.swept, step: PassStep::Done(Err(e)) },
        ),
{
}

/// A pass that has `left` repositories to sweep sweeps that many, counts each of
/// them, and then asks again; a sweep that fails ends it.
pub proof fn law_pass_counts_down(pass: Pass, left: usize, manifests: u64, e: String)
    requires
        pass.step == (PassStep::Sweep { left }),
        pass.swept < u64::MAX,
    ensures
        ({
            let after = pass_after(pass, PassEvent::Swept(Ok(manifests)));
            let failed = pass_after(pass, PassEvent::Swept(Err(e)));
            &&& after is Some && after->0.swept == pass.swept + 1
            &&& left > 1 ==> after->0.step is Sweep && after->0.step->left == left - 1
            &&& left <= 1 ==> after->0.step is Ask
            &&& failed is Some && failed->0.step == PassStep::Done(Err(e))
        }),
{
}

/// The next step of deleting a repository.
#[derive(Debug)]
pub enum DeleteStep {
    /// Release the name, in one write however large the repository is.
    Release,
    /// Wake the sweeper. After the commit: one woken before it would find no
    /// work and go back to sleep.
    Wake,
    /// The name is gone, or why it is not.
    Done(Result<(), OpsError>),
}

/// What follows the write that releases a repository's name.
pub fn released(outcome: Result<(), OpsError>) -> (r: DeleteStep)
    ensures
        match outcome {
            Ok(()) => r is Wake,
            Err(e) => r == DeleteStep::Done(Err(e)),
        },
{
    match outcome {
        Ok(()) => DeleteStep::Wake,
        Err(e) => DeleteStep::Done(Err(e)),
    }
}

/// The sweeper is woken exactly where the name was released, and a release that
/// failed is what the delete fails with.
pub proof fn law_release_wakes_the_sweeper(outcome: Result<(), OpsError>, r: DeleteStep)
    requires
        call_ensures(released, (outcome,), r),
    ensures
        r is Wake <==> outcome is Ok,
        outcome matches Err(e) ==> r == DeleteStep::Done(Err(e)),
{
}

// ---- pull counts -------------------------------------------------------------

/// How often the accumulated counts are drained into the store, in seconds.
pub const FLUSH_INTERVAL: u64 = 5;

/// What was pulled.
#[derive(Debug)]
pub enum Subject {
    Manifest(Digest),
    Tag(String),
    Repo,
}

/// Pulls recorded in memory.
#[derive(Debug)]
pub struct Recorded {
    pub repo: String,
    pub subject: Subject,
    pub day: u16,
    pub hour: u8,
    pub manifest_pulls: u32,
    pub blob_pulls: u32,
    pub bytes_out: u64,
}

/// What the store counts.
#[derive(Debug)]
pub enum CountSubject {
    Manifest(Digest),
    Tag(String),
    Repo,
}

/// Pulls to add to the store.
#[derive(Debug)]
pub struct CountDelta {
    pub repo: String,
    pub subject: CountSubject,
    pub day: u16,
    pub hour: u8,
    pub manifest_pulls: u32,
    pub blob_pulls: u32,
    pub bytes_out: u64,
}

/// `delta` adds what was recorded.
pub open spec fn adds(delta: CountDelta, recorded: Recorded) -> bool {
    &&& delta.repo == recorded.repo
    &&& delta.day == recorded.day
    &&& delta.hour == recorded.hour
    &&& delta.manifest_pulls == recorded.manifest_pulls
    &&& delta.blob_pulls == recorded.blob_pulls
    &&& delta.bytes_out == recorded.bytes_out
    &&& match recorded.subject {
        Subject::Manifest(d) => delta.subject == CountSubject::Manifest(d),
        Subject::Tag(t) => delta.subject == CountSubject::Tag(t),
        Subject::Repo => delta.subject is Repo,
    }
}

/// The addition that puts what was recorded into the store.
pub fn count_delta(recorded: Recorded) -> (r: CountDelta)
    ensures
        adds(r, recorded),
{
    CountDelta {
        repo: recorded.repo,
        subject: match recorded.subject {
            Subject::Manifest(d) => CountSubject::Manifest(d),
            Subject::Tag(t) => CountSubject::Tag(t),
            Subject::Repo => CountSubject::Repo,
        },
        day: recorded.day,
        hour: recorded.hour,
        manifest_pulls: recorded.manifest_pulls,
        blob_pulls: recorded.blob_pulls,
        bytes_out: recorded.bytes_out,
    }
}

/// What a flush does.
#[derive(Debug)]
pub struct Flush {
    /// Tell the operator that so many increments were discarded.
    pub warn: Option<u64>,
    /// Add these to the store; nothing to do where there are none.
    pub write: Vec<CountDelta>,
}

/// What a flush does with what has accumulated: everything drained is written,
/// in order, and discarded increments are told of.
pub fn flush_pull_counts(dropped: u64, drained: Vec<Recorded>) -> (r: Flush)
    ensures
        r.warn == (if dropped > 0 {
            Some(dropped)
        } else {
            None
        }),
        r.write@.len() == drained@.len(),
        forall|i: int| 0 <= i < drained@.len() ==> adds(#[trigger] r.write@[i], drained@[i]),
{
    let mut write: Vec<CountDelta> = Vec::new();
    let ghost all = drained@;
    for recorded in it: drained
        invariant
            it.seq() == all,
            write@.len() == it.index(),
            forall|i: int| 0 <= i < it.index() ==> adds(#[trigger] write@[i], all[i]),
    {
        write.push(count_delta(recorded));
    }
    Flush {
        warn: if dropped > 0 {
            Some(dropped)
        } else {
            None
        },
        write,
    }
}

/// How many buckets a flush wrote. A failure loses the interval's counts and is
/// never propagated: a counter cannot fail a pull.
pub fn flushed(outcome: Result<usize, String>) -> (r: usize)
    ensures
        r == (match outcome {
            Ok(written) => written,
            Err(_) => 0,
        }),
{
    match outcome {
        Ok(written) => written,
        Err(_) => 0,
    }
}

/// A flush writes everything that was recorded, in order and unchanged, under the
/// repository and the subject it was recorded for, and tells of what was discarded
/// exactly where something was.
pub proof fn law_flush_writes_what_was_recorded(
    dropped: u64,
    drained: Vec<Recorded>,
    r: Flush,
    i: int,
)
    requires
        call_ensures(flush_pull_counts, (dropped, drained), r),
        0 <= i < drained@.len(),
    ensures
        r.warn is Some <==> dropped > 0,
        r.warn matches Some(n) ==> n == dropped,
        r.write@.len() == drained@.len(),
        r.write@[i].repo == drained@[i].repo,
        r.write@[i].day == drained@[i].day,
        r.write@[i].hour == drained@[i].hour,
        r.write@[i].manifest_pulls == drained@[i].manifest_pulls,
        r.write@[i].blob_pulls == drained@[i].blob_pulls,
        r.write@[i].bytes_out == drained@[i].bytes_out,
        r.write@[i].subject is Repo <==> drained@[i].subject is Repo,
        drained@[i].subject matches Subject::Manifest(d) ==> r.write@[i].subject
            == CountSubject::Manifest(d),
        drained@[i].subject matches Subject::Tag(t) ==> r.write@[i].subject == CountSubject::Tag(t),
{
    assert(adds(r.write@[i], drained@[i]));
}

/// A flush counts what was written, and one that failed counts nothing and fails
/// nothing.
pub proof fn law_flush_never_fails(written: usize, e: String, r: usize)
    ensures
        call_ensures(flushed, (Ok(written),), r) ==> r == written,
        call_ensures(flushed, (Err(e),), r) ==> r == 0,
{
}

} // verus!
