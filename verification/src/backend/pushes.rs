//! Pushing a manifest, and pushing a blob in one request.
//!
//! Each push is a machine: a step names what is to be done next, the outcome of
//! doing it is an event, and the event decides the step after it.

use vstd::prelude::*;

use crate::reference::Digest;
use crate::seam::{ManifestPut, OpsError};

verus! {

// ---- a manifest --------------------------------------------------------------

/// What a manifest push resolved to.
#[derive(Debug)]
pub struct PutOutcome {
    pub digest: Digest,
    pub subject: Option<Digest>,
}

/// The next step of a manifest push.
#[derive(Debug)]
pub enum PutStep {
    /// Plan the batch, unlocked and unapplied: this is where the digest becomes
    /// known, and where a push that is going to be refused is refused before
    /// anything is on the disk.
    Plan,
    /// Copy the document into the blob store under its digest, fsynced.
    Archive { digest: Digest },
    /// Take the repository's tag lock. After the archive write and not around
    /// it: a lock held across an fsync is how one slow disk serialises a
    /// repository's pushes.
    Lock,
    /// Under the lock, plan again and apply that plan. The first plan cannot be
    /// the one that commits: what it read may have changed since.
    Commit,
    /// The push is over.
    Done(Result<PutOutcome, OpsError>),
}

/// The outcome of a step of a manifest push.
#[derive(Debug)]
pub enum PutEvent {
    Planned(Result<Digest, OpsError>),
    Archived(Result<(), OpsError>),
    Locked,
    Committed(Result<PutOutcome, OpsError>),
}

/// The step after `step`, given its outcome. Nothing follows an outcome that is
/// not the step's own.
pub open spec fn put_next(step: PutStep, event: PutEvent) -> Option<PutStep> {
    match (step, event) {
        (PutStep::Plan, PutEvent::Planned(Ok(digest))) => Some(PutStep::Archive { digest }),
        (PutStep::Plan, PutEvent::Planned(Err(e))) => Some(PutStep::Done(Err(e))),
        (PutStep::Archive { .. }, PutEvent::Archived(Ok(()))) => Some(PutStep::Lock),
        (PutStep::Archive { .. }, PutEvent::Archived(Err(e))) => Some(PutStep::Done(Err(e))),
        (PutStep::Lock, PutEvent::Locked) => Some(PutStep::Commit),
        (PutStep::Commit, PutEvent::Committed(r)) => Some(PutStep::Done(r)),
        _ => None,
    }
}

/// The step after `step`, given its outcome.
pub fn put_manifest_next(step: PutStep, event: PutEvent) -> (r: Option<PutStep>)
    ensures
        r == put_next(step, event),
{
    match (step, event) {
        (PutStep::Plan, PutEvent::Planned(Ok(digest))) => Some(PutStep::Archive { digest }),
        (PutStep::Plan, PutEvent::Planned(Err(e))) => Some(PutStep::Done(Err(e))),
        (PutStep::Archive { .. }, PutEvent::Archived(Ok(()))) => Some(PutStep::Lock),
        (PutStep::Archive { .. }, PutEvent::Archived(Err(e))) => Some(PutStep::Done(Err(e))),
        (PutStep::Lock, PutEvent::Locked) => Some(PutStep::Commit),
        (PutStep::Commit, PutEvent::Committed(r)) => Some(PutStep::Done(r)),
        _ => None,
    }
}

/// What the client of a committed push is told: the tags it named are echoed.
pub fn put_manifest_reply(outcome: PutOutcome, tags: Vec<String>) -> (r: ManifestPut)
    ensures
        r == (ManifestPut { digest: outcome.digest, subject: outcome.subject, tags }),
{
    ManifestPut { digest: outcome.digest, subject: outcome.subject, tags }
}

/// Where a push stands after `events`.
pub open spec fn put_run(events: Seq<PutEvent>) -> Option<PutStep>
    decreases events.len(),
{
    if events.len() == 0 {
        Some(PutStep::Plan)
    } else {
        match put_run(events.drop_last()) {
            Some(step) => put_next(step, events.last()),
            None => None,
        }
    }
}

/// What must have happened for a push to stand at `step`.
spec fn put_reached(events: Seq<PutEvent>, step: PutStep) -> bool {
    let planned = events.len() >= 1 && (events[0] matches PutEvent::Planned(Ok(_)));
    let archived = planned && events.len() >= 2 && (events[1] matches PutEvent::Archived(Ok(_)));
    let locked = archived && events.len() >= 3 && events[2] is Locked;
    match step {
        PutStep::Plan => events.len() == 0,
        PutStep::Archive { digest } => events.len() == 1 && events[0] == PutEvent::Planned(
            Ok(digest),
        ),
        PutStep::Lock => events.len() == 2 && archived,
        PutStep::Commit => events.len() == 3 && locked,
        PutStep::Done(Ok(out)) => events.len() == 4 && locked && events[3] == PutEvent::Committed(
            Ok(out),
        ),
        PutStep::Done(Err(e)) => {
            ||| events.len() == 1 && events[0] == PutEvent::Planned(Err(e))
            ||| events.len() == 2 && planned && events[1] == PutEvent::Archived(Err(e))
            ||| events.len() == 4 && locked && events[3] == PutEvent::Committed(Err(e))
        },
    }
}

proof fn lemma_put_reached(events: Seq<PutEvent>)
    ensures
        put_run(events) matches Some(step) ==> put_reached(events, step),
    decreases events.len(),
{
    if events.len() > 0 {
        lemma_put_reached(events.drop_last());
        let before = events.drop_last();
        assert(before.len() > 0 ==> before[0] == events[0]);
        assert(before.len() > 1 ==> before[1] == events[1]);
        assert(before.len() > 2 ==> before[2] == events[2]);
        assert(before.len() > 3 ==> before[3] == events[3]);
        assert(events.last() == events[events.len() - 1]);
    }
}

/// Metadata is applied only after the plan held, the archive copy landed and the
/// lock was taken, in that order: no committed manifest lacks its copy, and no
/// lock is held across the copy's write.
pub proof fn law_manifest_bytes_land_before_metadata(events: Seq<PutEvent>)
    requires
        put_run(events) == Some(PutStep::Commit),
    ensures
        events.len() == 3,
        events[0] matches PutEvent::Planned(Ok(_)),
        (events[1] matches PutEvent::Archived(Ok(_))),
        events[2] is Locked,
{
    lemma_put_reached(events);
}

/// A push that could not write the copy is over, with the error the copy failed
/// with, and never reaches the lock or the commit.
pub proof fn law_failed_copy_commits_nothing(events: Seq<PutEvent>, e: OpsError)
    requires
        events.len() >= 2,
        events[1] == PutEvent::Archived(Err(e)),
        put_run(events) is Some,
    ensures
        events.len() == 2,
        put_run(events) == Some(PutStep::Done(Err(e))),
{
    lemma_put_reached(events);
    if events.len() == 2 {
        let before = events.drop_last();
        assert(before.drop_last() =~= Seq::empty());
        assert(before.last() == events[0]);
        assert(events.last() == events[1]);
        lemma_put_reached(before);
    }
}

/// A push that ends in an error has committed nothing, wherever it failed: the
/// manifest and all of its tags land, or none of them does.
pub proof fn law_failed_push_commits_nothing(events: Seq<PutEvent>)
    requires
        put_run(events) matches Some(PutStep::Done(Err(_))),
    ensures
        forall|i: int|
            0 <= i < events.len() ==> !(#[trigger] events[i] matches PutEvent::Committed(Ok(_))),
{
    lemma_put_reached(events);
}

/// A push succeeds only by committing, and answers with what was committed.
pub proof fn law_success_is_a_commit(events: Seq<PutEvent>, out: PutOutcome)
    requires
        put_run(events) == Some(PutStep::Done(Ok(out))),
    ensures
        events.len() == 4,
        (events[1] matches PutEvent::Archived(Ok(_))),
        events[3] == PutEvent::Committed(Ok(out)),
{
    lemma_put_reached(events);
}

/// An outcome is followed by a step exactly where it is the outcome of the step
/// that was taken: no push stands still on its way, and none goes on from a step
/// that it did not take.
pub proof fn law_push_goes_on_from_its_own_outcome(step: PutStep, event: PutEvent)
    ensures
        put_next(step, event) is Some <==> {
            ||| step is Plan && event is Planned
            ||| step is Archive && event is Archived
            ||| step is Lock && event is Locked
            ||| step is Commit && event is Committed
        },
{
}

/// A push whose every step succeeds archives the bytes under the digest that was
/// planned, takes the lock, commits, and answers with what the commit resolved
/// to.
pub proof fn law_push_commits(digest: Digest, out: PutOutcome)
    ensures
        put_run(seq![PutEvent::Planned(Ok(digest))]) == Some(PutStep::Archive { digest }),
        put_run(seq![PutEvent::Planned(Ok(digest)), PutEvent::Archived(Ok(()))]) == Some(
            PutStep::Lock,
        ),
        put_run(
            seq![PutEvent::Planned(Ok(digest)), PutEvent::Archived(Ok(())), PutEvent::Locked],
        ) == Some(PutStep::Commit),
        put_run(
            seq![
                PutEvent::Planned(Ok(digest)),
                PutEvent::Archived(Ok(())),
                PutEvent::Locked,
                PutEvent::Committed(Ok(out)),
            ],
        ) == Some(PutStep::Done(Ok(out))),
{
    let planned = seq![PutEvent::Planned(Ok(digest))];
    let archived = planned.push(PutEvent::Archived(Ok(())));
    let locked = archived.push(PutEvent::Locked);
    let committed = locked.push(PutEvent::Committed(Ok(out)));
    assert(planned.drop_last() =~= Seq::empty());
    assert(archived.drop_last() =~= planned);
    assert(locked.drop_last() =~= archived);
    assert(committed.drop_last() =~= locked);
    assert(put_run(planned.drop_last()) == Some(PutStep::Plan));
    assert(put_run(planned) == Some(PutStep::Archive { digest }));
    assert(put_run(archived) == Some(PutStep::Lock));
    assert(put_run(locked) == Some(PutStep::Commit));
    assert(seq![PutEvent::Planned(Ok(digest)), PutEvent::Archived(Ok(()))] =~= archived);
    assert(seq![PutEvent::Planned(Ok(digest)), PutEvent::Archived(Ok(())), PutEvent::Locked]
        =~= locked);
    assert(seq![
        PutEvent::Planned(Ok(digest)),
        PutEvent::Archived(Ok(())),
        PutEvent::Locked,
        PutEvent::Committed(Ok(out)),
    ] =~= committed);
}

/// A push that a step fails is over at once, with the error of that step and no
/// other.
pub proof fn law_push_fails_with_the_error_it_met(step: PutStep, event: PutEvent, e: OpsError)
    requires
        ({
            ||| step is Plan && event == PutEvent::Planned(Err(e))
            ||| step is Archive && event == PutEvent::Archived(Err(e))
            ||| step is Commit && event == PutEvent::Committed(Err(e))
        }),
    ensures
        put_next(step, event) == Some(PutStep::Done(Err(e))),
{
}

/// The client of a committed push is told the digest and the subject that were
/// committed, and each tag it named.
pub proof fn law_push_is_answered_with_what_it_did(
    outcome: PutOutcome,
    tags: Vec<String>,
    r: ManifestPut,
)
    requires
        call_ensures(put_manifest_reply, (outcome, tags), r),
    ensures
        r.digest == outcome.digest,
        r.subject == outcome.subject,
        r.tags@ == tags@,
{
}

// ---- the archive copy --------------------------------------------------------

/// The next step of writing a manifest's archive copy.
#[derive(Debug)]
pub enum ArchiveStep {
    /// Ask whether the digest is already there: a re-push is a no-op.
    Look,
    /// Create a staging file.
    Create,
    /// Write the document.
    Append,
    /// Seal the file under its digest, checked against the bytes.
    Commit,
    /// Remove the staging file, then fail: nothing will ever ask about it again.
    Cancel(OpsError),
    /// The copy is there, or why it is not.
    Done(Result<(), OpsError>),
}

/// The outcome of a step of writing the archive copy.
#[derive(Debug)]
pub enum ArchiveEvent {
    Looked(Result<bool, OpsError>),
    Created(Result<(), OpsError>),
    Appended(Result<(), OpsError>),
    Committed(Result<u64, OpsError>),
    Cancelled,
}

/// The step after `step`, given its outcome.
pub open spec fn archive_after(step: ArchiveStep, event: ArchiveEvent) -> Option<ArchiveStep> {
    match (step, event) {
        (ArchiveStep::Look, ArchiveEvent::Looked(Ok(true))) => Some(ArchiveStep::Done(Ok(()))),
        (ArchiveStep::Look, ArchiveEvent::Looked(Ok(false))) => Some(ArchiveStep::Create),
        (ArchiveStep::Look, ArchiveEvent::Looked(Err(e))) => Some(ArchiveStep::Done(Err(e))),
        (ArchiveStep::Create, ArchiveEvent::Created(Ok(()))) => Some(ArchiveStep::Append),
        (ArchiveStep::Create, ArchiveEvent::Created(Err(e))) => Some(ArchiveStep::Done(Err(e))),
        (ArchiveStep::Append, ArchiveEvent::Appended(Ok(()))) => Some(ArchiveStep::Commit),
        (ArchiveStep::Append, ArchiveEvent::Appended(Err(e))) => Some(ArchiveStep::Cancel(e)),
        (ArchiveStep::Commit, ArchiveEvent::Committed(Ok(_))) => Some(ArchiveStep::Done(Ok(()))),
        (ArchiveStep::Commit, ArchiveEvent::Committed(Err(e))) => Some(ArchiveStep::Cancel(e)),
        (ArchiveStep::Cancel(e), ArchiveEvent::Cancelled) => Some(ArchiveStep::Done(Err(e))),
        _ => None,
    }
}

/// The step after `step`, given its outcome.
pub fn archive_manifest_next(step: ArchiveStep, event: ArchiveEvent) -> (r: Option<ArchiveStep>)
    ensures
        r == archive_after(step, event),
{
    match (step, event) {
        (ArchiveStep::Look, ArchiveEvent::Looked(Ok(true))) => Some(ArchiveStep::Done(Ok(()))),
        (ArchiveStep::Look, ArchiveEvent::Looked(Ok(false))) => Some(ArchiveStep::Create),
        (ArchiveStep::Look, ArchiveEvent::Looked(Err(e))) => Some(ArchiveStep::Done(Err(e))),
        (ArchiveStep::Create, ArchiveEvent::Created(Ok(()))) => Some(ArchiveStep::Append),
        (ArchiveStep::Create, ArchiveEvent::Created(Err(e))) => Some(ArchiveStep::Done(Err(e))),
        (ArchiveStep::Append, ArchiveEvent::Appended(Ok(()))) => Some(ArchiveStep::Commit),
        (ArchiveStep::Append, ArchiveEvent::Appended(Err(e))) => Some(ArchiveStep::Cancel(e)),
        (ArchiveStep::Commit, ArchiveEvent::Committed(Ok(_))) => Some(ArchiveStep::Done(Ok(()))),
        (ArchiveStep::Commit, ArchiveEvent::Committed(Err(e))) => Some(ArchiveStep::Cancel(e)),
        (ArchiveStep::Cancel(e), ArchiveEvent::Cancelled) => Some(ArchiveStep::Done(Err(e))),
        _ => None,
    }
}

/// Where the copy stands after `events`.
pub open spec fn archive_run(events: Seq<ArchiveEvent>) -> Option<ArchiveStep>
    decreases events.len(),
{
    if events.len() == 0 {
        Some(ArchiveStep::Look)
    } else {
        match archive_run(events.drop_last()) {
            Some(step) => archive_after(step, events.last()),
            None => None,
        }
    }
}

/// What must have happened for the copy to stand at `step`.
spec fn archive_reached(events: Seq<ArchiveEvent>, step: ArchiveStep) -> bool {
    let fresh = events.len() >= 1 && events[0] == ArchiveEvent::Looked(Ok(false));
    let created = fresh && events.len() >= 2 && (events[1] matches ArchiveEvent::Created(Ok(_)));
    let appended = created && events.len() >= 3 && (events[2] matches ArchiveEvent::Appended(Ok(_)));
    match step {
        ArchiveStep::Look => events.len() == 0,
        ArchiveStep::Create => events.len() == 1 && fresh,
        ArchiveStep::Append => events.len() == 2 && created,
        ArchiveStep::Commit => events.len() == 3 && appended,
        ArchiveStep::Cancel(e) => {
            ||| events.len() == 3 && created && events[2] == ArchiveEvent::Appended(Err(e))
            ||| events.len() == 4 && appended && events[3] == ArchiveEvent::Committed(Err(e))
        },
        ArchiveStep::Done(Ok(())) => {
            ||| events.len() == 1 && events[0] == ArchiveEvent::Looked(Ok(true))
            ||| events.len() == 4 && appended && (events[3] matches ArchiveEvent::Committed(Ok(_)))
        },
        ArchiveStep::Done(Err(e)) => {
            ||| events.len() == 1 && events[0] == ArchiveEvent::Looked(Err(e))
            ||| events.len() == 2 && fresh && events[1] == ArchiveEvent::Created(Err(e))
            ||| events.len() >= 4 && created && events.last() is Cancelled && (events[events.len()
                - 2] == ArchiveEvent::Appended(Err(e)) || events[events.len() - 2]
                == ArchiveEvent::Committed(Err(e)))
        },
    }
}

proof fn lemma_archive_reached(events: Seq<ArchiveEvent>)
    ensures
        archive_run(events) matches Some(step) ==> archive_reached(events, step),
    decreases events.len(),
{
    if events.len() > 0 {
        let before = events.drop_last();
        lemma_archive_reached(before);
        assert(before.len() > 0 ==> before[0] == events[0]);
        assert(before.len() > 1 ==> before[1] == events[1]);
        assert(before.len() > 2 ==> before[2] == events[2]);
        assert(before.len() > 3 ==> before[3] == events[3]);
        assert(events.last() == events[events.len() - 1]);
    }
}

/// The copy is reported to be there only if it was there already or was sealed
/// just now, and a copy that failed once its staging file existed has removed
/// that file.
pub proof fn law_copy_is_there_or_cleaned_up(events: Seq<ArchiveEvent>)
    ensures
        archive_run(events) matches Some(ArchiveStep::Done(Ok(_))) ==> events[0] == ArchiveEvent::Looked(
            Ok(true),
        ) || events.last() matches ArchiveEvent::Committed(Ok(_)),
        archive_run(events) matches Some(ArchiveStep::Done(Err(_))) ==> events.len() <= 2
            || events.last() is Cancelled,
{
    lemma_archive_reached(events);
    if archive_run(events) is Some && events.len() > 0 {
        assert(events.last() == events[events.len() - 1]);
    }
}

/// An outcome is followed by a step exactly where it is the outcome of the step
/// that was taken: a copy never stands still on its way.
pub proof fn law_copy_goes_on_from_its_own_outcome(step: ArchiveStep, event: ArchiveEvent)
    ensures
        archive_after(step, event) is Some <==> {
            ||| step is Look && event is Looked
            ||| step is Create && event is Created
            ||| step is Append && event is Appended
            ||| step is Commit && event is Committed
            ||| step is Cancel && event is Cancelled
        },
{
}

/// A copy whose every step succeeds lands, of whatever size it is, and one that
/// was there already needs no step more.
pub proof fn law_copy_lands(size: u64)
    ensures
        archive_run(seq![ArchiveEvent::Looked(Ok(true))]) == Some(ArchiveStep::Done(Ok(()))),
        archive_run(seq![ArchiveEvent::Looked(Ok(false))]) == Some(ArchiveStep::Create),
        archive_run(seq![ArchiveEvent::Looked(Ok(false)), ArchiveEvent::Created(Ok(()))]) == Some(
            ArchiveStep::Append,
        ),
        archive_run(
            seq![
                ArchiveEvent::Looked(Ok(false)),
                ArchiveEvent::Created(Ok(())),
                ArchiveEvent::Appended(Ok(())),
            ],
        ) == Some(ArchiveStep::Commit),
        archive_run(
            seq![
                ArchiveEvent::Looked(Ok(false)),
                ArchiveEvent::Created(Ok(())),
                ArchiveEvent::Appended(Ok(())),
                ArchiveEvent::Committed(Ok(size)),
            ],
        ) == Some(ArchiveStep::Done(Ok(()))),
{
    let there = seq![ArchiveEvent::Looked(Ok(true))];
    let looked = seq![ArchiveEvent::Looked(Ok(false))];
    let created = looked.push(ArchiveEvent::Created(Ok(())));
    let appended = created.push(ArchiveEvent::Appended(Ok(())));
    let sealed = appended.push(ArchiveEvent::Committed(Ok(size)));
    assert(there.drop_last() =~= Seq::empty());
    assert(looked.drop_last() =~= Seq::empty());
    assert(created.drop_last() =~= looked);
    assert(appended.drop_last() =~= created);
    assert(sealed.drop_last() =~= appended);
    assert(archive_run(looked.drop_last()) == Some(ArchiveStep::Look));
    assert(archive_run(looked) == Some(ArchiveStep::Create));
    assert(archive_run(created) == Some(ArchiveStep::Append));
    assert(archive_run(appended) == Some(ArchiveStep::Commit));
    assert(seq![ArchiveEvent::Looked(Ok(false)), ArchiveEvent::Created(Ok(()))] =~= created);
    assert(seq![
        ArchiveEvent::Looked(Ok(false)),
        ArchiveEvent::Created(Ok(())),
        ArchiveEvent::Appended(Ok(())),
    ] =~= appended);
    assert(seq![
        ArchiveEvent::Looked(Ok(false)),
        ArchiveEvent::Created(Ok(())),
        ArchiveEvent::Appended(Ok(())),
        ArchiveEvent::Committed(Ok(size)),
    ] =~= sealed);
}

/// A copy that a step fails ends with the error of that step: at once where there
/// is no staging file yet, and after removing it where there is one.
pub proof fn law_copy_fails_with_the_error_it_met(e: OpsError)
    ensures
        archive_after(ArchiveStep::Look, ArchiveEvent::Looked(Err(e))) == Some(
            ArchiveStep::Done(Err(e)),
        ),
        archive_after(ArchiveStep::Create, ArchiveEvent::Created(Err(e))) == Some(
            ArchiveStep::Done(Err(e)),
        ),
        archive_after(ArchiveStep::Append, ArchiveEvent::Appended(Err(e))) == Some(
            ArchiveStep::Cancel(e),
        ),
        archive_after(ArchiveStep::Commit, ArchiveEvent::Committed(Err(e))) == Some(
            ArchiveStep::Cancel(e),
        ),
        archive_after(ArchiveStep::Cancel(e), ArchiveEvent::Cancelled) == Some(
            ArchiveStep::Done(Err(e)),
        ),
{
}

// ---- a blob in one request ---------------------------------------------------

/// The next step of a single-request blob push.
#[derive(Debug)]
pub enum BlobStep {
    /// Create a staging file.
    Create,
    /// Write the body through to it.
    Drain,
    /// Seal the file under its digest, checked against the bytes.
    Commit,
    /// Remove the staging file, then fail.
    Cancel(OpsError),
    /// Record the blob, of this size, in the repository.
    Apply { size: u64 },
    /// The push is over.
    Done(Result<(), OpsError>),
}

/// The outcome of a step of a single-request blob push.
#[derive(Debug)]
pub enum BlobEvent {
    Created(Result<(), OpsError>),
    Drained(Result<u64, OpsError>),
    Committed(Result<u64, OpsError>),
    Cancelled,
    Applied(Result<(), OpsError>),
}

/// The step after `step`, given its outcome.
pub open spec fn blob_after(step: BlobStep, event: BlobEvent) -> Option<BlobStep> {
    match (step, event) {
        (BlobStep::Create, BlobEvent::Created(Ok(()))) => Some(BlobStep::Drain),
        (BlobStep::Create, BlobEvent::Created(Err(e))) => Some(BlobStep::Done(Err(e))),
        (BlobStep::Drain, BlobEvent::Drained(Ok(_))) => Some(BlobStep::Commit),
        (BlobStep::Drain, BlobEvent::Drained(Err(e))) => Some(BlobStep::Cancel(e)),
        (BlobStep::Commit, BlobEvent::Committed(Ok(size))) => Some(BlobStep::Apply { size }),
        (BlobStep::Commit, BlobEvent::Committed(Err(e))) => Some(BlobStep::Cancel(e)),
        (BlobStep::Cancel(e), BlobEvent::Cancelled) => Some(BlobStep::Done(Err(e))),
        (BlobStep::Apply { .. }, BlobEvent::Applied(r)) => Some(BlobStep::Done(r)),
        _ => None,
    }
}

/// The step after `step`, given its outcome.
pub fn put_blob_next(step: BlobStep, event: BlobEvent) -> (r: Option<BlobStep>)
    ensures
        r == blob_after(step, event),
{
    match (step, event) {
        (BlobStep::Create, BlobEvent::Created(Ok(()))) => Some(BlobStep::Drain),
        (BlobStep::Create, BlobEvent::Created(Err(e))) => Some(BlobStep::Done(Err(e))),
        (BlobStep::Drain, BlobEvent::Drained(Ok(_))) => Some(BlobStep::Commit),
        (BlobStep::Drain, BlobEvent::Drained(Err(e))) => Some(BlobStep::Cancel(e)),
        (BlobStep::Commit, BlobEvent::Committed(Ok(size))) => Some(BlobStep::Apply { size }),
        (BlobStep::Commit, BlobEvent::Committed(Err(e))) => Some(BlobStep::Cancel(e)),
        (BlobStep::Cancel(e), BlobEvent::Cancelled) => Some(BlobStep::Done(Err(e))),
        (BlobStep::Apply { .. }, BlobEvent::Applied(r)) => Some(BlobStep::Done(r)),
        _ => None,
    }
}

/// Where the push stands after `events`.
pub open spec fn blob_run(events: Seq<BlobEvent>) -> Option<BlobStep>
    decreases events.len(),
{
    if events.len() == 0 {
        Some(BlobStep::Create)
    } else {
        match blob_run(events.drop_last()) {
            Some(step) => blob_after(step, events.last()),
            None => None,
        }
    }
}

/// What must have happened for the push to stand at `step`.
spec fn blob_reached(events: Seq<BlobEvent>, step: BlobStep) -> bool {
    let created = events.len() >= 1 && (events[0] matches BlobEvent::Created(Ok(_)));
    let drained = created && events.len() >= 2 && (events[1] matches BlobEvent::Drained(Ok(_)));
    match step {
        BlobStep::Create => events.len() == 0,
        BlobStep::Drain => events.len() == 1 && created,
        BlobStep::Commit => events.len() == 2 && drained,
        BlobStep::Apply { size } => events.len() == 3 && drained && events[2] == BlobEvent::Committed(
            Ok(size),
        ),
        BlobStep::Cancel(e) => {
            ||| events.len() == 2 && created && events[1] == BlobEvent::Drained(Err(e))
            ||| events.len() == 3 && drained && events[2] == BlobEvent::Committed(Err(e))
        },
        BlobStep::Done(Ok(())) => events.len() == 4 && drained
            && (events[2] matches BlobEvent::Committed(Ok(_))) && (events[3] matches BlobEvent::Applied(Ok(_))),
        BlobStep::Done(Err(e)) => {
            ||| events.len() == 1 && events[0] == BlobEvent::Created(Err(e))
            ||| events.len() == 3 && created && events[1] is Drained && events[2] is Cancelled
            ||| events.len() == 4 && drained && events[2] is Committed && events[3] is Cancelled
            ||| events.len() == 4 && drained && (events[2] matches BlobEvent::Committed(Ok(_)))
                && events[3] == BlobEvent::Applied(Err(e))
        },
    }
}

proof fn lemma_blob_reached(events: Seq<BlobEvent>)
    ensures
        blob_run(events) matches Some(step) ==> blob_reached(events, step),
    decreases events.len(),
{
    if events.len() > 0 {
        let before = events.drop_last();
        lemma_blob_reached(before);
        assert(before.len() > 0 ==> before[0] == events[0]);
        assert(before.len() > 1 ==> before[1] == events[1]);
        assert(before.len() > 2 ==> before[2] == events[2]);
        assert(before.len() > 3 ==> before[3] == events[3]);
        assert(events.last() == events[events.len() - 1]);
    }
}

/// A blob is recorded only after its bytes were sealed under its digest, with
/// the size that was sealed; and a push that failed with its staging file still
/// open has removed it.
pub proof fn law_blob_bytes_land_before_metadata(events: Seq<BlobEvent>)
    ensures
        blob_run(events) matches Some(BlobStep::Apply { size }) ==> events.len() == 3
            && (events[1] matches BlobEvent::Drained(Ok(_))) && events[2] == BlobEvent::Committed(
            Ok(size),
        ),
        blob_run(events) matches Some(BlobStep::Done(Ok(()))) ==> events.len() == 4
            && events[2] matches BlobEvent::Committed(Ok(_)),
        blob_run(events) matches Some(BlobStep::Done(Err(_))) ==> events.len() == 1
            || events.last() is Cancelled || events.last() is Applied,
{
    lemma_blob_reached(events);
    if events.len() > 0 {
        assert(events.last() == events[events.len() - 1]);
    }
}

/// A blob push that ends in an error has recorded nothing in the repository,
/// wherever it failed.
pub proof fn law_failed_blob_push_records_nothing(events: Seq<BlobEvent>)
    requires
        blob_run(events) matches Some(BlobStep::Done(Err(_))),
    ensures
        forall|i: int|
            0 <= i < events.len() ==> !(#[trigger] events[i] matches BlobEvent::Applied(Ok(_))),
{
    lemma_blob_reached(events);
}

/// An outcome is followed by a step exactly where it is the outcome of the step
/// that was taken: a blob push never stands still on its way.
pub proof fn law_blob_push_goes_on_from_its_own_outcome(step: BlobStep, event: BlobEvent)
    ensures
        blob_after(step, event) is Some <==> {
            ||| step is Create && event is Created
            ||| step is Drain && event is Drained
            ||| step is Commit && event is Committed
            ||| step is Cancel && event is Cancelled
            ||| step is Apply && event is Applied
        },
{
}

/// A blob push whose every step succeeds records the blob with the size that was
/// sealed, however many bytes the body was counted to hold.
pub proof fn law_blob_push_lands(counted: u64, size: u64)
    ensures
        blob_run(seq![BlobEvent::Created(Ok(()))]) == Some(BlobStep::Drain),
        blob_run(seq![BlobEvent::Created(Ok(())), BlobEvent::Drained(Ok(counted))]) == Some(
            BlobStep::Commit,
        ),
        blob_run(
            seq![
                BlobEvent::Created(Ok(())),
                BlobEvent::Drained(Ok(counted)),
                BlobEvent::Committed(Ok(size)),
            ],
        ) == Some(BlobStep::Apply { size }),
        blob_run(
            seq![
                BlobEvent::Created(Ok(())),
                BlobEvent::Drained(Ok(counted)),
                BlobEvent::Committed(Ok(size)),
                BlobEvent::Applied(Ok(())),
            ],
        ) == Some(BlobStep::Done(Ok(()))),
{
    let created = seq![BlobEvent::Created(Ok(()))];
    let drained = created.push(BlobEvent::Drained(Ok(counted)));
    let sealed = drained.push(BlobEvent::Committed(Ok(size)));
    let applied = sealed.push(BlobEvent::Applied(Ok(())));
    assert(created.drop_last() =~= Seq::empty());
    assert(drained.drop_last() =~= created);
    assert(sealed.drop_last() =~= drained);
    assert(applied.drop_last() =~= sealed);
    assert(blob_run(created.drop_last()) == Some(BlobStep::Create));
    assert(blob_run(created) == Some(BlobStep::Drain));
    assert(blob_run(drained) == Some(BlobStep::Commit));
    assert(blob_run(sealed) == Some(BlobStep::Apply { size }));
    assert(seq![BlobEvent::Created(Ok(())), BlobEvent::Drained(Ok(counted))] =~= drained);
    assert(seq![
        BlobEvent::Created(Ok(())),
        BlobEvent::Drained(Ok(counted)),
        BlobEvent::Committed(Ok(size)),
    ] =~= sealed);
    assert(seq![
        BlobEvent::Created(Ok(())),
        BlobEvent::Drained(Ok(counted)),
        BlobEvent::Committed(Ok(size)),
        BlobEvent::Applied(Ok(())),
    ] =~= applied);
}

/// A blob push that a step fails ends with the error of that step, once its
/// staging file is gone where it still had one.
pub proof fn law_blob_push_fails_with_the_error_it_met(size: u64, e: OpsError)
    ensures
        blob_after(BlobStep::Create, BlobEvent::Created(Err(e))) == Some(BlobStep::Done(Err(e))),
        blob_after(BlobStep::Drain, BlobEvent::Drained(Err(e))) == Some(BlobStep::Cancel(e)),
        blob_after(BlobStep::Commit, BlobEvent::Committed(Err(e))) == Some(BlobStep::Cancel(e)),
        blob_after(BlobStep::Cancel(e), BlobEvent::Cancelled) == Some(BlobStep::Done(Err(e))),
        blob_after(BlobStep::Apply { size }, BlobEvent::Applied(Err(e))) == Some(
            BlobStep::Done(Err(e)),
        ),
{
}

} // verus!
