//! Upload sessions: opening one, appending to it, closing it, cancelling it.
//!
//! A session is a staging file and a record of how much of it counts. Bytes are
//! on disk before the offset that describes them is recorded: a crash between
//! the two leaves the file long, which the next resume truncates; the reverse
//! would leave it short, which nothing can repair.

use vstd::prelude::*;

use crate::reference::DigestAlgorithm;
use crate::seam::OpsError;

verus! {

// ---- opening -----------------------------------------------------------------

/// The next step of opening a session.
#[derive(Debug)]
pub enum CreateStep {
    /// Create the staging file, hashing under this algorithm.
    CreateFile { algorithm: DigestAlgorithm },
    /// Record the session.
    Record,
    /// The session is open, or why it is not.
    Done(Result<(), OpsError>),
}

/// The outcome of a step of opening a session.
#[derive(Debug)]
pub enum CreateEvent {
    FileCreated(Result<(), OpsError>),
    Recorded(Result<(), OpsError>),
}

/// The first step of opening a session: whether its id is a key, the algorithm
/// or the complaint about its name, and whether the id can name a file.
///
/// Staging file first, session record second: the reverse would leave a session
/// pointing at a file that does not exist.
pub fn create_upload(
    key_valid: bool,
    algorithm: Result<DigestAlgorithm, String>,
    id_valid: bool,
) -> (r: CreateStep)
    ensures
        r == (if !key_valid {
            CreateStep::Done(Err(OpsError::UploadUnknown))
        } else {
            match algorithm {
                Err(detail) => CreateStep::Done(Err(OpsError::ManifestInvalid(detail))),
                Ok(algorithm) => if id_valid {
                    CreateStep::CreateFile { algorithm }
                } else {
                    CreateStep::Done(Err(OpsError::UploadUnknown))
                },
            }
        }),
{
    if !key_valid {
        return CreateStep::Done(Err(OpsError::UploadUnknown));
    }
    match algorithm {
        Err(detail) => CreateStep::Done(Err(OpsError::ManifestInvalid(detail))),
        Ok(algorithm) => if id_valid {
            CreateStep::CreateFile { algorithm }
        } else {
            CreateStep::Done(Err(OpsError::UploadUnknown))
        },
    }
}

/// The step after `step`, given its outcome.
pub open spec fn create_after(step: CreateStep, event: CreateEvent) -> Option<CreateStep> {
    match (step, event) {
        (CreateStep::CreateFile { .. }, CreateEvent::FileCreated(Ok(()))) => Some(
            CreateStep::Record,
        ),
        (CreateStep::CreateFile { .. }, CreateEvent::FileCreated(Err(e))) => Some(
            CreateStep::Done(Err(e)),
        ),
        (CreateStep::Record, CreateEvent::Recorded(r)) => Some(CreateStep::Done(r)),
        _ => None,
    }
}

/// The step after `step`, given its outcome.
pub fn create_upload_next(step: CreateStep, event: CreateEvent) -> (r: Option<CreateStep>)
    ensures
        r == create_after(step, event),
{
    match (step, event) {
        (CreateStep::CreateFile { .. }, CreateEvent::FileCreated(Ok(()))) => Some(
            CreateStep::Record,
        ),
        (CreateStep::CreateFile { .. }, CreateEvent::FileCreated(Err(e))) => Some(
            CreateStep::Done(Err(e)),
        ),
        (CreateStep::Record, CreateEvent::Recorded(r)) => Some(CreateStep::Done(r)),
        _ => None,
    }
}

/// A session is recorded only once its file exists.
pub proof fn law_session_file_exists_before_its_record(step: CreateStep, event: CreateEvent)
    requires
        create_after(step, event) == Some(CreateStep::Record),
    ensures
        event matches CreateEvent::FileCreated(Ok(_)),
{
}

/// A session is opened under the algorithm that was asked for, where its id can be
/// a key and name a file. An id that cannot is an unknown upload, and an algorithm
/// that there is not is what the client got wrong.
pub proof fn law_session_is_opened_as_asked(
    key_valid: bool,
    algorithm: Result<DigestAlgorithm, String>,
    id_valid: bool,
    r: CreateStep,
)
    requires
        call_ensures(create_upload, (key_valid, algorithm, id_valid), r),
    ensures
        r is CreateFile <==> key_valid && id_valid && algorithm is Ok,
        r matches CreateStep::CreateFile { algorithm: under } ==> algorithm == Ok::<
            DigestAlgorithm,
            String,
        >(under),
        key_valid && algorithm is Err ==> r == CreateStep::Done(
            Err(OpsError::ManifestInvalid(algorithm->Err_0)),
        ),
        !key_valid || (algorithm is Ok && !id_valid) ==> r == CreateStep::Done(
            Err(OpsError::UploadUnknown),
        ),
{
}

/// A session whose file and record were made is open, a failure of either is what
/// opening fails with, and no outcome but a step's own leads on.
pub proof fn law_session_opens(algorithm: DigestAlgorithm, step: CreateStep, event: CreateEvent, e: OpsError)
    ensures
        create_after(CreateStep::CreateFile { algorithm }, CreateEvent::FileCreated(Ok(())))
            == Some(CreateStep::Record),
        create_after(CreateStep::Record, CreateEvent::Recorded(Ok(()))) == Some(
            CreateStep::Done(Ok(())),
        ),
        create_after(CreateStep::CreateFile { algorithm }, CreateEvent::FileCreated(Err(e)))
            == Some(CreateStep::Done(Err(e))),
        create_after(CreateStep::Record, CreateEvent::Recorded(Err(e))) == Some(
            CreateStep::Done(Err(e)),
        ),
        create_after(step, event) is Some <==> {
            ||| step is CreateFile && event is FileCreated
            ||| step is Record && event is Recorded
        },
{
}

// ---- finding -----------------------------------------------------------------

/// The session to work on, from whether the id is one and from what the record
/// of it says.
pub open spec fn session_at(
    id_valid: bool,
    found: Result<Option<u64>, OpsError>,
) -> Result<u64, OpsError> {
    if !id_valid {
        Err(OpsError::UploadUnknown)
    } else {
        match found {
            Err(e) => Err(e),
            Ok(None) => Err(OpsError::UploadUnknown),
            Ok(Some(offset)) => Ok(offset),
        }
    }
}

/// Where a session stands.
pub fn upload_offset(id_valid: bool, found: Result<Option<u64>, OpsError>) -> (r: Result<
    u64,
    OpsError,
>)
    ensures
        r == session_at(id_valid, found),
{
    if !id_valid {
        return Err(OpsError::UploadUnknown);
    }
    match found {
        Err(e) => Err(e),
        Ok(None) => Err(OpsError::UploadUnknown),
        Ok(Some(offset)) => Ok(offset),
    }
}

/// The session to continue, which must stand where the client says it does.
pub open spec fn session_for(
    id_valid: bool,
    found: Result<Option<u64>, OpsError>,
    expected: u64,
) -> Result<u64, OpsError> {
    match session_at(id_valid, found) {
        Err(e) => Err(e),
        Ok(offset) => if offset != expected {
            Err(OpsError::OffsetMismatch { current: offset })
        } else {
            Ok(offset)
        },
    }
}

/// The session to continue, which must stand where the client says it does.
///
/// Checked before the file is touched. A rejected chunk leaves the session
/// byte-identical, because the client recovers by asking for the offset and
/// retrying from it.
pub fn continue_upload(id_valid: bool, found: Result<Option<u64>, OpsError>, expected: u64) -> (r:
    Result<u64, OpsError>)
    ensures
        r == session_for(id_valid, found, expected),
{
    match upload_offset(id_valid, found) {
        Err(e) => Err(e),
        Ok(offset) => if offset != expected {
            Err(OpsError::OffsetMismatch { current: offset })
        } else {
            Ok(offset)
        },
    }
}

/// How to reopen a session's staging file: under its recorded algorithm, which
/// it was opened with and so must be one.
pub fn resume(id_valid: bool, algorithm: Result<DigestAlgorithm, String>) -> (r: Result<
    DigestAlgorithm,
    OpsError,
>)
    ensures
        r == (if !id_valid {
            Err(OpsError::UploadUnknown)
        } else {
            match algorithm {
                Ok(algorithm) => Ok(algorithm),
                Err(detail) => Err(OpsError::Internal(detail)),
            }
        }),
{
    if !id_valid {
        return Err(OpsError::UploadUnknown);
    }
    match algorithm {
        Ok(algorithm) => Ok(algorithm),
        Err(detail) => Err(OpsError::Internal(detail)),
    }
}

/// A session is found exactly where its id is one and a record of it was found,
/// and it stands where the record says.
pub proof fn law_session_stands_where_it_is_recorded(
    id_valid: bool,
    found: Result<Option<u64>, OpsError>,
    offset: u64,
)
    ensures
        session_at(id_valid, found) == Ok::<u64, OpsError>(offset) <==> id_valid && found == Ok::<
            Option<u64>,
            OpsError,
        >(Some(offset)),
        !id_valid || found == Ok::<Option<u64>, OpsError>(None) ==> session_at(id_valid, found)
            == Err::<u64, OpsError>(OpsError::UploadUnknown),
        id_valid && found is Err ==> session_at(id_valid, found) == Err::<u64, OpsError>(
            found->Err_0,
        ),
{
}

/// A session is continued exactly where it stands where the client says it does;
/// otherwise the client is told where it stands, and a session that is not found
/// is answered as such.
pub proof fn law_session_continues_where_it_stands(
    id_valid: bool,
    found: Result<Option<u64>, OpsError>,
    expected: u64,
    offset: u64,
)
    ensures
        session_for(id_valid, found, expected) == Ok::<u64, OpsError>(offset) <==> id_valid && found
            == Ok::<Option<u64>, OpsError>(Some(offset)) && offset == expected,
        id_valid && found == Ok::<Option<u64>, OpsError>(Some(offset)) && offset != expected
            ==> session_for(id_valid, found, expected) == Err::<u64, OpsError>(
            OpsError::OffsetMismatch { current: offset },
        ),
        !id_valid || found == Ok::<Option<u64>, OpsError>(None) ==> session_for(
            id_valid,
            found,
            expected,
        ) == Err::<u64, OpsError>(OpsError::UploadUnknown),
        id_valid && found is Err ==> session_for(id_valid, found, expected) == Err::<u64, OpsError>(
            found->Err_0,
        ),
{
}

/// A session is reopened under the algorithm it was opened with, and one whose
/// recorded algorithm is none is a fault of the registry, not of the client.
pub proof fn law_session_resumes_under_its_algorithm(
    id_valid: bool,
    algorithm: Result<DigestAlgorithm, String>,
    r: Result<DigestAlgorithm, OpsError>,
)
    requires
        call_ensures(resume, (id_valid, algorithm), r),
    ensures
        r is Ok <==> id_valid && algorithm is Ok,
        r matches Ok(under) ==> algorithm == Ok::<DigestAlgorithm, String>(under),
        !id_valid ==> r == Err::<DigestAlgorithm, OpsError>(OpsError::UploadUnknown),
        id_valid && algorithm is Err ==> r == Err::<DigestAlgorithm, OpsError>(
            OpsError::Internal(algorithm->Err_0),
        ),
{
}

// ---- appending ---------------------------------------------------------------

/// The next step of appending to a session.
#[derive(Debug)]
pub enum AppendStep {
    /// Reopen the staging file at this offset.
    Resume { offset: u64 },
    /// Write the body through to it.
    Drain,
    /// Take the hasher's state, the file now standing at this offset.
    Hash { offset: u64 },
    /// Record the new offset and the hasher's state.
    Save { offset: u64 },
    /// Where the session now stands, or why nothing changed.
    Done(Result<u64, OpsError>),
}

/// The outcome of a step of appending to a session.
#[derive(Debug)]
pub enum AppendEvent {
    Resumed(Result<(), OpsError>),
    /// The body is in, and the file stands at this offset.
    Drained(Result<u64, OpsError>),
    Hashed(Result<(), OpsError>),
    Saved(Result<(), OpsError>),
}

/// The first step of appending to a session.
pub fn append_upload(id_valid: bool, found: Result<Option<u64>, OpsError>, expected: u64) -> (r:
    AppendStep)
    ensures
        r == (match session_for(id_valid, found, expected) {
            Ok(offset) => AppendStep::Resume { offset },
            Err(e) => AppendStep::Done(Err(e)),
        }),
{
    match continue_upload(id_valid, found, expected) {
        Ok(offset) => AppendStep::Resume { offset },
        Err(e) => AppendStep::Done(Err(e)),
    }
}

/// The step after `step`, given its outcome.
pub open spec fn append_after(step: AppendStep, event: AppendEvent) -> Option<AppendStep> {
    match (step, event) {
        (AppendStep::Resume { .. }, AppendEvent::Resumed(Ok(()))) => Some(AppendStep::Drain),
        (AppendStep::Resume { .. }, AppendEvent::Resumed(Err(e))) => Some(AppendStep::Done(Err(e))),
        (AppendStep::Drain, AppendEvent::Drained(Ok(offset))) => Some(AppendStep::Hash { offset }),
        (AppendStep::Drain, AppendEvent::Drained(Err(e))) => Some(AppendStep::Done(Err(e))),
        (AppendStep::Hash { offset }, AppendEvent::Hashed(Ok(()))) => Some(
            AppendStep::Save { offset },
        ),
        (AppendStep::Hash { .. }, AppendEvent::Hashed(Err(e))) => Some(AppendStep::Done(Err(e))),
        (AppendStep::Save { offset }, AppendEvent::Saved(Ok(()))) => Some(
            AppendStep::Done(Ok(offset)),
        ),
        (AppendStep::Save { .. }, AppendEvent::Saved(Err(e))) => Some(AppendStep::Done(Err(e))),
        _ => None,
    }
}

/// The step after `step`, given its outcome.
///
/// If the body fails part-way the staging file is left long and the record is
/// not written, so the recorded offset is unchanged and the next resume
/// truncates the excess: the same recovery a crash would get.
pub fn append_upload_next(step: AppendStep, event: AppendEvent) -> (r: Option<AppendStep>)
    ensures
        r == append_after(step, event),
{
    match (step, event) {
        (AppendStep::Resume { .. }, AppendEvent::Resumed(Ok(()))) => Some(AppendStep::Drain),
        (AppendStep::Resume { .. }, AppendEvent::Resumed(Err(e))) => Some(AppendStep::Done(Err(e))),
        (AppendStep::Drain, AppendEvent::Drained(Ok(offset))) => Some(AppendStep::Hash { offset }),
        (AppendStep::Drain, AppendEvent::Drained(Err(e))) => Some(AppendStep::Done(Err(e))),
        (AppendStep::Hash { offset }, AppendEvent::Hashed(Ok(()))) => Some(
            AppendStep::Save { offset },
        ),
        (AppendStep::Hash { .. }, AppendEvent::Hashed(Err(e))) => Some(AppendStep::Done(Err(e))),
        (AppendStep::Save { offset }, AppendEvent::Saved(Ok(()))) => Some(
            AppendStep::Done(Ok(offset)),
        ),
        (AppendStep::Save { .. }, AppendEvent::Saved(Err(e))) => Some(AppendStep::Done(Err(e))),
        _ => None,
    }
}

/// Where an append that began with the session at `offset` stands after
/// `events`.
pub open spec fn append_run(offset: u64, events: Seq<AppendEvent>) -> Option<AppendStep>
    decreases events.len(),
{
    if events.len() == 0 {
        Some(AppendStep::Resume { offset })
    } else {
        match append_run(offset, events.drop_last()) {
            Some(step) => append_after(step, events.last()),
            None => None,
        }
    }
}

/// What must have happened for an append to stand at `step`.
spec fn append_reached(offset: u64, events: Seq<AppendEvent>, step: AppendStep) -> bool {
    let resumed = events.len() >= 1 && (events[0] matches AppendEvent::Resumed(Ok(_)));
    let drained = resumed && events.len() >= 2 && (events[1] matches AppendEvent::Drained(Ok(_)));
    let hashed = drained && events.len() >= 3 && (events[2] matches AppendEvent::Hashed(Ok(_)));
    match step {
        AppendStep::Resume { offset: at } => events.len() == 0 && at == offset,
        AppendStep::Drain => events.len() == 1 && resumed,
        AppendStep::Hash { offset: at } => events.len() == 2 && resumed && events[1]
            == AppendEvent::Drained(Ok(at)),
        AppendStep::Save { offset: at } => events.len() == 3 && hashed && events[1]
            == AppendEvent::Drained(Ok(at)),
        AppendStep::Done(Ok(at)) => events.len() == 4 && hashed && events[1]
            == AppendEvent::Drained(Ok(at)) && (events[3] matches AppendEvent::Saved(Ok(_))),
        AppendStep::Done(Err(e)) => {
            ||| events.len() == 1 && events[0] == AppendEvent::Resumed(Err(e))
            ||| events.len() == 2 && resumed && events[1] == AppendEvent::Drained(Err(e))
            ||| events.len() == 3 && drained && events[2] == AppendEvent::Hashed(Err(e))
            ||| events.len() == 4 && hashed && events[3] == AppendEvent::Saved(Err(e))
        },
    }
}

proof fn lemma_append_reached(offset: u64, events: Seq<AppendEvent>)
    ensures
        append_run(offset, events) matches Some(step) ==> append_reached(offset, events, step),
    decreases events.len(),
{
    if events.len() > 0 {
        let before = events.drop_last();
        lemma_append_reached(offset, before);
        assert(before.len() > 0 ==> before[0] == events[0]);
        assert(before.len() > 1 ==> before[1] == events[1]);
        assert(before.len() > 2 ==> before[2] == events[2]);
        assert(before.len() > 3 ==> before[3] == events[3]);
        assert(events.last() == events[events.len() - 1]);
    }
}

/// An offset is recorded only once the bytes it describes are in the file, and
/// it is the offset they reached.
pub proof fn law_bytes_land_before_their_offset(offset: u64, events: Seq<AppendEvent>, saved: u64)
    requires
        append_run(offset, events) == Some(AppendStep::Save { offset: saved }),
    ensures
        events.len() == 3,
        events[1] == AppendEvent::Drained(Ok(saved)),
{
    lemma_append_reached(offset, events);
}

/// A chunk that does not start where the session stands is refused before the
/// file is touched, and told where the session stands; so is one whose body
/// failed, and neither reaches the record.
pub proof fn law_rejected_chunk_changes_nothing(
    id_valid: bool,
    found: Result<Option<u64>, OpsError>,
    expected: u64,
    offset: u64,
    events: Seq<AppendEvent>,
    e: OpsError,
)
    ensures
        id_valid && found == Ok::<Option<u64>, OpsError>(Some(offset)) && offset != expected
            ==> session_for(id_valid, found, expected) == Err::<u64, OpsError>(
            OpsError::OffsetMismatch { current: offset },
        ),
        events.len() >= 2 && events[1] == AppendEvent::Drained(Err(e)) && append_run(offset, events) is Some
            ==> events.len() == 2 && append_run(offset, events) == Some(AppendStep::Done(Err(e))),
{
    lemma_append_reached(offset, events);
}

/// An append that ends in an error has recorded no offset, wherever it failed:
/// the session stands where it stood.
pub proof fn law_failed_append_records_nothing(offset: u64, events: Seq<AppendEvent>)
    requires
        append_run(offset, events) matches Some(AppendStep::Done(Err(_))),
    ensures
        forall|i: int|
            0 <= i < events.len() ==> !(#[trigger] events[i] matches AppendEvent::Saved(Ok(_))),
{
    lemma_append_reached(offset, events);
}

/// An append begins by reopening the file where the session stands, and only where
/// the client says it stands there.
pub proof fn law_append_begins_where_the_session_stands(
    id_valid: bool,
    found: Result<Option<u64>, OpsError>,
    expected: u64,
    r: AppendStep,
)
    requires
        call_ensures(append_upload, (id_valid, found, expected), r),
    ensures
        r == (AppendStep::Resume { offset: expected }) <==> id_valid && found == Ok::<
            Option<u64>,
            OpsError,
        >(Some(expected)),
        r == (AppendStep::Resume { offset: expected }) || (r matches AppendStep::Done(Err(e)) && session_for(
            id_valid,
            found,
            expected,
        ) == Err::<u64, OpsError>(e)),
{
}

/// An outcome is followed by a step exactly where it is the outcome of the step
/// that was taken: an append never stands still on its way.
pub proof fn law_append_goes_on_from_its_own_outcome(step: AppendStep, event: AppendEvent)
    ensures
        append_after(step, event) is Some <==> {
            ||| step is Resume && event is Resumed
            ||| step is Drain && event is Drained
            ||| step is Hash && event is Hashed
            ||| step is Save && event is Saved
        },
{
}

/// An append whose every step succeeds records the offset that its bytes reached,
/// and answers with it.
pub proof fn law_append_reaches_what_was_written(offset: u64, reached: u64)
    ensures
        append_run(offset, Seq::empty()) == Some(AppendStep::Resume { offset }),
        append_run(offset, seq![AppendEvent::Resumed(Ok(()))]) == Some(AppendStep::Drain),
        append_run(
            offset,
            seq![AppendEvent::Resumed(Ok(())), AppendEvent::Drained(Ok(reached))],
        ) == Some(AppendStep::Hash { offset: reached }),
        append_run(
            offset,
            seq![
                AppendEvent::Resumed(Ok(())),
                AppendEvent::Drained(Ok(reached)),
                AppendEvent::Hashed(Ok(())),
            ],
        ) == Some(AppendStep::Save { offset: reached }),
        append_run(
            offset,
            seq![
                AppendEvent::Resumed(Ok(())),
                AppendEvent::Drained(Ok(reached)),
                AppendEvent::Hashed(Ok(())),
                AppendEvent::Saved(Ok(())),
            ],
        ) == Some(AppendStep::Done(Ok(reached))),
{
    reveal_with_fuel(append_run, 5);
    let resumed = seq![AppendEvent::Resumed(Ok(()))];
    let drained = resumed.push(AppendEvent::Drained(Ok(reached)));
    let hashed = drained.push(AppendEvent::Hashed(Ok(())));
    let saved = hashed.push(AppendEvent::Saved(Ok(())));
    assert(resumed.drop_last() =~= Seq::empty());
    assert(drained.drop_last() =~= resumed);
    assert(hashed.drop_last() =~= drained);
    assert(saved.drop_last() =~= hashed);
    assert(seq![AppendEvent::Resumed(Ok(())), AppendEvent::Drained(Ok(reached))] =~= drained);
    assert(seq![
        AppendEvent::Resumed(Ok(())),
        AppendEvent::Drained(Ok(reached)),
        AppendEvent::Hashed(Ok(())),
    ] =~= hashed);
    assert(seq![
        AppendEvent::Resumed(Ok(())),
        AppendEvent::Drained(Ok(reached)),
        AppendEvent::Hashed(Ok(())),
        AppendEvent::Saved(Ok(())),
    ] =~= saved);
}

/// An append that a step fails is over at once, with the error of that step.
pub proof fn law_append_fails_with_the_error_it_met(
    step: AppendStep,
    event: AppendEvent,
    e: OpsError,
)
    requires
        ({
            ||| step is Resume && event == AppendEvent::Resumed(Err(e))
            ||| step is Drain && event == AppendEvent::Drained(Err(e))
            ||| step is Hash && event == AppendEvent::Hashed(Err(e))
            ||| step is Save && event == AppendEvent::Saved(Err(e))
        }),
    ensures
        append_after(step, event) == Some(AppendStep::Done(Err(e))),
{
}

// ---- closing -----------------------------------------------------------------

/// The next step of closing a session.
#[derive(Debug)]
pub enum FinishStep {
    /// Reopen the staging file at this offset.
    Resume { offset: u64 },
    /// Hash what is staged under the closing digest's algorithm. A session opened
    /// without naming one hashes under the default, and a client that closes it
    /// with another is not to be blamed for content that is good.
    Rehash,
    /// Write the closing body through to the file.
    Drain,
    /// Seal the file under the digest, checked against the bytes.
    Commit,
    /// In one batch, record the blob of this size and retire the session: two
    /// would leave a window in which the blob is servable and its upload could
    /// still be resumed onto.
    Apply { size: u64 },
    /// The session is closed, or why it still stands.
    Done(Result<(), OpsError>),
}

/// The outcome of a step of closing a session.
#[derive(Debug)]
pub enum FinishEvent {
    Resumed(Result<(), OpsError>),
    Rehashed(Result<(), OpsError>),
    Drained(Result<u64, OpsError>),
    Committed(Result<u64, OpsError>),
    Applied(Result<(), OpsError>),
}

/// The first step of closing a session.
pub fn finish_upload(id_valid: bool, found: Result<Option<u64>, OpsError>, expected: u64) -> (r:
    FinishStep)
    ensures
        r == (match session_for(id_valid, found, expected) {
            Ok(offset) => FinishStep::Resume { offset },
            Err(e) => FinishStep::Done(Err(e)),
        }),
{
    match continue_upload(id_valid, found, expected) {
        Ok(offset) => FinishStep::Resume { offset },
        Err(e) => FinishStep::Done(Err(e)),
    }
}

/// The step after `step`, given its outcome.
pub open spec fn finish_after(step: FinishStep, event: FinishEvent) -> Option<FinishStep> {
    match (step, event) {
        (FinishStep::Resume { .. }, FinishEvent::Resumed(Ok(()))) => Some(FinishStep::Rehash),
        (FinishStep::Resume { .. }, FinishEvent::Resumed(Err(e))) => Some(FinishStep::Done(Err(e))),
        (FinishStep::Rehash, FinishEvent::Rehashed(Ok(()))) => Some(FinishStep::Drain),
        (FinishStep::Rehash, FinishEvent::Rehashed(Err(e))) => Some(FinishStep::Done(Err(e))),
        (FinishStep::Drain, FinishEvent::Drained(Ok(_))) => Some(FinishStep::Commit),
        (FinishStep::Drain, FinishEvent::Drained(Err(e))) => Some(FinishStep::Done(Err(e))),
        (FinishStep::Commit, FinishEvent::Committed(Ok(size))) => Some(FinishStep::Apply { size }),
        (FinishStep::Commit, FinishEvent::Committed(Err(e))) => Some(FinishStep::Done(Err(e))),
        (FinishStep::Apply { .. }, FinishEvent::Applied(r)) => Some(FinishStep::Done(r)),
        _ => None,
    }
}

/// The step after `step`, given its outcome.
pub fn finish_upload_next(step: FinishStep, event: FinishEvent) -> (r: Option<FinishStep>)
    ensures
        r == finish_after(step, event),
{
    match (step, event) {
        (FinishStep::Resume { .. }, FinishEvent::Resumed(Ok(()))) => Some(FinishStep::Rehash),
        (FinishStep::Resume { .. }, FinishEvent::Resumed(Err(e))) => Some(FinishStep::Done(Err(e))),
        (FinishStep::Rehash, FinishEvent::Rehashed(Ok(()))) => Some(FinishStep::Drain),
        (FinishStep::Rehash, FinishEvent::Rehashed(Err(e))) => Some(FinishStep::Done(Err(e))),
        (FinishStep::Drain, FinishEvent::Drained(Ok(_))) => Some(FinishStep::Commit),
        (FinishStep::Drain, FinishEvent::Drained(Err(e))) => Some(FinishStep::Done(Err(e))),
        (FinishStep::Commit, FinishEvent::Committed(Ok(size))) => Some(FinishStep::Apply { size }),
        (FinishStep::Commit, FinishEvent::Committed(Err(e))) => Some(FinishStep::Done(Err(e))),
        (FinishStep::Apply { .. }, FinishEvent::Applied(r)) => Some(FinishStep::Done(r)),
        _ => None,
    }
}

/// Where a close that began with the session at `offset` stands after `events`.
pub open spec fn finish_run(offset: u64, events: Seq<FinishEvent>) -> Option<FinishStep>
    decreases events.len(),
{
    if events.len() == 0 {
        Some(FinishStep::Resume { offset })
    } else {
        match finish_run(offset, events.drop_last()) {
            Some(step) => finish_after(step, events.last()),
            None => None,
        }
    }
}

/// What must have happened for a close to stand at `step`.
spec fn finish_reached(offset: u64, events: Seq<FinishEvent>, step: FinishStep) -> bool {
    let resumed = events.len() >= 1 && (events[0] matches FinishEvent::Resumed(Ok(_)));
    let rehashed = resumed && events.len() >= 2 && (events[1] matches FinishEvent::Rehashed(Ok(_)));
    let drained = rehashed && events.len() >= 3 && (events[2] matches FinishEvent::Drained(Ok(_)));
    let sealed = drained && events.len() >= 4 && (events[3] matches FinishEvent::Committed(Ok(_)));
    match step {
        FinishStep::Resume { offset: at } => events.len() == 0 && at == offset,
        FinishStep::Rehash => events.len() == 1 && resumed,
        FinishStep::Drain => events.len() == 2 && rehashed,
        FinishStep::Commit => events.len() == 3 && drained,
        FinishStep::Apply { size } => events.len() == 4 && drained && events[3]
            == FinishEvent::Committed(Ok(size)),
        FinishStep::Done(Ok(_)) => events.len() == 5 && sealed && (
        events[4] matches FinishEvent::Applied(Ok(_))),
        FinishStep::Done(Err(e)) => {
            ||| events.len() == 1 && events[0] == FinishEvent::Resumed(Err(e))
            ||| events.len() == 2 && resumed && events[1] == FinishEvent::Rehashed(Err(e))
            ||| events.len() == 3 && rehashed && events[2] == FinishEvent::Drained(Err(e))
            ||| events.len() == 4 && drained && events[3] == FinishEvent::Committed(Err(e))
            ||| events.len() == 5 && sealed && events[4] == FinishEvent::Applied(Err(e))
        },
    }
}

proof fn lemma_finish_reached(offset: u64, events: Seq<FinishEvent>)
    ensures
        finish_run(offset, events) matches Some(step) ==> finish_reached(offset, events, step),
    decreases events.len(),
{
    if events.len() > 0 {
        let before = events.drop_last();
        lemma_finish_reached(offset, before);
        assert(before.len() > 0 ==> before[0] == events[0]);
        assert(before.len() > 1 ==> before[1] == events[1]);
        assert(before.len() > 2 ==> before[2] == events[2]);
        assert(before.len() > 3 ==> before[3] == events[3]);
        assert(before.len() > 4 ==> before[4] == events[4]);
        assert(events.last() == events[events.len() - 1]);
    }
}

/// A blob is recorded and its session retired only after the bytes were sealed
/// under the digest, with the size that was sealed.
pub proof fn law_upload_bytes_land_before_metadata(offset: u64, events: Seq<FinishEvent>, size: u64)
    requires
        finish_run(offset, events) == Some(FinishStep::Apply { size }),
    ensures
        events.len() == 4,
        events[2] matches FinishEvent::Drained(Ok(_)),
        events[3] == FinishEvent::Committed(Ok(size)),
{
    lemma_finish_reached(offset, events);
}

/// A close that fails anywhere before the batch, a digest mismatch among it,
/// leaves the session standing: the batch that retires it is never applied.
pub proof fn law_failed_close_keeps_the_session(offset: u64, events: Seq<FinishEvent>)
    requires
        finish_run(offset, events) matches Some(FinishStep::Done(Err(_))),
        events.len() < 5,
    ensures
        forall|k: int|
            0 <= k <= events.len() ==> !(#[trigger] finish_run(offset, events.take(k)) matches Some(
                FinishStep::Apply { .. },
            )),
{
    lemma_finish_reached(offset, events);
    assert forall|k: int| 0 <= k <= events.len() implies !(#[trigger] finish_run(
        offset,
        events.take(k),
    ) matches Some(FinishStep::Apply { .. })) by {
        lemma_finish_reached(offset, events.take(k));
        if finish_run(offset, events.take(k)) matches Some(FinishStep::Apply { .. }) {
            assert(events.take(k) =~= events);
        }
    }
}

/// A close that ends in an error, wherever it failed, has applied no batch: the
/// blob is not recorded and the session is not retired. One that succeeds has
/// applied the batch, after the bytes were sealed under the digest.
pub proof fn law_close_is_all_or_nothing(offset: u64, events: Seq<FinishEvent>)
    ensures
        finish_run(offset, events) matches Some(FinishStep::Done(Err(_))) ==> forall|i: int|
            0 <= i < events.len() ==> !(#[trigger] events[i] matches FinishEvent::Applied(Ok(_))),
        finish_run(offset, events) matches Some(FinishStep::Done(Ok(_))) ==> events.len() == 5 && (
        events[3] matches FinishEvent::Committed(Ok(_))) && (
        events[4] matches FinishEvent::Applied(Ok(_))),
{
    lemma_finish_reached(offset, events);
}

/// The verdict on the bytes is the verdict on the close: where they do not hash to
/// the digest, the close ends with that and goes no further.
pub proof fn law_digest_mismatch_ends_the_close(offset: u64, events: Seq<FinishEvent>, e: OpsError)
    requires
        events.len() >= 4,
        events[3] == FinishEvent::Committed(Err(e)),
        finish_run(offset, events) is Some,
    ensures
        events.len() == 4,
        finish_run(offset, events) == Some(FinishStep::Done(Err(e))),
{
    lemma_finish_reached(offset, events);
    if events.len() == 4 {
        lemma_finish_reached(offset, events.drop_last());
    }
}

/// A close begins by reopening the file where the session stands, and only where
/// the client says it stands there.
pub proof fn law_close_begins_where_the_session_stands(
    id_valid: bool,
    found: Result<Option<u64>, OpsError>,
    expected: u64,
    r: FinishStep,
)
    requires
        call_ensures(finish_upload, (id_valid, found, expected), r),
    ensures
        r == (FinishStep::Resume { offset: expected }) <==> id_valid && found == Ok::<
            Option<u64>,
            OpsError,
        >(Some(expected)),
        r == (FinishStep::Resume { offset: expected }) || (r matches FinishStep::Done(Err(e)) && session_for(
            id_valid,
            found,
            expected,
        ) == Err::<u64, OpsError>(e)),
{
}

/// An outcome is followed by a step exactly where it is the outcome of the step
/// that was taken: a close never stands still on its way.
pub proof fn law_close_goes_on_from_its_own_outcome(step: FinishStep, event: FinishEvent)
    ensures
        finish_after(step, event) is Some <==> {
            ||| step is Resume && event is Resumed
            ||| step is Rehash && event is Rehashed
            ||| step is Drain && event is Drained
            ||| step is Commit && event is Committed
            ||| step is Apply && event is Applied
        },
{
}

/// A close whose every step succeeds records the blob with the size that was
/// sealed and retires the session, and that is a success.
pub proof fn law_close_lands(offset: u64, counted: u64, size: u64)
    ensures
        finish_run(offset, Seq::empty()) == Some(FinishStep::Resume { offset }),
        finish_run(offset, seq![FinishEvent::Resumed(Ok(()))]) == Some(FinishStep::Rehash),
        finish_run(offset, seq![FinishEvent::Resumed(Ok(())), FinishEvent::Rehashed(Ok(()))])
            == Some(FinishStep::Drain),
        finish_run(
            offset,
            seq![
                FinishEvent::Resumed(Ok(())),
                FinishEvent::Rehashed(Ok(())),
                FinishEvent::Drained(Ok(counted)),
            ],
        ) == Some(FinishStep::Commit),
        finish_run(
            offset,
            seq![
                FinishEvent::Resumed(Ok(())),
                FinishEvent::Rehashed(Ok(())),
                FinishEvent::Drained(Ok(counted)),
                FinishEvent::Committed(Ok(size)),
            ],
        ) == Some(FinishStep::Apply { size }),
        finish_run(
            offset,
            seq![
                FinishEvent::Resumed(Ok(())),
                FinishEvent::Rehashed(Ok(())),
                FinishEvent::Drained(Ok(counted)),
                FinishEvent::Committed(Ok(size)),
                FinishEvent::Applied(Ok(())),
            ],
        ) == Some(FinishStep::Done(Ok(()))),
{
    reveal_with_fuel(finish_run, 6);
    let resumed = seq![FinishEvent::Resumed(Ok(()))];
    let rehashed = resumed.push(FinishEvent::Rehashed(Ok(())));
    let drained = rehashed.push(FinishEvent::Drained(Ok(counted)));
    let sealed = drained.push(FinishEvent::Committed(Ok(size)));
    let applied = sealed.push(FinishEvent::Applied(Ok(())));
    assert(resumed.drop_last() =~= Seq::empty());
    assert(rehashed.drop_last() =~= resumed);
    assert(drained.drop_last() =~= rehashed);
    assert(sealed.drop_last() =~= drained);
    assert(applied.drop_last() =~= sealed);
    assert(seq![FinishEvent::Resumed(Ok(())), FinishEvent::Rehashed(Ok(()))] =~= rehashed);
    assert(seq![
        FinishEvent::Resumed(Ok(())),
        FinishEvent::Rehashed(Ok(())),
        FinishEvent::Drained(Ok(counted)),
    ] =~= drained);
    assert(seq![
        FinishEvent::Resumed(Ok(())),
        FinishEvent::Rehashed(Ok(())),
        FinishEvent::Drained(Ok(counted)),
        FinishEvent::Committed(Ok(size)),
    ] =~= sealed);
    assert(seq![
        FinishEvent::Resumed(Ok(())),
        FinishEvent::Rehashed(Ok(())),
        FinishEvent::Drained(Ok(counted)),
        FinishEvent::Committed(Ok(size)),
        FinishEvent::Applied(Ok(())),
    ] =~= applied);
}

/// A close that a step fails is over at once, with the error of that step.
pub proof fn law_close_fails_with_the_error_it_met(
    step: FinishStep,
    event: FinishEvent,
    e: OpsError,
)
    requires
        ({
            ||| step is Resume && event == FinishEvent::Resumed(Err(e))
            ||| step is Rehash && event == FinishEvent::Rehashed(Err(e))
            ||| step is Drain && event == FinishEvent::Drained(Err(e))
            ||| step is Commit && event == FinishEvent::Committed(Err(e))
            ||| step is Apply && event == FinishEvent::Applied(Err(e))
        }),
    ensures
        finish_after(step, event) == Some(FinishStep::Done(Err(e))),
{
}

// ---- cancelling --------------------------------------------------------------

/// The next step of cancelling a session.
#[derive(Debug)]
pub enum CancelStep {
    /// Delete the record. First this time: it is what makes the upload findable,
    /// and an orphaned staging file is garbage rather than a dangling reference.
    DeleteRecord,
    /// Remove the staging file.
    RemoveFile,
    /// The session is gone, or why it is not.
    Done(Result<(), OpsError>),
}

/// The outcome of a step of cancelling a session.
#[derive(Debug)]
pub enum CancelEvent {
    RecordDeleted(Result<(), OpsError>),
    FileRemoved(Result<(), OpsError>),
}

/// The first step of cancelling a session.
pub fn cancel_upload(id_valid: bool, found: Result<Option<u64>, OpsError>) -> (r: CancelStep)
    ensures
        r == (match session_at(id_valid, found) {
            Ok(_) => CancelStep::DeleteRecord,
            Err(e) => CancelStep::Done(Err(e)),
        }),
{
    match upload_offset(id_valid, found) {
        Ok(_) => CancelStep::DeleteRecord,
        Err(e) => CancelStep::Done(Err(e)),
    }
}

/// The step after `step`, given its outcome.
pub open spec fn cancel_after(step: CancelStep, event: CancelEvent) -> Option<CancelStep> {
    match (step, event) {
        (CancelStep::DeleteRecord, CancelEvent::RecordDeleted(Ok(()))) => Some(
            CancelStep::RemoveFile,
        ),
        (CancelStep::DeleteRecord, CancelEvent::RecordDeleted(Err(e))) => Some(
            CancelStep::Done(Err(e)),
        ),
        (CancelStep::RemoveFile, CancelEvent::FileRemoved(r)) => Some(CancelStep::Done(r)),
        _ => None,
    }
}

/// The step after `step`, given its outcome.
pub fn cancel_upload_next(step: CancelStep, event: CancelEvent) -> (r: Option<CancelStep>)
    ensures
        r == cancel_after(step, event),
{
    match (step, event) {
        (CancelStep::DeleteRecord, CancelEvent::RecordDeleted(Ok(()))) => Some(
            CancelStep::RemoveFile,
        ),
        (CancelStep::DeleteRecord, CancelEvent::RecordDeleted(Err(e))) => Some(
            CancelStep::Done(Err(e)),
        ),
        (CancelStep::RemoveFile, CancelEvent::FileRemoved(r)) => Some(CancelStep::Done(r)),
        _ => None,
    }
}

/// A session's file is removed only once nothing records the session.
pub proof fn law_record_goes_before_the_file(step: CancelStep, event: CancelEvent)
    requires
        cancel_after(step, event) == Some(CancelStep::RemoveFile),
    ensures
        event matches CancelEvent::RecordDeleted(Ok(_)),
{
}

/// A session that is found is cancelled, its record first and then its file; one
/// that is not found is answered as such; a failure of either is what cancelling
/// fails with; and no outcome but a step's own leads on.
pub proof fn law_session_is_cancelled(
    id_valid: bool,
    found: Result<Option<u64>, OpsError>,
    r: CancelStep,
    step: CancelStep,
    event: CancelEvent,
    e: OpsError,
)
    requires
        call_ensures(cancel_upload, (id_valid, found), r),
    ensures
        r is DeleteRecord <==> id_valid && (found matches Ok(Some(_))),
        r is DeleteRecord || (r matches CancelStep::Done(Err(refused)) && session_at(id_valid, found)
            == Err::<u64, OpsError>(refused)),
        cancel_after(CancelStep::DeleteRecord, CancelEvent::RecordDeleted(Ok(()))) == Some(
            CancelStep::RemoveFile,
        ),
        cancel_after(CancelStep::RemoveFile, CancelEvent::FileRemoved(Ok(()))) == Some(
            CancelStep::Done(Ok(())),
        ),
        cancel_after(CancelStep::DeleteRecord, CancelEvent::RecordDeleted(Err(e))) == Some(
            CancelStep::Done(Err(e)),
        ),
        cancel_after(CancelStep::RemoveFile, CancelEvent::FileRemoved(Err(e))) == Some(
            CancelStep::Done(Err(e)),
        ),
        cancel_after(step, event) is Some <==> {
            ||| step is DeleteRecord && event is RecordDeleted
            ||| step is RemoveFile && event is FileRemoved
        },
{
}

} // verus!
