//! Opening a registry's directory.

use vstd::prelude::*;
use vstd::string::*;

use crate::backend::Engine;
use crate::text;

verus! {

/// The next step of opening a registry.
#[derive(Debug, Clone, Copy, PartialEq, Eq, Structural)]
pub enum OpenStep {
    /// Create the metadata directory.
    CreateMetaDir,
    /// Look for a store that only another engine can read.
    LookForRedb,
    /// Open the engine.
    OpenEngine,
    /// Stamp or check the schema version.
    OpenMetadata,
    /// Open the blob store.
    OpenBlobs,
    /// Everything is open.
    Ready,
}

/// The outcome of a step of opening a registry.
#[derive(Debug)]
pub enum OpenEvent {
    /// The directory as it is shown to an operator, and how creating it went.
    MetaDir { shown: String, outcome: Result<(), String> },
    /// Where a stranded store would be, and whether there is one.
    Looked { stranded: String, exists: bool },
    Engine(Result<(), String>),
    Metadata(Result<(), String>),
    Blobs(Result<(), String>),
}

/// The complaint about a stranded store.
pub open spec fn stranded_text(stranded: Seq<char>) -> Seq<char> {
    stranded
        + " is a redb metadata store, which this build cannot open - redb was a verification engine and `--engine` no longer exists. Opening RocksDB here would start an empty registry beside your metadata, so nothing has been opened. Move that file aside to start fresh in this directory."@
}

/// Refuse to open RocksDB in a directory that holds a redb store.
///
/// That operator's metadata is in the file, not in the store this would
/// otherwise create beside it and stamp as a fresh, empty registry. The blobs
/// would all still be on disk, unreferenced and unreachable, which is the
/// quietest way there is to appear to have lost a registry.
pub fn refuse_stranded_redb(stranded: &str, exists: bool) -> (r: Result<(), String>)
    ensures
        match r {
            Ok(()) => !exists,
            Err(e) => exists && e@ == stranded_text(stranded@),
        },
{
    if exists {
        let mut e = text::copy(stranded);
        e.append(
            " is a redb metadata store, which this build cannot open - redb was a verification engine and `--engine` no longer exists. Opening RocksDB here would start an empty registry beside your metadata, so nothing has been opened. Move that file aside to start fresh in this directory.",
        );
        return Err(e);
    }
    Ok(())
}

/// A failure, and what was being done.
pub open spec fn while_doing(doing: Seq<char>, e: Seq<char>) -> Seq<char> {
    doing + ": "@ + e
}

fn during(doing: &str, e: &str) -> (r: String)
    ensures
        r@ == while_doing(doing@, e@),
{
    let mut r = text::copy(doing);
    r.append(": ");
    r.append(e);
    r
}

/// What an engine is called when it cannot be opened.
pub open spec fn engine_doing(engine: Engine) -> Seq<char> {
    match engine {
        Engine::Rocks => "opening RocksDB"@,
        Engine::Redb => "opening redb"@,
    }
}

/// The step after `step`, or the message that opening failed with. Nothing
/// follows an outcome that is not the step's own.
pub open spec fn open_after(engine: Engine, step: OpenStep, event: OpenEvent) -> Option<
    Result<OpenStep, Seq<char>>,
> {
    match (step, event) {
        (OpenStep::CreateMetaDir, OpenEvent::MetaDir { shown, outcome }) => Some(
            match outcome {
                Ok(()) => Ok(
                    if engine == Engine::Rocks {
                        OpenStep::LookForRedb
                    } else {
                        OpenStep::OpenEngine
                    },
                ),
                Err(e) => Err(while_doing("creating "@ + shown@, e@)),
            },
        ),
        (OpenStep::LookForRedb, OpenEvent::Looked { stranded, exists }) => Some(
            if exists {
                Err(stranded_text(stranded@))
            } else {
                Ok(OpenStep::OpenEngine)
            },
        ),
        (OpenStep::OpenEngine, OpenEvent::Engine(outcome)) => Some(
            match outcome {
                Ok(()) => Ok(OpenStep::OpenMetadata),
                Err(e) => Err(while_doing(engine_doing(engine), e@)),
            },
        ),
        (OpenStep::OpenMetadata, OpenEvent::Metadata(outcome)) => Some(
            match outcome {
                Ok(()) => Ok(OpenStep::OpenBlobs),
                Err(e) => Err(while_doing("opening metadata store"@, e@)),
            },
        ),
        (OpenStep::OpenBlobs, OpenEvent::Blobs(outcome)) => Some(
            match outcome {
                Ok(()) => Ok(OpenStep::Ready),
                Err(e) => Err(while_doing("opening blob store"@, e@)),
            },
        ),
        _ => None,
    }
}

/// The view of a step or a message.
pub open spec fn step_view(r: Option<Result<OpenStep, String>>) -> Option<
    Result<OpenStep, Seq<char>>,
> {
    match r {
        None => None,
        Some(Ok(step)) => Some(Ok(step)),
        Some(Err(e)) => Some(Err(e@)),
    }
}

/// The step after `step`, or the message that opening failed with.
pub fn open_next(engine: Engine, step: OpenStep, event: OpenEvent) -> (r: Option<
    Result<OpenStep, String>,
>)
    ensures
        step_view(r) == open_after(engine, step, event),
{
    match (step, event) {
        (OpenStep::CreateMetaDir, OpenEvent::MetaDir { shown, outcome }) => Some(
            match outcome {
                Ok(()) => match engine {
                    Engine::Rocks => Ok(OpenStep::LookForRedb),
                    Engine::Redb => Ok(OpenStep::OpenEngine),
                },
                Err(e) => {
                    let mut doing = text::copy("creating ");
                    doing.append(shown.as_str());
                    Err(during(doing.as_str(), e.as_str()))
                },
            },
        ),
        (OpenStep::LookForRedb, OpenEvent::Looked { stranded, exists }) => Some(
            match refuse_stranded_redb(stranded.as_str(), exists) {
                Ok(()) => Ok(OpenStep::OpenEngine),
                Err(e) => Err(e),
            },
        ),
        (OpenStep::OpenEngine, OpenEvent::Engine(outcome)) => Some(
            match outcome {
                Ok(()) => Ok(OpenStep::OpenMetadata),
                Err(e) => Err(
                    during(
                        match engine {
                            Engine::Rocks => "opening RocksDB",
                            Engine::Redb => "opening redb",
                        },
                        e.as_str(),
                    ),
                ),
            },
        ),
        (OpenStep::OpenMetadata, OpenEvent::Metadata(outcome)) => Some(
            match outcome {
                Ok(()) => Ok(OpenStep::OpenBlobs),
                Err(e) => Err(during("opening metadata store", e.as_str())),
            },
        ),
        (OpenStep::OpenBlobs, OpenEvent::Blobs(outcome)) => Some(
            match outcome {
                Ok(()) => Ok(OpenStep::Ready),
                Err(e) => Err(during("opening blob store", e.as_str())),
            },
        ),
        _ => None,
    }
}

/// Where opening stands after `events`.
pub open spec fn open_run(engine: Engine, events: Seq<OpenEvent>) -> Option<
    Result<OpenStep, Seq<char>>,
>
    decreases events.len(),
{
    if events.len() == 0 {
        Some(Ok(OpenStep::CreateMetaDir))
    } else {
        match open_run(engine, events.drop_last()) {
            Some(Ok(step)) => open_after(engine, step, events.last()),
            _ => None,
        }
    }
}

/// RocksDB is opened only where a stranded store was looked for and was not
/// there.
pub proof fn law_no_store_is_opened_beside_a_stranded_one(events: Seq<OpenEvent>)
    requires
        open_run(Engine::Rocks, events) == Some(Ok::<OpenStep, Seq<char>>(OpenStep::OpenEngine)),
    ensures
        events.len() == 2,
        events[1] matches OpenEvent::Looked { stranded, exists } && !exists,
{
    let before = events.drop_last();
    assert(events.last() == events[events.len() - 1]);
    lemma_look_is_second(before);
}

proof fn lemma_look_is_second(events: Seq<OpenEvent>)
    requires
        open_run(Engine::Rocks, events) == Some(Ok::<OpenStep, Seq<char>>(OpenStep::LookForRedb)),
    ensures
        events.len() == 1,
{
    if events.len() > 1 {
        let before = events.drop_last();
        lemma_start_is_first(before);
    }
}

proof fn lemma_start_is_first(events: Seq<OpenEvent>)
    requires
        events.len() > 0,
    ensures
        open_run(Engine::Rocks, events) != Some(
            Ok::<OpenStep, Seq<char>>(OpenStep::CreateMetaDir),
        ),
{
}

/// An outcome is followed by a step or a failure exactly where it is the outcome
/// of the step that was taken: opening never stands still on its way.
pub proof fn law_opening_goes_on_from_its_own_outcome(
    engine: Engine,
    step: OpenStep,
    event: OpenEvent,
)
    ensures
        open_after(engine, step, event) is Some <==> {
            ||| step == OpenStep::CreateMetaDir && event is MetaDir
            ||| step == OpenStep::LookForRedb && event is Looked
            ||| step == OpenStep::OpenEngine && event is Engine
            ||| step == OpenStep::OpenMetadata && event is Metadata
            ||| step == OpenStep::OpenBlobs && event is Blobs
        },
{
}

/// A registry whose every part opens is ready: the directory, the engine, the
/// metadata and the blobs, with the look for a stranded store before the engine
/// where that engine is RocksDB.
pub proof fn law_registry_opens(shown: String, stranded: String)
    ensures
        ({
            let made = OpenEvent::MetaDir { shown, outcome: Ok(()) };
            let looked = OpenEvent::Looked { stranded, exists: false };
            let engine = OpenEvent::Engine(Ok(()));
            let metadata = OpenEvent::Metadata(Ok(()));
            let blobs = OpenEvent::Blobs(Ok(()));
            &&& open_run(Engine::Rocks, seq![made, looked, engine, metadata, blobs]) == Some(
                Ok::<OpenStep, Seq<char>>(OpenStep::Ready),
            )
            &&& open_run(Engine::Redb, seq![made, engine, metadata, blobs]) == Some(
                Ok::<OpenStep, Seq<char>>(OpenStep::Ready),
            )
        }),
{
    reveal_with_fuel(open_run, 6);
    let made = OpenEvent::MetaDir { shown, outcome: Ok(()) };
    let looked = OpenEvent::Looked { stranded, exists: false };
    let engine = OpenEvent::Engine(Ok(()));
    let metadata = OpenEvent::Metadata(Ok(()));
    let blobs = OpenEvent::Blobs(Ok(()));
    let a = seq![made];
    assert(a.drop_last() =~= Seq::empty());
    let b = a.push(looked);
    let c = b.push(engine);
    let d = c.push(metadata);
    let e = d.push(blobs);
    assert(b.drop_last() =~= a && c.drop_last() =~= b && d.drop_last() =~= c && e.drop_last()
        =~= d);
    assert(seq![made, looked, engine, metadata, blobs] =~= e);
    let f = a.push(engine);
    let g = f.push(metadata);
    let h = g.push(blobs);
    assert(f.drop_last() =~= a && g.drop_last() =~= f && h.drop_last() =~= g);
    assert(seq![made, engine, metadata, blobs] =~= h);
}

/// Opening fails where a part of it failed, with a message that names what was
/// being done and ends with what went wrong.
pub proof fn law_opening_fails_as_its_part_did(engine: Engine, shown: String, e: String)
    ensures
        open_after(
            engine,
            OpenStep::CreateMetaDir,
            OpenEvent::MetaDir { shown, outcome: Err(e) },
        ) == Some(Err::<OpenStep, Seq<char>>("creating "@ + shown@ + ": "@ + e@)),
        open_after(Engine::Rocks, OpenStep::OpenEngine, OpenEvent::Engine(Err(e))) == Some(
            Err::<OpenStep, Seq<char>>("opening RocksDB"@ + ": "@ + e@),
        ),
        open_after(Engine::Redb, OpenStep::OpenEngine, OpenEvent::Engine(Err(e))) == Some(
            Err::<OpenStep, Seq<char>>("opening redb"@ + ": "@ + e@),
        ),
        open_after(engine, OpenStep::OpenMetadata, OpenEvent::Metadata(Err(e))) == Some(
            Err::<OpenStep, Seq<char>>("opening metadata store"@ + ": "@ + e@),
        ),
        open_after(engine, OpenStep::OpenBlobs, OpenEvent::Blobs(Err(e))) == Some(
            Err::<OpenStep, Seq<char>>("opening blob store"@ + ": "@ + e@),
        ),
{
}

/// A stranded store stops the opening, with a message that begins with where it
/// is; where there is none, opening goes on.
pub proof fn law_stranded_store_stops_the_opening(engine: Engine, stranded: String)
    ensures
        ({
            let r = open_after(
                engine,
                OpenStep::LookForRedb,
                OpenEvent::Looked { stranded, exists: true },
            );
            r matches Some(Err(message)) && text::starts_with(message, stranded@)
        }),
        open_after(engine, OpenStep::LookForRedb, OpenEvent::Looked { stranded, exists: false })
            == Some(Ok::<OpenStep, Seq<char>>(OpenStep::OpenEngine)),
{
    assert(stranded_text(stranded@).take(stranded@.len() as int) =~= stranded@);
}

} // verus!
