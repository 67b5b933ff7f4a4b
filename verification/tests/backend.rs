use summ_server::backend::count::{
    count_to_ceiling, repository_detail, repository_detail_next, Count, Counted, Figured, Figures,
    Stepped, Usage, Used,
};
use summ_server::backend::drain::{drain_into, Drain};
use summ_server::backend::open::{open_next, refuse_stranded_redb, OpenEvent, OpenStep};
use summ_server::backend::pushes::{
    archive_manifest_next, put_blob_next, put_manifest_next, put_manifest_reply, ArchiveEvent,
    ArchiveStep, BlobEvent, BlobStep, PutEvent, PutOutcome, PutStep,
};
use summ_server::backend::reads::{
    delete_blob, get_blob_next, get_manifest, lookup, manifest_detail, manifest_details,
    mount_blob, mount_blob_next, name_page, range_outside, resolve, stat_blob, stat_manifest,
    tag_details, tag_history, Lookup, ManifestRow, MountEvent, MountStep, ReferrerEntry,
    ServeEvent, ServeStep, StoredManifest, TagEventEntry, TagEventKind, TagRow,
};
use summ_server::backend::sweep::{
    count_delta, flush_pull_counts, flushed, released, sweep_dead_repos, sweep_dead_repos_next,
    sweep_next, sweep_one, CountSubject, DeleteStep, PassEvent, PassStep, Recorded, Subject,
    SweepEvent, SweepStep,
};
use summ_server::backend::uploads::{
    append_upload, append_upload_next, cancel_upload, cancel_upload_next, continue_upload,
    create_upload, create_upload_next, finish_upload, finish_upload_next, resume, upload_offset,
    AppendEvent, AppendStep, CancelEvent, CancelStep, CreateEvent, CreateStep, FinishEvent,
    FinishStep,
};
use summ_server::backend::{
    invalid_tag, manifest_info, offloaded, ops_error, platform_label, reads, shard_of,
    storage_error, Child, Engine, ManifestRecord, Platform, RegistryError, StoreError, SHARDS,
};
use summ_server::random::{staging_id, staging_name};
use summ_server::reference::{
    parse_digest, valid_name, valid_tag, Digest, DigestAlgorithm, Reference,
};
use summ_server::seam::{ManifestStat, OpsError, Tally, COUNT_CEILING};

fn digest(byte: &str) -> Digest {
    parse_digest(&format!("sha256:{}", byte.repeat(32))).expect("valid")
}

fn platform(arch: &str, variant: Option<&str>) -> Platform {
    Platform {
        os: "linux".to_owned(),
        arch: arch.to_owned(),
        variant: variant.map(str::to_owned),
    }
}

fn record(own: Option<Platform>, children: Vec<Child>) -> ManifestRecord {
    ManifestRecord {
        digest: digest("ab"),
        media_type: "m".to_owned(),
        size: 10,
        total_layer_size: 30,
        artifact_type: None,
        subject: None,
        pushed_at: 4,
        platform: own,
        layers: vec![digest("01"), digest("02")],
        children,
        annotations: Vec::new(),
    }
}

#[test]
fn failures_arrive_in_spec_vocabulary() {
    let repo = || "a".to_owned();
    assert_eq!(
        ops_error(RegistryError::NameUnknown { repo: repo() }),
        OpsError::RepoUnknown
    );
    assert_eq!(
        ops_error(RegistryError::ManifestUnknown {
            repo: repo(),
            reference: "v1".to_owned()
        }),
        OpsError::ManifestUnknown
    );
    assert_eq!(
        ops_error(RegistryError::BlobUnknown {
            repo: repo(),
            digest: digest("ab")
        }),
        OpsError::BlobUnknown
    );
    assert_eq!(
        ops_error(RegistryError::DigestInvalid {
            detail: "x".to_owned()
        }),
        OpsError::DigestMismatch
    );
    assert_eq!(
        ops_error(RegistryError::ManifestInvalid {
            reason: "no".to_owned()
        }),
        OpsError::ManifestInvalid("no".to_owned())
    );
    assert_eq!(
        ops_error(RegistryError::ManifestBlobUnknown {
            repo: repo(),
            digest: digest("ab")
        }),
        OpsError::ManifestBlobUnknown {
            digest: digest("ab")
        }
    );
    assert_eq!(
        ops_error(RegistryError::Meta("io".to_owned())),
        OpsError::Internal("io".to_owned())
    );
    assert_eq!(storage_error(StoreError::NotFound), OpsError::BlobUnknown);
    assert_eq!(
        storage_error(StoreError::InvalidDigest("x".to_owned())),
        OpsError::DigestMismatch
    );
    assert_eq!(
        storage_error(StoreError::InvalidData("d".to_owned())),
        OpsError::Internal("d".to_owned())
    );
    assert_eq!(
        storage_error(StoreError::Storage("s".to_owned())),
        OpsError::Internal("s".to_owned())
    );
}

#[test]
fn a_bad_tag_is_quoted_and_escaped() {
    assert_eq!(
        ops_error(RegistryError::TagInvalid {
            tag: "a\"b\n".to_owned(),
            reason: "too odd".to_owned()
        }),
        OpsError::ManifestInvalid("tag \"a\\\"b\\n\": too odd".to_owned())
    );
    assert_eq!(
        invalid_tag("\"v\"", "no"),
        OpsError::ManifestInvalid("tag \"v\": no".to_owned())
    );
}

#[test]
fn a_failed_task_is_told_from_a_failed_operation() {
    assert_eq!(
        offloaded::<u8>(Err("panicked".to_owned())),
        Err(OpsError::Internal(
            "metadata task failed: panicked".to_owned()
        ))
    );
    assert_eq!(
        offloaded::<u8>(Ok(Err(RegistryError::Meta("io".to_owned())))),
        Err(OpsError::Internal("io".to_owned()))
    );
    assert_eq!(offloaded(Ok(Ok(7u8))), Ok(7));
}

#[test]
fn platforms_are_labelled_and_listed_once() {
    assert_eq!(platform_label(&platform("amd64", None)), "linux/amd64");
    assert_eq!(
        platform_label(&platform("arm64", Some("v8"))),
        "linux/arm64/v8"
    );
    let child = |p: Option<Platform>| Child {
        digest: digest("cd"),
        platform: p,
    };
    let info = manifest_info(
        record(
            None,
            vec![
                child(Some(platform("amd64", None))),
                child(None),
                child(Some(platform("arm64", None))),
                child(Some(platform("amd64", None))),
            ],
        ),
        vec!["v1".to_owned()],
    );
    assert_eq!(info.platforms, vec!["linux/amd64", "linux/arm64"]);
    assert_eq!((info.blobs, info.children, info.blob_size), (2, 4, 30));
    assert_eq!(info.tags, vec!["v1"]);
}

#[test]
fn a_repository_is_always_on_the_same_shard() {
    assert_eq!(shard_of(0), 0);
    assert_eq!(shard_of(257), 1);
    for hash in [1u64, 255, 256, 1 << 31, u64::MAX] {
        assert!(shard_of(hash) < SHARDS);
    }
}

#[test]
fn a_count_runs_to_its_end_or_to_the_ceiling() {
    assert_eq!(
        count_to_ceiling(&vec![(500, true), (3, false)]),
        Some(Tally::exact(503))
    );
    assert_eq!(count_to_ceiling(&vec![(500, true)]), None);
    assert_eq!(count_to_ceiling(&vec![(0, false)]), Some(Tally::exact(0)));
    // Exactly the ceiling's worth of keys is a complete count.
    assert_eq!(
        count_to_ceiling(&vec![(COUNT_CEILING - 1, true), (1, false)]),
        Some(Tally::exact(COUNT_CEILING))
    );
    assert_eq!(
        count_to_ceiling(&vec![(COUNT_CEILING, true), (1, false)]),
        Some(Tally {
            count: COUNT_CEILING,
            complete: false
        })
    );
    // One page may be as large as a `u64`.
    assert!(Count::start().takes(u64::MAX));
    assert_eq!(
        count_to_ceiling(&vec![(u64::MAX, false)]),
        Some(Tally::exact(u64::MAX))
    );
    assert!(repository_detail().takes(u64::MAX));
    match Count::start().add(5, Some("x")) {
        Counted::More { cursor, .. } => assert_eq!(cursor, "x"),
        Counted::Done(_) => panic!("there is more"),
    }
}

#[test]
fn usage_adds_up_and_saturates() {
    let Used::More { usage, cursor } = Usage::start().add(1, u64::MAX, Some(7)) else {
        panic!("there is more");
    };
    assert_eq!(cursor, 7);
    let Used::Done { blobs, bytes } = usage.add(2, 5, None::<u8>) else {
        panic!("there is no more");
    };
    assert_eq!((blobs, bytes), (Tally::exact(3), u64::MAX));
}

#[test]
fn a_repositorys_figures_are_taken_in_turn() {
    let step = |keys: u64, bytes: u64, next: Option<u8>| Ok(Stepped { keys, bytes, next });
    let name = || "a".to_owned();
    let Figured::More { figures, cursor } =
        repository_detail_next(name(), repository_detail(), step(500, 0, Some(1)))
    else {
        panic!("more tags");
    };
    assert_eq!(cursor, Some(1));
    assert!(matches!(figures, Figures::Tags { .. }));
    let Figured::More { figures, cursor } =
        repository_detail_next(name(), figures, step(3, 0, None))
    else {
        panic!("manifests next");
    };
    assert_eq!(cursor, None);
    assert!(matches!(figures, Figures::Manifests { .. }));
    let Figured::More { figures, .. } = repository_detail_next(name(), figures, step(2, 0, None))
    else {
        panic!("blobs next");
    };
    let Figured::Done(detail) = repository_detail_next(name(), figures, step(4, 90, None)) else {
        panic!("all known");
    };
    assert_eq!(detail.name, "a");
    assert_eq!(detail.tags, Tally::exact(503));
    assert_eq!(detail.manifests, Tally::exact(2));
    assert_eq!(detail.blobs, Tally::exact(4));
    assert_eq!(detail.size_bytes, 90);
    let failed = repository_detail_next::<u8>(
        name(),
        repository_detail(),
        Err(RegistryError::NameUnknown { repo: name() }),
    );
    assert!(matches!(failed, Figured::Failed(OpsError::RepoUnknown)));
}

#[test]
fn a_body_is_taken_up_to_its_limit() {
    assert_eq!(
        drain_into(Some(6), Some(10), &vec![2, 4]),
        (Ok(6), 6)
    );
    assert_eq!(drain_into(None, None, &vec![2, 4]), (Ok(6), 6));
    let (verdict, written) = drain_into(Some(11), Some(10), &vec![11]);
    assert_eq!(verdict, Err(OpsError::BodyTooLarge { limit: 10 }));
    assert_eq!(written, 0);
    let (verdict, written) = drain_into(None, Some(10), &vec![8, 8]);
    assert_eq!(verdict, Err(OpsError::BodyTooLarge { limit: 10 }));
    assert!(written <= 10);
    let (verdict, _) = drain_into(Some(9), None, &vec![8]);
    assert_eq!(
        verdict,
        Err(OpsError::SizeMismatch {
            declared: 9,
            actual: 8
        })
    );
    assert_eq!(
        Drain::broken("cut".to_owned()),
        OpsError::BodyIncomplete("cut".to_owned())
    );
}

#[test]
fn a_stranded_store_is_refused_with_its_path() {
    assert_eq!(refuse_stranded_redb("/data/meta/summ.redb", false), Ok(()));
    let message =
        refuse_stranded_redb("/data/meta/summ.redb", true).expect_err("must not open beside it");
    assert!(message.starts_with("/data/meta/summ.redb is a redb metadata store"));
    assert!(message.contains("Move that file aside"));
    assert!(!message.contains("  "), "no run of spaces: {message}");
}

#[test]
fn a_registry_is_opened_step_by_step() {
    let dir = |outcome| OpenEvent::MetaDir {
        shown: "\"/d/meta\"".to_owned(),
        outcome,
    };
    let next = |step, event| open_next(Engine::Rocks, step, event);
    assert_eq!(
        next(OpenStep::CreateMetaDir, dir(Ok(()))),
        Some(Ok(OpenStep::LookForRedb))
    );
    assert_eq!(
        open_next(Engine::Redb, OpenStep::CreateMetaDir, dir(Ok(()))),
        Some(Ok(OpenStep::OpenEngine))
    );
    assert_eq!(
        next(OpenStep::CreateMetaDir, dir(Err("denied".to_owned()))),
        Some(Err("creating \"/d/meta\": denied".to_owned()))
    );
    let looked = |exists| OpenEvent::Looked {
        stranded: "/d/meta/summ.redb".to_owned(),
        exists,
    };
    assert_eq!(
        next(OpenStep::LookForRedb, looked(false)),
        Some(Ok(OpenStep::OpenEngine))
    );
    assert!(matches!(
        next(OpenStep::LookForRedb, looked(true)),
        Some(Err(_))
    ));
    let broken = || Err("bad".to_owned());
    assert_eq!(
        next(OpenStep::OpenEngine, OpenEvent::Engine(broken())),
        Some(Err("opening RocksDB: bad".to_owned()))
    );
    assert_eq!(
        open_next(
            Engine::Redb,
            OpenStep::OpenEngine,
            OpenEvent::Engine(broken())
        ),
        Some(Err("opening redb: bad".to_owned()))
    );
    assert_eq!(
        next(OpenStep::OpenEngine, OpenEvent::Engine(Ok(()))),
        Some(Ok(OpenStep::OpenMetadata))
    );
    assert_eq!(
        next(OpenStep::OpenMetadata, OpenEvent::Metadata(broken())),
        Some(Err("opening metadata store: bad".to_owned()))
    );
    assert_eq!(
        next(OpenStep::OpenMetadata, OpenEvent::Metadata(Ok(()))),
        Some(Ok(OpenStep::OpenBlobs))
    );
    assert_eq!(
        next(OpenStep::OpenBlobs, OpenEvent::Blobs(broken())),
        Some(Err("opening blob store: bad".to_owned()))
    );
    assert_eq!(
        next(OpenStep::OpenBlobs, OpenEvent::Blobs(Ok(()))),
        Some(Ok(OpenStep::Ready))
    );
    assert_eq!(next(OpenStep::Ready, OpenEvent::Blobs(Ok(()))), None);
}

#[test]
fn a_manifest_is_archived_before_it_is_committed() {
    let step = put_manifest_next(PutStep::Plan, PutEvent::Planned(Ok(digest("ab"))));
    let Some(PutStep::Archive { digest: planned }) = step else {
        panic!("the document comes first");
    };
    assert_eq!(planned, digest("ab"));
    let archive = || PutStep::Archive {
        digest: digest("ab"),
    };
    assert!(matches!(
        put_manifest_next(archive(), PutEvent::Archived(Ok(()))),
        Some(PutStep::Lock)
    ));
    assert!(matches!(
        put_manifest_next(archive(), PutEvent::Archived(Err(OpsError::DigestMismatch))),
        Some(PutStep::Done(Err(OpsError::DigestMismatch)))
    ));
    assert!(matches!(
        put_manifest_next(PutStep::Lock, PutEvent::Locked),
        Some(PutStep::Commit)
    ));
    assert!(put_manifest_next(PutStep::Plan, PutEvent::Locked).is_none());
    let outcome = PutOutcome {
        digest: digest("ab"),
        subject: None,
    };
    let Some(PutStep::Done(Ok(outcome))) =
        put_manifest_next(PutStep::Commit, PutEvent::Committed(Ok(outcome)))
    else {
        panic!("committed");
    };
    let put = put_manifest_reply(outcome, vec!["v1".to_owned()]);
    assert_eq!(put.digest, digest("ab"));
    assert_eq!(put.tags, vec!["v1"]);
}

#[test]
fn an_archive_copy_is_there_or_cleaned_up() {
    assert!(matches!(
        archive_manifest_next(ArchiveStep::Look, ArchiveEvent::Looked(Ok(true))),
        Some(ArchiveStep::Done(Ok(())))
    ));
    assert!(matches!(
        archive_manifest_next(ArchiveStep::Look, ArchiveEvent::Looked(Ok(false))),
        Some(ArchiveStep::Create)
    ));
    let failed = archive_manifest_next(
        ArchiveStep::Append,
        ArchiveEvent::Appended(Err(OpsError::DigestMismatch)),
    );
    let Some(cancel @ ArchiveStep::Cancel(_)) = failed else {
        panic!("a staging file is not left behind");
    };
    assert!(matches!(
        archive_manifest_next(cancel, ArchiveEvent::Cancelled),
        Some(ArchiveStep::Done(Err(OpsError::DigestMismatch)))
    ));
}

#[test]
fn a_blob_is_sealed_before_it_is_recorded() {
    assert!(matches!(
        put_blob_next(BlobStep::Create, BlobEvent::Created(Ok(()))),
        Some(BlobStep::Drain)
    ));
    assert!(matches!(
        put_blob_next(BlobStep::Drain, BlobEvent::Drained(Ok(9))),
        Some(BlobStep::Commit)
    ));
    assert!(matches!(
        put_blob_next(BlobStep::Commit, BlobEvent::Committed(Ok(9))),
        Some(BlobStep::Apply { size: 9 })
    ));
    assert!(matches!(
        put_blob_next(
            BlobStep::Commit,
            BlobEvent::Committed(Err(OpsError::DigestMismatch))
        ),
        Some(BlobStep::Cancel(OpsError::DigestMismatch))
    ));
    assert!(matches!(
        put_blob_next(BlobStep::Apply { size: 9 }, BlobEvent::Applied(Ok(()))),
        Some(BlobStep::Done(Ok(())))
    ));
}

#[test]
fn a_session_is_opened_file_first() {
    let sha256 = || Ok(DigestAlgorithm::Sha256);
    let step = create_upload(true, sha256(), true);
    assert!(matches!(
        step,
        CreateStep::CreateFile {
            algorithm: DigestAlgorithm::Sha256
        }
    ));
    assert!(matches!(
        create_upload_next(step, CreateEvent::FileCreated(Ok(()))),
        Some(CreateStep::Record)
    ));
    assert!(matches!(
        create_upload_next(CreateStep::Record, CreateEvent::Recorded(Ok(()))),
        Some(CreateStep::Done(Ok(())))
    ));
    for (key, id) in [(false, true), (true, false)] {
        assert!(matches!(
            create_upload(key, sha256(), id),
            CreateStep::Done(Err(OpsError::UploadUnknown))
        ));
    }
    assert!(matches!(
        create_upload(true, Err("md5".to_owned()), true),
        CreateStep::Done(Err(OpsError::ManifestInvalid(_)))
    ));
}

#[test]
fn a_chunk_out_of_order_is_refused_with_the_offset() {
    assert_eq!(upload_offset(true, Ok(Some(5))), Ok(5));
    assert_eq!(upload_offset(true, Ok(None)), Err(OpsError::UploadUnknown));
    assert_eq!(
        upload_offset(false, Ok(Some(5))),
        Err(OpsError::UploadUnknown)
    );
    assert_eq!(
        continue_upload(true, Ok(Some(5)), 4),
        Err(OpsError::OffsetMismatch { current: 5 })
    );
    assert!(matches!(
        append_upload(true, Ok(Some(5)), 4),
        AppendStep::Done(Err(OpsError::OffsetMismatch { current: 5 }))
    ));
    assert!(matches!(
        finish_upload(true, Ok(Some(5)), 4),
        FinishStep::Done(Err(OpsError::OffsetMismatch { current: 5 }))
    ));
    assert_eq!(
        resume(true, Err("gone".to_owned())),
        Err(OpsError::Internal("gone".to_owned()))
    );
    assert_eq!(
        resume(true, Ok(DigestAlgorithm::Sha512)),
        Ok(DigestAlgorithm::Sha512)
    );
}

#[test]
fn bytes_land_before_the_offset_that_describes_them() {
    let mut step = append_upload(true, Ok(Some(5)), 5);
    let events = [
        AppendEvent::Resumed(Ok(())),
        AppendEvent::Drained(Ok(12)),
        AppendEvent::Hashed(Ok(())),
        AppendEvent::Saved(Ok(())),
    ];
    for event in events {
        step = append_upload_next(step, event).expect("each step has its outcome");
    }
    assert!(matches!(step, AppendStep::Done(Ok(12))));
    let cut = append_upload_next(
        AppendStep::Drain,
        AppendEvent::Drained(Err(OpsError::BodyIncomplete("cut".to_owned()))),
    );
    assert!(matches!(
        cut,
        Some(AppendStep::Done(Err(OpsError::BodyIncomplete(_))))
    ));
}

#[test]
fn a_session_is_closed_in_one_batch() {
    let mut step = finish_upload(true, Ok(Some(5)), 5);
    let events = [
        FinishEvent::Resumed(Ok(())),
        FinishEvent::Rehashed(Ok(())),
        FinishEvent::Drained(Ok(12)),
        FinishEvent::Committed(Ok(12)),
    ];
    for event in events {
        step = finish_upload_next(step, event).expect("each step has its outcome");
    }
    assert!(matches!(step, FinishStep::Apply { size: 12 }));
    assert!(matches!(
        finish_upload_next(step, FinishEvent::Applied(Ok(()))),
        Some(FinishStep::Done(Ok(())))
    ));
    assert!(matches!(
        finish_upload_next(
            FinishStep::Commit,
            FinishEvent::Committed(Err(OpsError::DigestMismatch))
        ),
        Some(FinishStep::Done(Err(OpsError::DigestMismatch)))
    ));
}

#[test]
fn a_cancelled_session_is_forgotten_before_its_file_goes() {
    let step = cancel_upload(true, Ok(Some(0)));
    assert!(matches!(step, CancelStep::DeleteRecord));
    let step = cancel_upload_next(step, CancelEvent::RecordDeleted(Ok(())));
    let Some(step @ CancelStep::RemoveFile) = step else {
        panic!("then the file");
    };
    assert!(matches!(
        cancel_upload_next(step, CancelEvent::FileRemoved(Ok(()))),
        Some(CancelStep::Done(Ok(())))
    ));
    assert!(matches!(
        cancel_upload(true, Ok(None)),
        CancelStep::Done(Err(OpsError::UploadUnknown))
    ));
}

#[test]
fn a_listing_has_more_exactly_when_it_has_a_cursor() {
    let page = name_page(vec!["a".to_owned()], Some("a".to_owned()));
    assert!(page.more);
    assert!(!name_page(Vec::new(), None).more);
    let row = |tag: &str, record: Option<(Digest, u64)>| TagRow {
        tag: tag.to_owned(),
        record,
        manifest: None,
    };
    let tags = tag_details(
        vec![
            row("a", Some((digest("ab"), 1))),
            row("gone", None),
            row("b", Some((digest("cd"), 2))),
        ],
        None,
    );
    let names: Vec<&str> = tags.items.iter().map(|t| t.name.as_str()).collect();
    assert_eq!(names, vec!["a", "b"]);
    let manifests = manifest_details(
        vec![ManifestRow {
            record: record(Some(platform("amd64", None)), Vec::new()),
            tags: Vec::new(),
        }],
        Some(digest("ab")),
    );
    assert!(manifests.more);
    assert_eq!(manifests.items[0].platforms, vec!["linux/amd64"]);
}

#[test]
fn an_absent_manifest_is_unknown() {
    let stat = ManifestStat {
        digest: digest("ab"),
        media_type: "m".to_owned(),
        size: 3,
    };
    assert_eq!(stat_manifest(Ok(Some(stat))).map(|s| s.size), Ok(3));
    assert_eq!(
        stat_manifest(Ok(None)).map(|s| s.size),
        Err(OpsError::ManifestUnknown)
    );
    let (stat, body) = get_manifest(Ok(Some(StoredManifest {
        digest: digest("ab"),
        media_type: "m".to_owned(),
        body: b"{}".to_vec(),
    })))
    .expect("there it is");
    assert_eq!((stat.size, body.as_slice()), (2, &b"{}"[..]));
    assert!(get_manifest(Ok(None)).is_err());
    assert!(manifest_detail(Ok(None)).is_err());
    assert!(manifest_detail(Ok(Some(record(None, Vec::new())))).is_ok());
    let tag = lookup(Reference::Tag("v1".to_owned()));
    assert!(matches!(&tag, Lookup::ByTag(t) if t == "v1"));
    assert_eq!(resolve(tag, Ok(Some(digest("ab")))), Ok(digest("ab")));
    let tag = lookup(Reference::Tag("v1".to_owned()));
    assert_eq!(resolve(tag, Ok(None)), Err(OpsError::ManifestUnknown));
    let by_digest = lookup(Reference::Digest(digest("cd")));
    assert_eq!(resolve(by_digest, Ok(None)), Ok(digest("cd")));
}

#[test]
fn a_blob_is_served_only_under_a_name_that_holds_it() {
    assert_eq!(stat_blob(Ok(Some(5))), Ok(5));
    assert_eq!(stat_blob(Ok(None)), Err(OpsError::BlobUnknown));
    assert_eq!(
        stat_blob(Err(OpsError::RepoUnknown)),
        Err(OpsError::BlobUnknown)
    );
    assert_eq!(delete_blob(Ok(true)), Ok(()));
    assert_eq!(delete_blob(Ok(false)), Err(OpsError::BlobUnknown));
    assert_eq!(
        delete_blob(Err(OpsError::RepoUnknown)),
        Err(OpsError::RepoUnknown)
    );
    let d = digest("ab");
    let next = |step, event| get_blob_next(&d, Some((2, 9)), step, event);
    assert!(matches!(
        next(ServeStep::CheckServable, ServeEvent::Servable(Ok(true))),
        Some(ServeStep::Open)
    ));
    assert!(matches!(
        next(
            ServeStep::CheckServable,
            ServeEvent::Servable(Err(OpsError::RepoUnknown))
        ),
        Some(ServeStep::Failed(OpsError::BlobUnknown))
    ));
    let Some(resolve) = next(ServeStep::Open, ServeEvent::Opened(Ok(8))) else {
        panic!("a window is resolved");
    };
    assert!(matches!(
        resolve,
        ServeStep::Resolve {
            start: 2,
            end: 9,
            total: 8
        }
    ));
    let Some(ServeStep::Failed(OpsError::Internal(message))) =
        next(resolve, ServeEvent::Resolved(false))
    else {
        panic!("a window outside the blob");
    };
    assert_eq!(
        message,
        format!(
            "range 2-9 outside blob sha256:{} of 8 bytes",
            "ab".repeat(32)
        )
    );
    assert_eq!(range_outside(2, 9, &d, 8), OpsError::Internal(message));
    assert!(matches!(
        get_blob_next(&d, None, ServeStep::Open, ServeEvent::Opened(Ok(8))),
        Some(ServeStep::Stream {
            total: 8,
            window: None
        })
    ));
    assert!(matches!(
        next(
            ServeStep::Open,
            ServeEvent::Opened(Err(StoreError::NotFound))
        ),
        Some(ServeStep::Failed(OpsError::BlobUnknown))
    ));
}

#[test]
fn a_mount_needs_an_entitled_source() {
    assert!(matches!(
        mount_blob(&Some("b".to_owned())),
        MountStep::AskSource
    ));
    assert!(matches!(mount_blob(&None), MountStep::AskSize));
    assert!(matches!(
        mount_blob_next(MountStep::AskSource, MountEvent::Source(Ok(false))),
        Some(MountStep::Done(Ok(false)))
    ));
    let step = mount_blob_next(MountStep::AskSource, MountEvent::Source(Ok(true)));
    let Some(step @ MountStep::AskSize) = step else {
        panic!("then its size");
    };
    let step = mount_blob_next(step, MountEvent::Size(Ok(Some(4))));
    let Some(step @ MountStep::Commit { size: 4 }) = step else {
        panic!("then the record");
    };
    assert!(matches!(
        mount_blob_next(step, MountEvent::Committed(Ok(()))),
        Some(MountStep::Done(Ok(true)))
    ));
}

#[test]
fn a_history_and_a_referrer_list_keep_their_order() {
    let entry = |at: u64, kind: TagEventKind| TagEventEntry {
        at,
        tag: "v1".to_owned(),
        digest: digest("ab"),
        kind,
        media_type: "m".to_owned(),
        size: 1,
    };
    let (events, next) = tag_history(
        vec![entry(2, TagEventKind::Deleted), entry(1, TagEventKind::Created)],
        None,
    );
    assert!(next.is_none());
    let told: Vec<(u64, bool)> = events.iter().map(|e| (e.at, e.deleted)).collect();
    assert_eq!(told, vec![(2, true), (1, false)]);
    let referrer = |byte: &str| ReferrerEntry {
        digest: digest(byte),
        media_type: "m".to_owned(),
        size: 1,
        artifact_type: None,
        annotations: vec![("k".to_owned(), byte.to_owned())],
    };
    let page = reads::referrers(
        vec![referrer("ab"), referrer("cd")],
        true,
        Some(digest("cd")),
    );
    assert!(page.filter_applied);
    assert_eq!(page.manifests[1].digest, digest("cd"));
    assert_eq!(page.next, Some(digest("cd")));
    assert_eq!(
        page.manifests[1].annotations,
        vec![("k".to_owned(), "cd".to_owned())]
    );
}

#[test]
fn a_swept_repository_loses_its_edges_before_its_records() {
    let sweep = sweep_next(
        sweep_one(),
        SweepEvent::Retracted(Ok((500, Some(vec![1, 2])))),
    )
    .expect("goes on");
    assert!(matches!(
        &sweep.step,
        SweepStep::Retract { cursor: Some(at) } if at == &vec![1, 2]
    ));
    let sweep = sweep_next(sweep, SweepEvent::Retracted(Ok((3, None)))).expect("goes on");
    assert!(matches!(sweep.step, SweepStep::Drop));
    let sweep = sweep_next(sweep, SweepEvent::Dropped(Ok(()))).expect("ends");
    assert!(matches!(sweep.step, SweepStep::Done(Ok(503))));
    let failed = sweep_next(sweep_one(), SweepEvent::Retracted(Err("io".to_owned())));
    assert!(matches!(
        failed.map(|s| s.step),
        Some(SweepStep::Done(Err(_)))
    ));
    assert!(sweep_next(sweep_one(), SweepEvent::Dropped(Ok(()))).is_none());
}

#[test]
fn a_pass_goes_on_until_nothing_is_dead() {
    let mut pass = sweep_dead_repos();
    for event in [
        PassEvent::Dead(Ok(2)),
        PassEvent::Swept(Ok(10)),
        PassEvent::Swept(Ok(0)),
        PassEvent::Dead(Ok(1)),
        PassEvent::Swept(Ok(5)),
        PassEvent::Dead(Ok(0)),
    ] {
        pass = sweep_dead_repos_next(pass, event).expect("each step has its outcome");
    }
    assert!(matches!(pass.step, PassStep::Done(Ok(3))));
    let failed = sweep_dead_repos_next(sweep_dead_repos(), PassEvent::Dead(Err("io".to_owned())));
    assert!(matches!(
        failed.map(|p| p.step),
        Some(PassStep::Done(Err(_)))
    ));
}

#[test]
fn a_delete_wakes_the_sweeper_only_once_it_is_committed() {
    assert!(matches!(released(Ok(())), DeleteStep::Wake));
    assert!(matches!(
        released(Err(OpsError::RepoUnknown)),
        DeleteStep::Done(Err(OpsError::RepoUnknown))
    ));
}

#[test]
fn recorded_pulls_are_all_written() {
    let recorded = |subject: Subject, pulls: u32| Recorded {
        repo: "a".to_owned(),
        subject,
        day: 9,
        hour: 23,
        manifest_pulls: pulls,
        blob_pulls: 1,
        bytes_out: 77,
    };
    let delta = count_delta(recorded(Subject::Tag("v1".to_owned()), 4));
    assert!(matches!(&delta.subject, CountSubject::Tag(t) if t == "v1"));
    assert_eq!(
        (delta.day, delta.hour, delta.manifest_pulls, delta.bytes_out),
        (9, 23, 4, 77)
    );
    let flush = flush_pull_counts(
        3,
        vec![
            recorded(Subject::Repo, 1),
            recorded(Subject::Manifest(digest("ab")), 2),
        ],
    );
    assert_eq!(flush.warn, Some(3));
    assert_eq!(flush.write.len(), 2);
    assert!(matches!(flush.write[0].subject, CountSubject::Repo));
    assert!(matches!(flush.write[1].subject, CountSubject::Manifest(_)));
    assert_eq!(flush_pull_counts(0, Vec::new()).warn, None);
    assert_eq!(flushed(Ok(8)), 8);
    assert_eq!(flushed(Err("io".to_owned())), 0);
}

#[test]
fn a_staging_name_is_a_uuid_behind_its_prefix() {
    assert_eq!(
        staging_name(
            "manifest",
            [0x00, 0x11, 0x22, 0x33, 0x44, 0x55, 0x66, 0x77, 0x88, 0x99, 0xaa, 0xbb, 0xcc, 0xdd, 0xee, 0xff]
        ),
        "manifest-00112233-4455-6677-8899-aabbccddeeff"
    );
    let one = staging_id("blob");
    assert_eq!(one.len(), "blob-".len() + 36);
    assert!(one.starts_with("blob-"));
    assert_eq!(&one[19..20], "4", "{one} is a random UUID");
    assert_ne!(one, staging_id("blob"));
}

#[test]
fn digests_are_read_and_written_in_one_spelling() {
    let text = format!("sha512:{}", "0a".repeat(64));
    let parsed = parse_digest(&text).expect("valid");
    assert_eq!(parsed.algorithm, DigestAlgorithm::Sha512);
    assert_eq!(parsed.to_text(), text);
    assert_eq!(parsed.copy(), parsed);
    for bad in [
        "",
        "sha256",
        "sha256:",
        "sha256:ABCD",
        "md5:d41d8cd98f00b204e9800998ecf8427e",
    ] {
        assert!(parse_digest(bad).is_err(), "{bad}");
    }
    assert!(parse_digest(&format!("sha256:{}", "AB".repeat(32))).is_err());
    assert_eq!(
        DigestAlgorithm::from_name("sha256"),
        Some(DigestAlgorithm::Sha256)
    );
    assert_eq!(DigestAlgorithm::from_name("sha1"), None);
    assert_eq!(DigestAlgorithm::Sha256.hex_len(), 64);
    assert_eq!(DigestAlgorithm::Sha512.name(), "sha512");
}

#[test]
fn names_and_tags_keep_to_their_grammar() {
    for good in ["a", "library/nginx", "a.b_c__d-e/f0", "a--b"] {
        assert!(valid_name(good), "{good}");
    }
    for bad in ["", "A", "a/", "/a", "a//b", "a.", "-a", "a..b", "a@b"] {
        assert!(!valid_name(bad), "{bad}");
    }
    for good in ["v1", "_x", "1.2-rc.3", "LATEST"] {
        assert!(valid_tag(good), "{good}");
    }
    for bad in ["", ".x", "-x", "a b", "a/b", "a@b"] {
        assert!(!valid_tag(bad), "{bad}");
    }
    assert!(valid_tag(&"a".repeat(128)));
    assert!(!valid_tag(&"a".repeat(129)));
}
