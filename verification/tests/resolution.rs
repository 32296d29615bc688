use forge_downloader::download_utils::{
    resolve_scripted, ArchiveObservation, BulkFetchOutcome, BulkPrecheck, DirObservation,
    DownloadObservation, FileKnowledge, FileObservation, LibraryRequirement, LibraryResolution,
    ResolutionLedger, ResolveEvent, ResolveFailure, ResolveOutcome, ResolvePhase, ResolveSource,
    bulk_fetch_outcome, bulk_precheck,
};
use forge_downloader::forge_installer_profile::v1::ForgeLibrary;
use forge_downloader::forge_installer_profile::v2::{MojangArtifact, MojangLibrary, MojangLibraryDownloads};
use forge_downloader::{Artifact, Sha1Sum};

fn digest(text: &[u8]) -> Sha1Sum {
    Sha1Sum::from_bytes(text)
}

#[test]
fn valid_local_copy_resolves_immediately() {
    // Resolution against a target already holding a digest-valid file does no
    // archive, directory or network work: one local observation finishes it.
    let good = digest(b"the artifact bytes");
    let m = resolve_scripted(
        Some(digest(b"the artifact bytes")),
        Some("https://example.invalid/a.jar".to_string()),
        true,
        2,
        &vec![ResolveEvent::LocalFile(FileObservation::Present(Some(good)))],
    );
    assert!(matches!(
        m.phase,
        ResolvePhase::Done(ResolveOutcome::Resolved(ResolveSource::LocalExisting))
    ));
    assert!(matches!(m.target, FileKnowledge::PresentMatching));
    // A second run over the same state asks for nothing further.
    let mut done = m;
    assert!(!done.step(&ResolveEvent::DownloadResult(DownloadObservation::Unreachable)));
    assert!(!done.step(&ResolveEvent::ArchiveFile(ArchiveObservation::NoEntry)));
}

#[test]
fn stale_local_copy_is_deleted_and_resolution_continues() {
    let expected = digest(b"right");
    let wrong = digest(b"wrong");
    let m = resolve_scripted(
        Some(expected),
        Some("https://example.invalid/a.jar".to_string()),
        true,
        0,
        &vec![
            ResolveEvent::LocalFile(FileObservation::Present(Some(wrong))),
            ResolveEvent::DeleteResult(true),
        ],
    );
    // The mismatched file forced a deletion, and the archive is next.
    assert!(matches!(m.phase, ResolvePhase::CheckArchive));
    assert!(matches!(m.target, FileKnowledge::Absent));
}

#[test]
fn exhausting_every_source_fails_and_leaves_no_file() {
    let expected = digest(b"right");
    let wrong = digest(b"wrong");
    let m = resolve_scripted(
        Some(expected),
        Some("https://example.invalid/a.jar".to_string()),
        true,
        0,
        &vec![
            ResolveEvent::LocalFile(FileObservation::Present(Some(wrong))),
            ResolveEvent::DeleteResult(true),
            ResolveEvent::ArchiveFile(ArchiveObservation::NoEntry),
            ResolveEvent::DownloadResult(DownloadObservation::Fetched(digest(b"still wrong"))),
            ResolveEvent::DeleteResult(true),
        ],
    );
    assert!(matches!(
        m.phase,
        ResolvePhase::Done(ResolveOutcome::Failed(ResolveFailure::ChecksumMismatch))
    ));
    // The bad file is not left behind.
    assert!(matches!(m.target, FileKnowledge::Absent));
}

#[test]
fn failed_deletion_corrupts_the_run() {
    let m = resolve_scripted(
        Some(digest(b"right")),
        None,
        true,
        0,
        &vec![
            ResolveEvent::LocalFile(FileObservation::Present(Some(digest(b"wrong")))),
            ResolveEvent::DeleteResult(false),
        ],
    );
    assert!(matches!(m.phase, ResolvePhase::Done(ResolveOutcome::CorruptedState)));
}

#[test]
fn missing_url_fails_for_want_of_a_source() {
    let m = resolve_scripted(
        Some(digest(b"right")),
        None,
        true,
        0,
        &vec![
            ResolveEvent::LocalFile(FileObservation::Absent),
            ResolveEvent::ArchiveFile(ArchiveObservation::NoEntry),
        ],
    );
    assert!(matches!(
        m.phase,
        ResolvePhase::Done(ResolveOutcome::Failed(ResolveFailure::MissingDownloadSource))
    ));
    // An empty url is as good as none.
    let m2 = resolve_scripted(
        Some(digest(b"right")),
        Some(String::new()),
        true,
        0,
        &vec![
            ResolveEvent::LocalFile(FileObservation::Absent),
            ResolveEvent::ArchiveFile(ArchiveObservation::NoEntry),
        ],
    );
    assert!(matches!(
        m2.phase,
        ResolvePhase::Done(ResolveOutcome::Failed(ResolveFailure::MissingDownloadSource))
    ));
}

#[test]
fn archive_extraction_with_matching_digest_resolves() {
    let m = resolve_scripted(
        Some(digest(b"bytes")),
        None,
        true,
        0,
        &vec![
            ResolveEvent::LocalFile(FileObservation::Absent),
            ResolveEvent::ArchiveFile(ArchiveObservation::Extracted(Some(digest(b"bytes")))),
        ],
    );
    assert!(matches!(
        m.phase,
        ResolvePhase::Done(ResolveOutcome::Resolved(ResolveSource::ArchiveEntry))
    ));
}

#[test]
fn extra_directory_copy_resolves() {
    let m = resolve_scripted(
        Some(digest(b"bytes")),
        None,
        true,
        2,
        &vec![
            ResolveEvent::LocalFile(FileObservation::Absent),
            ResolveEvent::ArchiveFile(ArchiveObservation::NoEntry),
            ResolveEvent::DirFile(DirObservation::NoMatch),
            ResolveEvent::DirFile(DirObservation::CopiedOk),
        ],
    );
    assert!(matches!(
        m.phase,
        ResolvePhase::Done(ResolveOutcome::Resolved(ResolveSource::ExtraDir(1)))
    ));
}

#[test]
fn disabled_requirement_is_skipped() {
    let m = resolve_scripted(Some(digest(b"x")), None, false, 0, &vec![]);
    assert!(matches!(m.phase, ResolvePhase::Done(ResolveOutcome::Skipped)));
}

#[test]
fn unreachable_remote_fails() {
    let m = resolve_scripted(
        None,
        Some("https://example.invalid/a.jar".to_string()),
        true,
        0,
        &vec![
            ResolveEvent::LocalFile(FileObservation::Absent),
            ResolveEvent::ArchiveFile(ArchiveObservation::NoEntry),
            ResolveEvent::DownloadResult(DownloadObservation::Unreachable),
        ],
    );
    assert!(matches!(
        m.phase,
        ResolvePhase::Done(ResolveOutcome::Failed(ResolveFailure::Unreachable))
    ));
}

#[test]
fn present_file_without_expectation_is_trusted() {
    let m = resolve_scripted(
        None,
        None,
        true,
        0,
        &vec![ResolveEvent::LocalFile(FileObservation::Present(None))],
    );
    assert!(matches!(
        m.phase,
        ResolvePhase::Done(ResolveOutcome::Resolved(ResolveSource::LocalExisting))
    ));
    assert!(matches!(m.target, FileKnowledge::PresentUnverified));
}

#[test]
fn wrong_phase_events_are_rejected() {
    let mut m = LibraryResolution::new(Some(digest(b"x")), None, true, 0);
    assert!(!m.step(&ResolveEvent::DeleteResult(true)));
    assert!(!m.step(&ResolveEvent::DownloadResult(DownloadObservation::Unreachable)));
    assert!(matches!(m.phase, ResolvePhase::CheckLocal));
}

#[test]
fn end_to_end_ledger_one_grabbed_one_failed() {
    // Two libraries: one with a correct digest and a reachable url, one whose
    // digest never matches any source. The run grabs exactly one and fails
    // exactly one, and the failed artifact's target holds no file afterwards.
    let good_bytes = b"good artifact";
    let a1 = Artifact::parse("com.example:good:1.0").unwrap();
    let a2 = Artifact::parse("com.example:bad:1.0").unwrap();
    let mut ledger = ResolutionLedger::new();

    let m1 = resolve_scripted(
        Some(digest(good_bytes)),
        Some("https://example.invalid/good.jar".to_string()),
        true,
        0,
        &vec![
            ResolveEvent::LocalFile(FileObservation::Absent),
            ResolveEvent::ArchiveFile(ArchiveObservation::NoEntry),
            ResolveEvent::DownloadResult(DownloadObservation::Fetched(digest(good_bytes))),
        ],
    );
    let o1 = match &m1.phase {
        ResolvePhase::Done(o) => o,
        _ => panic!("first resolution did not finish"),
    };
    ledger.record(&a1, o1);

    let m2 = resolve_scripted(
        Some(digest(b"what the manifest expects")),
        Some("https://example.invalid/bad.jar".to_string()),
        true,
        0,
        &vec![
            ResolveEvent::LocalFile(FileObservation::Absent),
            ResolveEvent::ArchiveFile(ArchiveObservation::NoEntry),
            ResolveEvent::DownloadResult(DownloadObservation::Fetched(digest(b"what the mirror serves"))),
            ResolveEvent::DeleteResult(true),
        ],
    );
    let o2 = match &m2.phase {
        ResolvePhase::Done(o) => o,
        _ => panic!("second resolution did not finish"),
    };
    ledger.record(&a2, o2);

    assert_eq!(ledger.grabbed.len(), 1);
    assert_eq!(ledger.failed.len(), 1);
    assert_eq!(ledger.grabbed[0].get_descriptor(), "com.example:good:1.0");
    assert_eq!(ledger.failed[0].get_descriptor(), "com.example:bad:1.0");
    assert!(matches!(m2.target, FileKnowledge::Absent));
}

fn plain_library(url: Option<&str>, client: bool, checksums: Vec<Sha1Sum>) -> ForgeLibrary {
    ForgeLibrary {
        name: Artifact::parse("com.example:thing:1.0").unwrap(),
        url: url.map(|u| u.to_string()),
        serverreq: Some(true),
        clientreq: if client { Some(true) } else { None },
        checksums,
        comment: String::new(),
        enabled: true,
    }
}

#[test]
fn bulk_precheck_decisions() {
    let lib = plain_library(None, true, vec![digest(b"v1")]);
    // A matching local checksum is accepted as it stands.
    let d = digest(b"v1");
    assert!(matches!(bulk_precheck(&lib, true, Some(&d)), BulkPrecheck::AlreadyValid));
    // A mismatching one must be fetched.
    let w = digest(b"other");
    assert!(matches!(bulk_precheck(&lib, true, Some(&w)), BulkPrecheck::MustFetch));
    // No local file must be fetched.
    assert!(matches!(bulk_precheck(&lib, true, None), BulkPrecheck::MustFetch));
    // Wrong side is skipped.
    let server_only = plain_library(None, false, vec![]);
    assert!(matches!(bulk_precheck(&server_only, true, None), BulkPrecheck::SkippedWrongSide));
    // Disabled is skipped.
    let mut disabled = plain_library(None, true, vec![]);
    disabled.enabled = false;
    assert!(matches!(bulk_precheck(&disabled, true, None), BulkPrecheck::SkippedDisabled));
}

#[test]
fn bulk_fetch_outcomes() {
    let official = plain_library(None, true, vec![]);
    let mirrored = plain_library(Some("https://maven.example.net/releases"), true, vec![]);
    // Either route succeeding grabs the artifact.
    assert!(matches!(bulk_fetch_outcome(&official, true, true, false), BulkFetchOutcome::Grabbed));
    assert!(matches!(bulk_fetch_outcome(&official, true, false, true), BulkFetchOutcome::Grabbed));
    // A double failure at the official mirror on the client side is a warning.
    assert!(matches!(
        bulk_fetch_outcome(&official, true, false, false),
        BulkFetchOutcome::FailedNonFatal
    ));
    // The same on the server side is a listed failure.
    assert!(matches!(
        bulk_fetch_outcome(&official, false, false, false),
        BulkFetchOutcome::FailedListed
    ));
    // And so is one at any other mirror.
    assert!(matches!(
        bulk_fetch_outcome(&mirrored, true, false, false),
        BulkFetchOutcome::FailedListed
    ));
}

#[test]
fn requirement_begins_its_own_resolution() {
    let req = LibraryRequirement {
        coordinate: Artifact::parse("com.example:thing:1.0").unwrap(),
        expected: Some(digest(b"payload")),
        url: Some("https://example.invalid/thing.jar".to_string()),
        enabled: true,
    };
    let mut m = req.begin_resolution(0);
    assert!(matches!(m.phase, ResolvePhase::CheckLocal));
    assert!(m.step(&ResolveEvent::LocalFile(FileObservation::Present(Some(digest(b"payload"))))));
    assert!(m.is_done());
    let disabled = LibraryRequirement { enabled: false, ..req };
    assert!(matches!(
        disabled.begin_resolution(0).phase,
        ResolvePhase::Done(ResolveOutcome::Skipped)
    ));
}

#[test]
fn mojang_entry_distils_to_a_requirement() {
    let lib = MojangLibrary {
        name: Artifact::parse("a.b:thing:1.0").unwrap(),
        downloads: MojangLibraryDownloads {
            artifact: Some(MojangArtifact {
                path: Some("a/b/thing/1.0/thing-1.0.jar".to_string()),
                url: Some("https://example.invalid/thing.jar".to_string()),
                sha1: Some(digest(b"payload")),
                size: Some(10),
            }),
            classifiers: None,
        },
    };
    let req = lib.to_requirement(true);
    assert_eq!(req.coordinate.get_descriptor(), "a.b:thing:1.0");
    assert!(req.expected.unwrap() == digest(b"payload"));
    assert_eq!(req.url.as_deref(), Some("https://example.invalid/thing.jar"));
    assert!(req.enabled);
    // An entry without an artifact block carries no digest and no url.
    let bare = MojangLibrary {
        name: Artifact::parse("a.b:bare:1.0").unwrap(),
        downloads: MojangLibraryDownloads { artifact: None, classifiers: None },
    };
    let bare_req = bare.to_requirement(false);
    assert!(bare_req.expected.is_none());
    assert!(bare_req.url.is_none());
    assert!(!bare_req.enabled);
}
