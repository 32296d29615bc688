//! The artifact resolution engine: for one library requirement it tries, in
//! order, an existing local copy, the installer archive, extra local library
//! directories, and a remote download, validating every candidate against the
//! expected digest. The engine is a state machine: it decides, the caller
//! performs the file and network work and reports what it observed.
use vstd::prelude::*;
use vstd::string::*;

pub mod forge;
pub mod neoforge;

verus! {

use crate::Artifact;
use crate::Sha1Sum;

/// A distilled library requirement: what to fetch, what digest it must have,
/// where it may be downloaded from, and whether the caller enabled it.
pub struct LibraryRequirement {
    pub coordinate: Artifact,
    pub expected: Option<Sha1Sum>,
    pub url: Option<String>,
    pub enabled: bool,
}

impl LibraryRequirement {
    /// Starts the resolution of this requirement against `n_dirs` extra
    /// library directories.
    pub fn begin_resolution(&self, n_dirs: usize) -> (r: LibraryResolution)
        ensures
            r.expected.deep_view() == self.expected.deep_view(),
            r.url.deep_view() == self.url.deep_view(),
            r.n_dirs == n_dirs,
            r.phase == spec_new_resolution(r.expected, r.url, self.enabled, n_dirs).phase,
            r.target is Unknown,
            r.wf(),
    {
        let expected = match &self.expected {
            Some(d) => Some(d.clone()),
            None => None,
        };
        let url = match &self.url {
            Some(u) => Some(u.clone()),
            None => None,
        };
        LibraryResolution::new(expected, url, self.enabled, n_dirs)
    }
}

/// What is known of the file at the target path.
#[derive(Clone, Copy, Debug)]
pub enum FileKnowledge {
    /// Nothing observed yet.
    Unknown,
    /// No file at the target path.
    Absent,
    /// A file whose digest matches the expected one.
    PresentMatching,
    /// A file accepted without a digest check (none was expected).
    PresentUnverified,
    /// A file whose digest does not match the expected one.
    PresentMismatched,
}

/// Which source satisfied the requirement.
#[derive(Clone, Copy, Debug)]
pub enum ResolveSource {
    LocalExisting,
    ArchiveEntry,
    ExtraDir(usize),
    RemoteDownload,
}

/// Why the requirement could not be satisfied.
#[derive(Clone, Copy, Debug)]
pub enum ResolveFailure {
    /// No source matched and the requirement names no download url.
    MissingDownloadSource,
    /// The downloaded bytes did not match the expected digest.
    ChecksumMismatch,
    /// The remote source could not be reached.
    Unreachable,
}

/// How one resolution ended.
#[derive(Clone, Copy, Debug)]
pub enum ResolveOutcome {
    /// The caller's enablement predicate rejected the artifact: no work, no error.
    Skipped,
    /// A candidate from this source was accepted.
    Resolved(ResolveSource),
    /// Every source was exhausted.
    Failed(ResolveFailure),
    /// A stale or mismatched file could not be deleted; it would poison
    /// future runs, so the install must abort.
    CorruptedState,
}

/// Where the resolution stands: which source to consult next, which stale file
/// to delete, or how it ended.
#[derive(Clone, Copy, Debug)]
pub enum ResolvePhase {
    CheckLocal,
    DeleteLocal,
    CheckArchive,
    DeleteArchive,
    CheckDir(usize),
    Download,
    DeleteDownload,
    Done(ResolveOutcome),
}

/// What the caller observed at the target path; the digest is computed
/// whenever one is expected.
pub enum FileObservation {
    Absent,
    Present(Option<Sha1Sum>),
}

/// What the caller found at the conventional archive entry; extraction writes
/// the file to the target path, and the digest is computed whenever one is
/// expected.
pub enum ArchiveObservation {
    NoEntry,
    Extracted(Option<Sha1Sum>),
}

/// What happened in one extra library directory: no digest-matching file
/// there, a matching file copied to the target, or a failed copy whose
/// partial target was or was not cleaned up.
pub enum DirObservation {
    NoMatch,
    CopiedOk,
    CopyFailedCleanupOk,
    CopyFailedCleanupFailed,
}

/// What the remote download yielded: nothing, or bytes with their digest.
pub enum DownloadObservation {
    Unreachable,
    Fetched(Sha1Sum),
}

/// One report from the caller to the resolution machine.
pub enum ResolveEvent {
    LocalFile(FileObservation),
    ArchiveFile(ArchiveObservation),
    DeleteResult(bool),
    DirFile(DirObservation),
    DownloadResult(DownloadObservation),
}

/// The resolution machine for one requirement.
pub struct LibraryResolution {
    pub expected: Option<Sha1Sum>,
    pub url: Option<String>,
    pub n_dirs: usize,
    pub phase: ResolvePhase,
    pub target: FileKnowledge,
}

/// Whether the requirement names a usable (non-empty) download url.
pub open spec fn spec_has_url(url: Option<String>) -> bool {
    match url {
        Some(u) => u@.len() > 0,
        None => false,
    }
}

/// Whether an observed digest matches the expected one; with no expectation
/// any candidate passes.
pub open spec fn spec_digest_ok(expected: Option<Sha1Sum>, found: Sha1Sum) -> bool {
    match expected {
        Some(e) => e@ == found@,
        None => true,
    }
}

/// The freshly created machine: enabled work starts at the local check, a
/// disabled requirement is skipped outright.
pub open spec fn spec_new_resolution(
    expected: Option<Sha1Sum>,
    url: Option<String>,
    enabled: bool,
    n_dirs: usize,
) -> LibraryResolution {
    LibraryResolution {
        expected,
        url,
        n_dirs,
        phase: if enabled {
            ResolvePhase::CheckLocal
        } else {
            ResolvePhase::Done(ResolveOutcome::Skipped)
        },
        target: FileKnowledge::Unknown,
    }
}

impl LibraryResolution {
    /// The phase after a stale file is gone: the extra directories are tried
    /// only when a digest is expected, then the download; without a usable
    /// url the requirement fails for want of a download source.
    pub open spec fn spec_after_archive(self) -> ResolvePhase {
        if self.expected is Some && self.n_dirs > 0 {
            ResolvePhase::CheckDir(0)
        } else if spec_has_url(self.url) {
            ResolvePhase::Download
        } else {
            ResolvePhase::Done(ResolveOutcome::Failed(ResolveFailure::MissingDownloadSource))
        }
    }

    /// The phase after extra directory `i` yielded nothing.
    pub open spec fn spec_after_dir(self, i: int) -> ResolvePhase {
        if i + 1 < self.n_dirs {
            ResolvePhase::CheckDir((i + 1) as usize)
        } else if spec_has_url(self.url) {
            ResolvePhase::Download
        } else {
            ResolvePhase::Done(ResolveOutcome::Failed(ResolveFailure::MissingDownloadSource))
        }
    }

    /// The whole transition table: what one event makes of the machine, or
    /// nothing when the event does not answer the current phase. A candidate
    /// whose digest matches (or is not demanded) resolves; a mismatched local
    /// or extracted file must be deleted before the next source is tried; a
    /// mismatched download must be deleted before the failure is reported;
    /// and a deletion failure corrupts the run.
    pub open spec fn spec_transition(self, ev: ResolveEvent) -> Option<
        (ResolvePhase, FileKnowledge),
    > {
        match (self.phase, ev) {
            (ResolvePhase::CheckLocal, ResolveEvent::LocalFile(obs)) => match obs {
                FileObservation::Absent => Some(
                    (ResolvePhase::CheckArchive, FileKnowledge::Absent),
                ),
                FileObservation::Present(None) => {
                    if self.expected is Some {
                        None
                    } else {
                        Some(
                            (
                                ResolvePhase::Done(
                                    ResolveOutcome::Resolved(ResolveSource::LocalExisting),
                                ),
                                FileKnowledge::PresentUnverified,
                            ),
                        )
                    }
                },
                FileObservation::Present(Some(d)) => {
                    if self.expected is None {
                        Some(
                            (
                                ResolvePhase::Done(
                                    ResolveOutcome::Resolved(ResolveSource::LocalExisting),
                                ),
                                FileKnowledge::PresentUnverified,
                            ),
                        )
                    } else if spec_digest_ok(self.expected, d) {
                        Some(
                            (
                                ResolvePhase::Done(
                                    ResolveOutcome::Resolved(ResolveSource::LocalExisting),
                                ),
                                FileKnowledge::PresentMatching,
                            ),
                        )
                    } else {
                        Some((ResolvePhase::DeleteLocal, FileKnowledge::PresentMismatched))
                    }
                },
            },
            (ResolvePhase::DeleteLocal, ResolveEvent::DeleteResult(ok)) => {
                if ok {
                    Some((ResolvePhase::CheckArchive, FileKnowledge::Absent))
                } else {
                    Some(
                        (
                            ResolvePhase::Done(ResolveOutcome::CorruptedState),
                            FileKnowledge::PresentMismatched,
                        ),
                    )
                }
            },
            (ResolvePhase::CheckArchive, ResolveEvent::ArchiveFile(obs)) => match obs {
                ArchiveObservation::NoEntry => Some((self.spec_after_archive(), FileKnowledge::Absent)),
                ArchiveObservation::Extracted(None) => {
                    if self.expected is Some {
                        None
                    } else {
                        Some(
                            (
                                ResolvePhase::Done(
                                    ResolveOutcome::Resolved(ResolveSource::ArchiveEntry),
                                ),
                                FileKnowledge::PresentUnverified,
                            ),
                        )
                    }
                },
                ArchiveObservation::Extracted(Some(d)) => {
                    if self.expected is None {
                        Some(
                            (
                                ResolvePhase::Done(
                                    ResolveOutcome::Resolved(ResolveSource::ArchiveEntry),
                                ),
                                FileKnowledge::PresentUnverified,
                            ),
                        )
                    } else if spec_digest_ok(self.expected, d) {
                        Some(
                            (
                                ResolvePhase::Done(
                                    ResolveOutcome::Resolved(ResolveSource::ArchiveEntry),
                                ),
                                FileKnowledge::PresentMatching,
                            ),
                        )
                    } else {
                        Some((ResolvePhase::DeleteArchive, FileKnowledge::PresentMismatched))
                    }
                },
            },
            (ResolvePhase::DeleteArchive, ResolveEvent::DeleteResult(ok)) => {
                if ok {
                    Some((self.spec_after_archive(), FileKnowledge::Absent))
                } else {
                    Some(
                        (
                            ResolvePhase::Done(ResolveOutcome::CorruptedState),
                            FileKnowledge::PresentMismatched,
                        ),
                    )
                }
            },
            (ResolvePhase::CheckDir(i), ResolveEvent::DirFile(obs)) => match obs {
                DirObservation::NoMatch => Some((self.spec_after_dir(i as int), self.target)),
                DirObservation::CopiedOk => Some(
                    (
                        ResolvePhase::Done(ResolveOutcome::Resolved(ResolveSource::ExtraDir(i))),
                        FileKnowledge::PresentMatching,
                    ),
                ),
                DirObservation::CopyFailedCleanupOk => Some(
                    (self.spec_after_dir(i as int), FileKnowledge::Absent),
                ),
                DirObservation::CopyFailedCleanupFailed => Some(
                    (ResolvePhase::Done(ResolveOutcome::CorruptedState), FileKnowledge::Unknown),
                ),
            },
            (ResolvePhase::Download, ResolveEvent::DownloadResult(obs)) => match obs {
                DownloadObservation::Unreachable => Some(
                    (
                        ResolvePhase::Done(ResolveOutcome::Failed(ResolveFailure::Unreachable)),
                        self.target,
                    ),
                ),
                DownloadObservation::Fetched(d) => {
                    if self.expected is None {
                        Some(
                            (
                                ResolvePhase::Done(
                                    ResolveOutcome::Resolved(ResolveSource::RemoteDownload),
                                ),
                                FileKnowledge::PresentUnverified,
                            ),
                        )
                    } else if spec_digest_ok(self.expected, d) {
                        Some(
                            (
                                ResolvePhase::Done(
                                    ResolveOutcome::Resolved(ResolveSource::RemoteDownload),
                                ),
                                FileKnowledge::PresentMatching,
                            ),
                        )
                    } else {
                        Some((ResolvePhase::DeleteDownload, FileKnowledge::PresentMismatched))
                    }
                },
            },
            (ResolvePhase::DeleteDownload, ResolveEvent::DeleteResult(ok)) => {
                if ok {
                    Some(
                        (
                            ResolvePhase::Done(
                                ResolveOutcome::Failed(ResolveFailure::ChecksumMismatch),
                            ),
                            FileKnowledge::Absent,
                        ),
                    )
                } else {
                    Some(
                        (
                            ResolvePhase::Done(ResolveOutcome::CorruptedState),
                            FileKnowledge::PresentMismatched,
                        ),
                    )
                }
            },
            _ => None,
        }
    }

    /// The safety the machine keeps: a failed resolution leaves no file at
    /// the target (in particular no mismatched one), a resolution against an
    /// expected digest only ever accepts a matching file, and the directory
    /// cursor stays in range.
    pub open spec fn wf(self) -> bool {
        &&& (self.phase matches ResolvePhase::Done(ResolveOutcome::Failed(_)) ==> self.target
            is Absent)
        &&& (self.phase matches ResolvePhase::Done(ResolveOutcome::Resolved(_))
            && self.expected is Some ==> self.target is PresentMatching)
        &&& (self.phase matches ResolvePhase::CheckDir(i) ==> i < self.n_dirs
            && self.expected is Some && self.target is Absent)
        &&& (self.phase is Download ==> spec_has_url(self.url) && self.target is Absent)
    }

    /// Starts a resolution: a disabled requirement is skipped outright, an
    /// enabled one begins with the local check.
    pub fn new(expected: Option<Sha1Sum>, url: Option<String>, enabled: bool, n_dirs: usize) -> (r:
        Self)
        ensures
            r == spec_new_resolution(expected, url, enabled, n_dirs),
            r.wf(),
    {
        LibraryResolution {
            expected,
            url,
            n_dirs,
            phase: if enabled {
                ResolvePhase::CheckLocal
            } else {
                ResolvePhase::Done(ResolveOutcome::Skipped)
            },
            target: FileKnowledge::Unknown,
        }
    }

    /// Whether the machine still wants an event.
    pub fn is_done(&self) -> (r: bool)
        ensures
            r == (self.phase is Done),
    {
        match self.phase {
            ResolvePhase::Done(_) => true,
            _ => false,
        }
    }

    /// Whether the requirement names a usable (non-empty) download url.
    fn has_url(&self) -> (r: bool)
        ensures
            r == spec_has_url(self.url),
    {
        match &self.url {
            Some(u) => !u.as_str().is_empty(),
            None => false,
        }
    }

    /// The phase after the archive yielded nothing usable.
    fn after_archive(&self) -> (r: ResolvePhase)
        ensures
            r == self.spec_after_archive(),
    {
        if self.expected.is_some() && self.n_dirs > 0 {
            ResolvePhase::CheckDir(0)
        } else if self.has_url() {
            ResolvePhase::Download
        } else {
            ResolvePhase::Done(ResolveOutcome::Failed(ResolveFailure::MissingDownloadSource))
        }
    }

    /// The phase after extra directory `i` yielded nothing usable.
    fn after_dir(&self, i: usize) -> (r: ResolvePhase)
        requires
            i < self.n_dirs,
        ensures
            r == self.spec_after_dir(i as int),
    {
        if i + 1 < self.n_dirs {
            ResolvePhase::CheckDir(i + 1)
        } else if self.has_url() {
            ResolvePhase::Download
        } else {
            ResolvePhase::Done(ResolveOutcome::Failed(ResolveFailure::MissingDownloadSource))
        }
    }

    /// Whether an observed digest satisfies the expectation.
    fn digest_ok(&self, found: &Sha1Sum) -> (r: bool)
        ensures
            r == spec_digest_ok(self.expected, *found),
    {
        match &self.expected {
            Some(e) => e.equals(found),
            None => true,
        }
    }

    /// Feeds one observation to the machine. An event that does not answer
    /// the current phase is rejected and changes nothing; an accepted event
    /// moves the machine exactly as the transition table says, and keeps it
    /// well formed.
    pub fn step(&mut self, ev: &ResolveEvent) -> (accepted: bool)
        ensures
            match old(self).spec_transition(*ev) {
                Some((ph, tg)) => accepted && *final (self) == LibraryResolution {
                    phase: ph,
                    target: tg,
                    ..*old(self)
                },
                None => !accepted && *final (self) == *old(self),
            },
            old(self).wf() && accepted ==> final (self).wf(),
    {
        let next: Option<(ResolvePhase, FileKnowledge)> = match (&self.phase, ev) {
            (ResolvePhase::CheckLocal, ResolveEvent::LocalFile(obs)) => match obs {
                FileObservation::Absent => Some(
                    (ResolvePhase::CheckArchive, FileKnowledge::Absent),
                ),
                FileObservation::Present(None) => {
                    if self.expected.is_some() {
                        None
                    } else {
                        Some(
                            (
                                ResolvePhase::Done(
                                    ResolveOutcome::Resolved(ResolveSource::LocalExisting),
                                ),
                                FileKnowledge::PresentUnverified,
                            ),
                        )
                    }
                },
                FileObservation::Present(Some(d)) => {
                    if self.expected.is_none() {
                        Some(
                            (
                                ResolvePhase::Done(
                                    ResolveOutcome::Resolved(ResolveSource::LocalExisting),
                                ),
                                FileKnowledge::PresentUnverified,
                            ),
                        )
                    } else if self.digest_ok(d) {
                        Some(
                            (
                                ResolvePhase::Done(
                                    ResolveOutcome::Resolved(ResolveSource::LocalExisting),
                                ),
                                FileKnowledge::PresentMatching,
                            ),
                        )
                    } else {
                        Some((ResolvePhase::DeleteLocal, FileKnowledge::PresentMismatched))
                    }
                },
            },
            (ResolvePhase::DeleteLocal, ResolveEvent::DeleteResult(ok)) => {
                if *ok {
                    Some((ResolvePhase::CheckArchive, FileKnowledge::Absent))
                } else {
                    Some(
                        (
                            ResolvePhase::Done(ResolveOutcome::CorruptedState),
                            FileKnowledge::PresentMismatched,
                        ),
                    )
                }
            },
            (ResolvePhase::CheckArchive, ResolveEvent::ArchiveFile(obs)) => match obs {
                ArchiveObservation::NoEntry => Some((self.after_archive(), FileKnowledge::Absent)),
                ArchiveObservation::Extracted(None) => {
                    if self.expected.is_some() {
                        None
                    } else {
                        Some(
                            (
                                ResolvePhase::Done(
                                    ResolveOutcome::Resolved(ResolveSource::ArchiveEntry),
                                ),
                                FileKnowledge::PresentUnverified,
                            ),
                        )
                    }
                },
                ArchiveObservation::Extracted(Some(d)) => {
                    if self.expected.is_none() {
                        Some(
                            (
                                ResolvePhase::Done(
                                    ResolveOutcome::Resolved(ResolveSource::ArchiveEntry),
                                ),
                                FileKnowledge::PresentUnverified,
                            ),
                        )
                    } else if self.digest_ok(d) {
                        Some(
                            (
                                ResolvePhase::Done(
                                    ResolveOutcome::Resolved(ResolveSource::ArchiveEntry),
                                ),
                                FileKnowledge::PresentMatching,
                            ),
                        )
                    } else {
                        Some((ResolvePhase::DeleteArchive, FileKnowledge::PresentMismatched))
                    }
                },
            },
            (ResolvePhase::DeleteArchive, ResolveEvent::DeleteResult(ok)) => {
                if *ok {
                    Some((self.after_archive(), FileKnowledge::Absent))
                } else {
                    Some(
                        (
                            ResolvePhase::Done(ResolveOutcome::CorruptedState),
                            FileKnowledge::PresentMismatched,
                        ),
                    )
                }
            },
            (ResolvePhase::CheckDir(i), ResolveEvent::DirFile(obs)) => {
                let i = *i;
                if i >= self.n_dirs {
                    // Unreachable from `new` and `step`, yet the table must
                    // answer arbitrary states too.
                    match obs {
                        DirObservation::NoMatch => Some(
                            (self.after_dir_unchecked(i), self.target_copy()),
                        ),
                        DirObservation::CopiedOk => Some(
                            (
                                ResolvePhase::Done(
                                    ResolveOutcome::Resolved(ResolveSource::ExtraDir(i)),
                                ),
                                FileKnowledge::PresentMatching,
                            ),
                        ),
                        DirObservation::CopyFailedCleanupOk => Some(
                            (self.after_dir_unchecked(i), FileKnowledge::Absent),
                        ),
                        DirObservation::CopyFailedCleanupFailed => Some(
                            (ResolvePhase::Done(ResolveOutcome::CorruptedState), FileKnowledge::Unknown),
                        ),
                    }
                } else {
                    match obs {
                        DirObservation::NoMatch => Some((self.after_dir(i), self.target_copy())),
                        DirObservation::CopiedOk => Some(
                            (
                                ResolvePhase::Done(
                                    ResolveOutcome::Resolved(ResolveSource::ExtraDir(i)),
                                ),
                                FileKnowledge::PresentMatching,
                            ),
                        ),
                        DirObservation::CopyFailedCleanupOk => Some(
                            (self.after_dir(i), FileKnowledge::Absent),
                        ),
                        DirObservation::CopyFailedCleanupFailed => Some(
                            (ResolvePhase::Done(ResolveOutcome::CorruptedState), FileKnowledge::Unknown),
                        ),
                    }
                }
            },
            (ResolvePhase::Download, ResolveEvent::DownloadResult(obs)) => match obs {
                DownloadObservation::Unreachable => Some(
                    (
                        ResolvePhase::Done(ResolveOutcome::Failed(ResolveFailure::Unreachable)),
                        self.target_copy(),
                    ),
                ),
                DownloadObservation::Fetched(d) => {
                    if self.expected.is_none() {
                        Some(
                            (
                                ResolvePhase::Done(
                                    ResolveOutcome::Resolved(ResolveSource::RemoteDownload),
                                ),
                                FileKnowledge::PresentUnverified,
                            ),
                        )
                    } else if self.digest_ok(d) {
                        Some(
                            (
                                ResolvePhase::Done(
                                    ResolveOutcome::Resolved(ResolveSource::RemoteDownload),
                                ),
                                FileKnowledge::PresentMatching,
                            ),
                        )
                    } else {
                        Some((ResolvePhase::DeleteDownload, FileKnowledge::PresentMismatched))
                    }
                },
            },
            (ResolvePhase::DeleteDownload, ResolveEvent::DeleteResult(ok)) => {
                if *ok {
                    Some(
                        (
                            ResolvePhase::Done(
                                ResolveOutcome::Failed(ResolveFailure::ChecksumMismatch),
                            ),
                            FileKnowledge::Absent,
                        ),
                    )
                } else {
                    Some(
                        (
                            ResolvePhase::Done(ResolveOutcome::CorruptedState),
                            FileKnowledge::PresentMismatched,
                        ),
                    )
                }
            },
            _ => None,
        };
        match next {
            Some((ph, tg)) => {
                self.phase = ph;
                self.target = tg;
                true
            },
            None => false,
        }
    }

    /// The phase after extra directory `i`, tolerating an out-of-range cursor.
    fn after_dir_unchecked(&self, i: usize) -> (r: ResolvePhase)
        ensures
            r == self.spec_after_dir(i as int),
    {
        if i < usize::MAX && i + 1 < self.n_dirs {
            ResolvePhase::CheckDir(i + 1)
        } else if self.has_url() {
            ResolvePhase::Download
        } else {
            ResolvePhase::Done(ResolveOutcome::Failed(ResolveFailure::MissingDownloadSource))
        }
    }

    /// The current knowledge of the target file.
    fn target_copy(&self) -> (r: FileKnowledge)
        ensures
            r == self.target,
    {
        match self.target {
            FileKnowledge::Unknown => FileKnowledge::Unknown,
            FileKnowledge::Absent => FileKnowledge::Absent,
            FileKnowledge::PresentMatching => FileKnowledge::PresentMatching,
            FileKnowledge::PresentUnverified => FileKnowledge::PresentUnverified,
            FileKnowledge::PresentMismatched => FileKnowledge::PresentMismatched,
        }
    }
}

/// The machine after one event: moved per the transition table, or unchanged
/// when the event does not answer the phase.
pub open spec fn spec_apply(m: LibraryResolution, ev: ResolveEvent) -> LibraryResolution {
    match m.spec_transition(ev) {
        Some((ph, tg)) => LibraryResolution { phase: ph, target: tg, ..m },
        None => m,
    }
}

/// The machine after a whole sequence of events.
pub open spec fn spec_run(m: LibraryResolution, evs: Seq<ResolveEvent>) -> LibraryResolution
    decreases evs.len(),
{
    if evs.len() == 0 {
        m
    } else {
        spec_run(spec_apply(m, evs[0]), evs.drop_first())
    }
}

/// Running the events and then one more is one more step after the run.
pub proof fn lemma_spec_run_snoc(m: LibraryResolution, evs: Seq<ResolveEvent>, ev: ResolveEvent)
    ensures
        spec_run(m, evs.push(ev)) == spec_apply(spec_run(m, evs), ev),
    decreases evs.len(),
{
    if evs.len() == 0 {
        assert(evs.push(ev)[0] == ev);
        assert(evs.push(ev).drop_first() =~= Seq::<ResolveEvent>::empty());
        assert(spec_run(spec_apply(m, ev), Seq::<ResolveEvent>::empty()) == spec_apply(m, ev));
        assert(spec_run(m, evs.push(ev)) == spec_run(
            spec_apply(m, evs.push(ev)[0]),
            evs.push(ev).drop_first(),
        ));
        assert(spec_run(m, evs) == m);
    } else {
        assert(evs.push(ev)[0] == evs[0]);
        assert(evs.push(ev).drop_first() =~= evs.drop_first().push(ev));
        lemma_spec_run_snoc(spec_apply(m, evs[0]), evs.drop_first(), ev);
        assert(spec_run(m, evs.push(ev)) == spec_run(
            spec_apply(m, evs.push(ev)[0]),
            evs.push(ev).drop_first(),
        ));
        assert(spec_run(m, evs) == spec_run(spec_apply(m, evs[0]), evs.drop_first()));
    }
}

/// One event keeps the machine well formed.
pub proof fn lemma_apply_wf(m: LibraryResolution, ev: ResolveEvent)
    requires
        m.wf(),
    ensures
        spec_apply(m, ev).wf(),
{
}

/// A resolution run never ends in failure with a file left at the target:
/// whatever the observations were, the machine stays well formed, and a run
/// that reports failure knows the target path holds nothing — in particular
/// no digest-mismatched file is left behind.
pub proof fn lemma_failed_resolution_leaves_no_file(m: LibraryResolution, evs: Seq<ResolveEvent>)
    requires
        m.wf(),
    ensures
        spec_run(m, evs).wf(),
        spec_run(m, evs).phase matches ResolvePhase::Done(ResolveOutcome::Failed(_)) ==> spec_run(
            m,
            evs,
        ).target is Absent,
    decreases evs.len(),
{
    if evs.len() > 0 {
        lemma_apply_wf(m, evs[0]);
        lemma_failed_resolution_leaves_no_file(spec_apply(m, evs[0]), evs.drop_first());
    }
}

/// Resolution is idempotent: against a target that already holds a file whose
/// digest matches the expectation, the very first observation resolves the
/// requirement from the existing local copy, and the machine asks for nothing
/// further — no archive read, no directory copy, no download.
pub proof fn lemma_resolution_idempotent(
    expected: Sha1Sum,
    found: Sha1Sum,
    url: Option<String>,
    n_dirs: usize,
)
    requires
        expected@ == found@,
    ensures
        ({
            let m0 = spec_new_resolution(Some(expected), url, true, n_dirs);
            let m1 = spec_apply(
                m0,
                ResolveEvent::LocalFile(FileObservation::Present(Some(found))),
            );
            &&& m1.phase == ResolvePhase::Done(
                ResolveOutcome::Resolved(ResolveSource::LocalExisting),
            )
            &&& m1.target is PresentMatching
            &&& forall|ev: ResolveEvent| m1.spec_transition(ev) is None
        }),
{
}

/// A locally present file of the wrong digest is deleted and the requirement
/// re-resolved from the next source: the mismatch forces a deletion, and once
/// the stale file is gone the machine moves on to the installer archive with
/// the target known clean.
pub proof fn lemma_stale_file_deleted_and_retried(
    expected: Sha1Sum,
    found: Sha1Sum,
    url: Option<String>,
    n_dirs: usize,
)
    requires
        expected@ != found@,
    ensures
        ({
            let m0 = spec_new_resolution(Some(expected), url, true, n_dirs);
            let m1 = spec_apply(
                m0,
                ResolveEvent::LocalFile(FileObservation::Present(Some(found))),
            );
            let m2 = spec_apply(m1, ResolveEvent::DeleteResult(true));
            &&& m1.phase is DeleteLocal
            &&& m1.target is PresentMismatched
            &&& m2.phase is CheckArchive
            &&& m2.target is Absent
        }),
{
}

/// End to end, two library requirements: one whose expected digest matches
/// what the remote serves, one whose digest matches nothing any source
/// yields. With no local copy and no archive entry for either, the run
/// resolves the first from its download, fails the second with a checksum
/// mismatch after deleting the bad download, leaves no file at the second's
/// target, and a ledger that records both outcomes holds exactly the first
/// artifact as grabbed and exactly the second as failed.
pub proof fn lemma_two_library_run(
    e1: Sha1Sum,
    d1: Sha1Sum,
    u1: Option<String>,
    e2: Sha1Sum,
    d2: Sha1Sum,
    u2: Option<String>,
    c1: crate::ArtifactView,
    c2: crate::ArtifactView,
)
    requires
        e1@ == d1@,
        e2@ != d2@,
        spec_has_url(u1),
        spec_has_url(u2),
    ensures
        ({
            let s1 = seq![
                ResolveEvent::LocalFile(FileObservation::Absent),
                ResolveEvent::ArchiveFile(ArchiveObservation::NoEntry),
                ResolveEvent::DownloadResult(DownloadObservation::Fetched(d1)),
            ];
            let s2 = seq![
                ResolveEvent::LocalFile(FileObservation::Absent),
                ResolveEvent::ArchiveFile(ArchiveObservation::NoEntry),
                ResolveEvent::DownloadResult(DownloadObservation::Fetched(d2)),
                ResolveEvent::DeleteResult(true),
            ];
            let m1 = spec_run(spec_new_resolution(Some(e1), u1, true, 0), s1);
            let m2 = spec_run(spec_new_resolution(Some(e2), u2, true, 0), s2);
            let (g1, f1) = spec_record(
                Seq::<crate::ArtifactView>::empty(),
                Seq::<crate::ArtifactView>::empty(),
                c1,
                m1.phase->Done_0,
            );
            let (g2, f2) = spec_record(g1, f1, c2, m2.phase->Done_0);
            &&& m1.phase == ResolvePhase::Done(
                ResolveOutcome::Resolved(ResolveSource::RemoteDownload),
            )
            &&& m2.phase == ResolvePhase::Done(
                ResolveOutcome::Failed(ResolveFailure::ChecksumMismatch),
            )
            &&& m2.target is Absent
            &&& g2 == seq![c1]
            &&& f2 == seq![c2]
        }),
{
    let ev_local = ResolveEvent::LocalFile(FileObservation::Absent);
    let ev_archive = ResolveEvent::ArchiveFile(ArchiveObservation::NoEntry);
    let ev_d1 = ResolveEvent::DownloadResult(DownloadObservation::Fetched(d1));
    let ev_d2 = ResolveEvent::DownloadResult(DownloadObservation::Fetched(d2));
    let ev_del = ResolveEvent::DeleteResult(true);
    let s1 = seq![ev_local, ev_archive, ev_d1];
    let s2 = seq![ev_local, ev_archive, ev_d2, ev_del];

    // The first run, event by event.
    let n0 = spec_new_resolution(Some(e1), u1, true, 0);
    let n1 = spec_apply(n0, ev_local);
    let n2 = spec_apply(n1, ev_archive);
    let n3 = spec_apply(n2, ev_d1);
    assert(n1.phase is CheckArchive);
    assert(n2.phase is Download);
    assert(n3.phase == ResolvePhase::Done(ResolveOutcome::Resolved(ResolveSource::RemoteDownload)));
    assert(s1[0] == ev_local && s1.drop_first() =~= seq![ev_archive, ev_d1]);
    assert(spec_run(n0, s1) == spec_run(n1, seq![ev_archive, ev_d1]));
    assert(seq![ev_archive, ev_d1][0] == ev_archive && seq![ev_archive, ev_d1].drop_first()
        =~= seq![ev_d1]);
    assert(spec_run(n1, seq![ev_archive, ev_d1]) == spec_run(n2, seq![ev_d1]));
    assert(seq![ev_d1][0] == ev_d1 && seq![ev_d1].drop_first() =~= Seq::<ResolveEvent>::empty());
    assert(spec_run(n2, seq![ev_d1]) == spec_run(n3, Seq::<ResolveEvent>::empty()));
    assert(spec_run(n3, Seq::<ResolveEvent>::empty()) == n3);
    assert(spec_run(n0, s1) == n3);

    // The second run, event by event.
    let p0 = spec_new_resolution(Some(e2), u2, true, 0);
    let p1 = spec_apply(p0, ev_local);
    let p2 = spec_apply(p1, ev_archive);
    let p3 = spec_apply(p2, ev_d2);
    let p4 = spec_apply(p3, ev_del);
    assert(p1.phase is CheckArchive);
    assert(p2.phase is Download);
    assert(p3.phase is DeleteDownload);
    assert(p4.phase == ResolvePhase::Done(ResolveOutcome::Failed(ResolveFailure::ChecksumMismatch)));
    assert(p4.target is Absent);
    assert(s2[0] == ev_local && s2.drop_first() =~= seq![ev_archive, ev_d2, ev_del]);
    assert(spec_run(p0, s2) == spec_run(p1, seq![ev_archive, ev_d2, ev_del]));
    assert(seq![ev_archive, ev_d2, ev_del][0] == ev_archive && seq![
        ev_archive,
        ev_d2,
        ev_del,
    ].drop_first() =~= seq![ev_d2, ev_del]);
    assert(spec_run(p1, seq![ev_archive, ev_d2, ev_del]) == spec_run(p2, seq![ev_d2, ev_del]));
    assert(seq![ev_d2, ev_del][0] == ev_d2 && seq![ev_d2, ev_del].drop_first() =~= seq![ev_del]);
    assert(spec_run(p2, seq![ev_d2, ev_del]) == spec_run(p3, seq![ev_del]));
    assert(seq![ev_del][0] == ev_del && seq![ev_del].drop_first()
        =~= Seq::<ResolveEvent>::empty());
    assert(spec_run(p3, seq![ev_del]) == spec_run(p4, Seq::<ResolveEvent>::empty()));
    assert(spec_run(p4, Seq::<ResolveEvent>::empty()) == p4);
    assert(spec_run(p0, s2) == p4);

    // The ledger: one grabbed artifact, then one failed artifact.
    assert(Seq::<crate::ArtifactView>::empty().push(c1) =~= seq![c1]);
    assert(Seq::<crate::ArtifactView>::empty().push(c2) =~= seq![c2]);
}

/// Runs one resolution against a recorded sequence of observations, stopping
/// once the machine is done; observations that do not answer the current
/// phase are ignored, as the transition table says.
pub fn resolve_scripted(
    expected: Option<Sha1Sum>,
    url: Option<String>,
    enabled: bool,
    n_dirs: usize,
    events: &Vec<ResolveEvent>,
) -> (r: LibraryResolution)
    ensures
        r == spec_run(spec_new_resolution(expected, url, enabled, n_dirs), events@),
        r.wf(),
{
    let ghost init = spec_new_resolution(expected, url, enabled, n_dirs);
    let mut m = LibraryResolution::new(expected, url, enabled, n_dirs);
    let n = events.len();
    let mut i: usize = 0;
    while i < n
        invariant
            n == events@.len(),
            i <= n,
            m == spec_run(init, events@.subrange(0, i as int)),
            m.wf(),
        decreases n - i,
    {
        let ghost pre = events@.subrange(0, i as int);
        let _ = m.step(&events[i]);
        proof {
            assert(events@.subrange(0, i + 1 as int) =~= pre.push(events@[i as int]));
            lemma_spec_run_snoc(init, pre, events@[i as int]);
        }
        i = i + 1;
    }
    proof {
        assert(events@.subrange(0, n as int) =~= events@);
    }
    m
}

/// What the bulk (legacy) resolution decides about one library before any
/// fetching: skip it, accept the local copy, or fetch.
#[derive(Clone, Copy, Debug)]
pub enum BulkPrecheck {
    /// The library is not required on this side.
    SkippedWrongSide,
    /// The library is required but the caller disabled it.
    SkippedDisabled,
    /// A local copy matches one of the listed checksums.
    AlreadyValid,
    /// The library must be fetched by url or extracted from the archive.
    MustFetch,
}

/// How one bulk fetch attempt ends in the ledger.
#[derive(Clone, Copy, Debug)]
pub enum BulkFetchOutcome {
    /// The download or the archive extraction produced the file.
    Grabbed,
    /// Both failed, but the library is hosted at the official mirror and this
    /// is the client side: the launcher heals it on its next run, a warning.
    FailedNonFatal,
    /// Both failed: listed among the failures reported to the caller.
    FailedListed,
}

use crate::forge_installer_profile::v1::{ForgeLibrary, spec_is_side};
use crate::strutil::{str_eq, starts_with_str, spec_starts_with};

/// The side marker the bulk resolution asks libraries about.
pub open spec fn spec_side_marker(is_client: bool) -> Seq<char> {
    if is_client {
        "clientreq"@
    } else {
        "serverreq"@
    }
}

/// Whether the library's download base is the official mirror: no url of its
/// own, or one naming that origin.
pub open spec fn spec_official_mirror(lib: ForgeLibrary) -> bool {
    match lib.url {
        None => true,
        Some(u) => u@ == "https://libraries.minecraft.net"@ || spec_starts_with(
            u@,
            "https://libraries.minecraft.net/"@,
        ),
    }
}

/// Decides one library of the bulk (legacy) resolution before any fetching:
/// a wrong-side or disabled library is skipped, a local copy matching one of
/// the listed checksums is accepted as it stands, anything else must be
/// fetched.
pub fn bulk_precheck(lib: &ForgeLibrary, is_client: bool, local_digest: Option<&Sha1Sum>) -> (r:
    BulkPrecheck)
    ensures
        r is SkippedWrongSide <==> !spec_is_side(*lib, spec_side_marker(is_client)),
        r is SkippedDisabled <==> (spec_is_side(*lib, spec_side_marker(is_client)) && !lib.enabled),
        r is AlreadyValid <==> (spec_is_side(*lib, spec_side_marker(is_client)) && lib.enabled && (
        match local_digest {
            Some(d) => lib.checksums@.len() > 0 && lib.checksums.deep_view().contains(d@),
            None => false,
        })),
        r is MustFetch <==> (spec_is_side(*lib, spec_side_marker(is_client)) && lib.enabled && !(
        match local_digest {
            Some(d) => lib.checksums@.len() > 0 && lib.checksums.deep_view().contains(d@),
            None => false,
        })),
{
    let marker = if is_client {
        "clientreq"
    } else {
        "serverreq"
    };
    proof {
        assert(marker@ == spec_side_marker(is_client));
    }
    if !lib.is_side(marker) {
        return BulkPrecheck::SkippedWrongSide;
    }
    if !lib.enabled {
        return BulkPrecheck::SkippedDisabled;
    }
    match local_digest {
        Some(d) => {
            let n = lib.checksums.len();
            let mut i: usize = 0;
            while i < n
                invariant
                    n == lib.checksums@.len(),
                    i <= n,
                    spec_is_side(*lib, spec_side_marker(is_client)),
                    lib.enabled,
                    local_digest == Some(d),
                    forall|j: int| 0 <= j < i ==> lib.checksums.deep_view()[j] != d@,
                decreases n - i,
            {
                if lib.checksums[i].equals(d) {
                    proof {
                        assert(lib.checksums.deep_view()[i as int] == d@);
                        assert(lib.checksums.deep_view().contains(d@));
                    }
                    return BulkPrecheck::AlreadyValid;
                }
                i = i + 1;
            }
            proof {
                assert(forall|j: int|
                    0 <= j < lib.checksums.deep_view().len() ==> lib.checksums.deep_view()[j]
                        != d@);
            }
            BulkPrecheck::MustFetch
        },
        None => BulkPrecheck::MustFetch,
    }
}

/// Decides the ledger effect of one bulk fetch attempt: success on either
/// route grabs the artifact; a double failure is a mere warning for an
/// official-mirror library on the client side, and a listed failure otherwise.
pub fn bulk_fetch_outcome(lib: &ForgeLibrary, is_client: bool, fetched_ok: bool, extracted_ok:
    bool) -> (r: BulkFetchOutcome)
    ensures
        r is Grabbed <==> (fetched_ok || extracted_ok),
        r is FailedNonFatal <==> (!fetched_ok && !extracted_ok && is_client && spec_official_mirror(
            *lib,
        )),
        r is FailedListed <==> (!fetched_ok && !extracted_ok && !(is_client
            && spec_official_mirror(*lib))),
{
    if fetched_ok || extracted_ok {
        return BulkFetchOutcome::Grabbed;
    }
    let official = match &lib.url {
        None => true,
        Some(u) => str_eq(u.as_str(), "https://libraries.minecraft.net") || starts_with_str(
            u.as_str(),
            "https://libraries.minecraft.net/",
        ),
    };
    if is_client && official {
        BulkFetchOutcome::FailedNonFatal
    } else {
        BulkFetchOutcome::FailedListed
    }
}

/// What one recorded outcome makes of the ledger: a resolved artifact joins
/// the grabbed list, an exhausted one the failed list, and a skipped
/// requirement or a corrupted run (which aborts the install) changes nothing.
pub open spec fn spec_record(
    grabbed: Seq<crate::ArtifactView>,
    failed: Seq<crate::ArtifactView>,
    coordinate: crate::ArtifactView,
    outcome: ResolveOutcome,
) -> (Seq<crate::ArtifactView>, Seq<crate::ArtifactView>) {
    match outcome {
        ResolveOutcome::Resolved(_) => (grabbed.push(coordinate), failed),
        ResolveOutcome::Failed(_) => (grabbed, failed.push(coordinate)),
        ResolveOutcome::Skipped => (grabbed, failed),
        ResolveOutcome::CorruptedState => (grabbed, failed),
    }
}

/// The run-scoped record of which artifacts were obtained and which failed.
pub struct ResolutionLedger {
    pub grabbed: Vec<Artifact>,
    pub failed: Vec<Artifact>,
}

impl ResolutionLedger {
    /// An empty ledger.
    pub fn new() -> (r: Self)
        ensures
            r.grabbed@.len() == 0,
            r.failed@.len() == 0,
    {
        ResolutionLedger { grabbed: Vec::new(), failed: Vec::new() }
    }

    /// Writes one outcome: a resolved artifact goes to the grabbed list,
    /// exactly once; an exhausted one to the failed list; a skipped
    /// requirement and a corrupted run (which aborts the install) leave the
    /// ledger untouched.
    pub fn record(&mut self, coordinate: &Artifact, outcome: &ResolveOutcome)
        ensures
            (final (self).grabbed.deep_view(), final (self).failed.deep_view()) == spec_record(
                old(self).grabbed.deep_view(),
                old(self).failed.deep_view(),
                coordinate@,
                *outcome,
            ),
            outcome is Resolved ==> final (self).failed == old(self).failed,
            outcome is Failed ==> final (self).grabbed == old(self).grabbed,
            (outcome is Skipped || outcome is CorruptedState) ==> final (self).grabbed == old(
                self,
            ).grabbed && final (self).failed == old(self).failed,
    {
        match outcome {
            ResolveOutcome::Resolved(_) => {
                let ghost before = self.grabbed.deep_view();
                self.grabbed.push(coordinate.clone());
                proof {
                    assert(self.grabbed.deep_view() =~= before.push(coordinate@));
                }
            },
            ResolveOutcome::Failed(_) => {
                let ghost before = self.failed.deep_view();
                self.failed.push(coordinate.clone());
                proof {
                    assert(self.failed.deep_view() =~= before.push(coordinate@));
                }
            },
            ResolveOutcome::Skipped => {},
            ResolveOutcome::CorruptedState => {},
        }
    }
}

} // verus!
