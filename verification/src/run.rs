//! The run: what is done with each file, what each file's outcome is, and
//! what the run as a whole comes to.
//!
//! A file goes from pending to one of five states. The caller does what the
//! plan says, reports what came of it, and the log draws the conclusions: only
//! a file whose checksum was found equal on both sides enters the hash list.

use vstd::prelude::*;
use crate::algorithm::{Algorithm, ConfigurationError};
use crate::digest::spec_checksum;
use crate::manifest::{spec_record_views, FileRecord, FileRecordView};
use crate::verify::{
    checksums_match,
    spec_checksum_view,
    spec_checksums_match,
    Checksum,
    ChecksumView,
};

verus! {

/// What is wrong with the two directories of a run.
#[derive(Clone, Copy, Debug, PartialEq, Eq, Structural)]
pub enum PathError {
    /// There is no source directory.
    SourceMissing,
    /// There is no destination directory.
    DestinationMissing,
    /// The source is not a directory.
    SourceNotDirectory,
    /// The destination is not a directory.
    DestinationNotDirectory,
    /// Source and destination are the same directory.
    SameDirectory,
}

/// What the file system says of the two directories of a run.
#[derive(Clone, Copy, Debug, PartialEq, Eq, Structural)]
pub struct RootFacts {
    pub source_exists: bool,
    pub destination_exists: bool,
    pub source_is_directory: bool,
    pub destination_is_directory: bool,
    pub same_path: bool,
}

/// The first thing wrong with the two directories, if anything is: both
/// must exist, both must be directories, and they must differ.
pub open spec fn spec_check_roots(facts: RootFacts) -> Result<(), PathError> {
    if !facts.source_exists {
        Err(PathError::SourceMissing)
    } else if !facts.destination_exists {
        Err(PathError::DestinationMissing)
    } else if !facts.source_is_directory {
        Err(PathError::SourceNotDirectory)
    } else if !facts.destination_is_directory {
        Err(PathError::DestinationNotDirectory)
    } else if facts.same_path {
        Err(PathError::SameDirectory)
    } else {
        Ok(())
    }
}

/// Checks the two directories of a run before any file is touched.
pub fn check_roots(facts: RootFacts) -> (outcome: Result<(), PathError>)
    ensures
        outcome == spec_check_roots(facts),
{
    if !facts.source_exists {
        Err(PathError::SourceMissing)
    } else if !facts.destination_exists {
        Err(PathError::DestinationMissing)
    } else if !facts.source_is_directory {
        Err(PathError::SourceNotDirectory)
    } else if !facts.destination_is_directory {
        Err(PathError::DestinationNotDirectory)
    } else if facts.same_path {
        Err(PathError::SameDirectory)
    } else {
        Ok(())
    }
}

/// The checksum algorithm that a run is asked to use, if any: no request
/// means no checksums, and a request must name one of the algorithms.
pub fn requested_algorithm(request: Option<&str>) -> (outcome: Result<
    Option<Algorithm>,
    ConfigurationError,
>)
    ensures
        match request {
            None => outcome == Ok::<Option<Algorithm>, ConfigurationError>(None),
            Some(name) => match outcome {
                Ok(chosen) => chosen matches Some(a) && name@ == a.spec_name(),
                Err(e) => e == ConfigurationError::UnknownAlgorithm && forall|a: Algorithm|
                    name@ != #[trigger] a.spec_name(),
            },
        },
{
    match request {
        None => Ok(None),
        Some(name) => match Algorithm::parse(name) {
            Ok(a) => Ok(Some(a)),
            Err(e) => Err(e),
        },
    }
}

/// Why the copy of one file failed.
#[derive(Clone, Copy, Debug, PartialEq, Eq, Structural)]
pub enum CopyError {
    /// The destination's parent directory could not be made.
    CreateParent,
    /// The source could not be opened.
    OpenSource,
    /// The destination could not be created.
    CreateDestination,
    /// Reading the source failed.
    Read,
    /// Writing the destination failed.
    Write,
    /// The file is longer than the algorithm can hash.
    InputTooLong,
    /// The source's metadata could not be read.
    Metadata,
    /// The permissions could not be set on the destination.
    Permissions,
    /// The source has no creation time to hand on.
    CreationTimeUnavailable,
    /// The times could not be set on the destination.
    Timestamps,
}

/// What is to be done with a pending file.
#[derive(Clone, Copy, Debug, PartialEq, Eq, Structural)]
pub enum Action {
    /// The destination holds a file of the same size: both sides are hashed
    /// and compared, and nothing is written.
    VerifyInPlace,
    /// The file is copied, and verified if a checksum was asked for.
    Copy,
    /// A preview: the file is only reported. `in_place` says whether the
    /// destination holds a file of the same size.
    Report { in_place: bool },
}

/// What is to be done with a file of `source_size` bytes, given the size of
/// the file at its destination, if there is one. Size alone decides between
/// verifying in place and copying; it never passes for equality of content.
pub open spec fn spec_plan(source_size: u64, destination_size: Option<u64>, preview: bool) -> Action {
    let in_place = destination_size == Some(source_size);
    if preview {
        Action::Report { in_place }
    } else if in_place {
        Action::VerifyInPlace
    } else {
        Action::Copy
    }
}

/// Whether an action writes to the destination.
pub open spec fn spec_writes(action: Action) -> bool {
    action is Copy
}

/// Plans what is to be done with a pending file.
pub fn plan_file(source_size: u64, destination_size: Option<u64>, preview: bool) -> (action: Action)
    ensures
        action == spec_plan(source_size, destination_size, preview),
        preview ==> !spec_writes(action),
{
    let in_place = match destination_size {
        Some(size) => size == source_size,
        None => false,
    };
    if preview {
        Action::Report { in_place }
    } else if in_place {
        Action::VerifyInPlace
    } else {
        Action::Copy
    }
}

/// Whether an empty directory of the source is made at the destination: it
/// is, unless it is there already or the run is a preview.
pub fn should_create_directory(exists: bool, preview: bool) -> (create: bool)
    ensures
        create == (!exists && !preview),
{
    !exists && !preview
}

/// A file of the source as the run sees it.
#[derive(Clone, Debug, PartialEq, Eq)]
pub struct SourceFile {
    /// The file's path, as it is shown.
    pub source_path: String,
    /// The file's path relative to the destination root.
    pub relative_path: String,
    /// The file's size in bytes.
    pub size_bytes: u64,
    /// When the file was last modified, in seconds since the epoch.
    pub modified_at: i64,
}

/// A `SourceFile` with its texts as plain sequences of characters.
pub struct SourceFileView {
    pub source_path: Seq<char>,
    pub relative_path: Seq<char>,
    pub size_bytes: u64,
    pub modified_at: i64,
}

impl View for SourceFile {
    type V = SourceFileView;

    open spec fn view(&self) -> SourceFileView {
        SourceFileView {
            source_path: self.source_path@,
            relative_path: self.relative_path@,
            size_bytes: self.size_bytes,
            modified_at: self.modified_at,
        }
    }
}

/// What came of carrying out a file's plan.
#[derive(Clone, Debug, PartialEq, Eq)]
pub enum Evidence {
    /// The file was found in place and both sides were hashed. A side has no
    /// checksum where it could not be computed.
    InPlace { source: Option<Checksum>, destination: Option<Checksum> },
    /// The copy failed.
    CopyFailed { error: CopyError },
    /// The file was copied and no checksum was asked for.
    CopiedUnchecked,
    /// The file was copied and hashed on the way, which gave `streamed`, and
    /// the destination was hashed afterwards, where that could be done.
    Copied { streamed: Checksum, destination: Option<Checksum> },
}

/// An `Evidence` as plain values.
pub enum EvidenceView {
    InPlace { source: Option<ChecksumView>, destination: Option<ChecksumView> },
    CopyFailed { error: CopyError },
    CopiedUnchecked,
    Copied { streamed: ChecksumView, destination: Option<ChecksumView> },
}

impl View for Evidence {
    type V = EvidenceView;

    open spec fn view(&self) -> EvidenceView {
        match self {
            Evidence::InPlace { source, destination } => EvidenceView::InPlace {
                source: spec_checksum_view(*source),
                destination: spec_checksum_view(*destination),
            },
            Evidence::CopyFailed { error } => EvidenceView::CopyFailed { error: *error },
            Evidence::CopiedUnchecked => EvidenceView::CopiedUnchecked,
            Evidence::Copied { streamed, destination } => EvidenceView::Copied {
                streamed: streamed@,
                destination: spec_checksum_view(*destination),
            },
        }
    }
}

/// The state that a file ends in.
#[derive(Clone, Copy, Debug, PartialEq, Eq, Structural)]
pub enum FileState {
    /// Found in place, and the checksums of both sides agree.
    SkippedVerified,
    /// Found in place, and the checksums differ or one could not be had.
    SkippedFailed,
    /// Copied, and the checksums of both sides agree.
    CopiedVerified,
    /// The copy failed, or the checksums differ or the destination's could
    /// not be had.
    CopiedFailed,
    /// Copied without a checksum.
    CopiedNoChecksum,
}

impl FileState {
    /// Whether the state is one of failure.
    pub open spec fn spec_is_failure(self) -> bool {
        self == FileState::SkippedFailed || self == FileState::CopiedFailed
    }

    /// Whether the state is one in which the checksums of both sides were
    /// found to agree.
    pub open spec fn spec_is_verified(self) -> bool {
        self == FileState::SkippedVerified || self == FileState::CopiedVerified
    }

    /// Whether the state is one of failure.
    pub fn is_failure(self) -> (failure: bool)
        ensures
            failure == self.spec_is_failure(),
    {
        match self {
            FileState::SkippedFailed => true,
            FileState::CopiedFailed => true,
            _ => false,
        }
    }

    /// Whether the checksums of both sides were found to agree.
    pub fn is_verified(self) -> (verified: bool)
        ensures
            verified == self.spec_is_verified(),
    {
        match self {
            FileState::SkippedVerified => true,
            FileState::CopiedVerified => true,
            _ => false,
        }
    }
}

/// Whether both checksums are there and agree.
pub open spec fn spec_both_agree(source: Option<ChecksumView>, destination: Option<ChecksumView>) -> bool {
    source is Some && destination is Some && spec_checksums_match(source->0, destination->0)
}

/// The state that the evidence puts a file in. Any checksum that differs or
/// is missing is a failure.
pub open spec fn spec_state(evidence: EvidenceView) -> FileState {
    match evidence {
        EvidenceView::InPlace { source, destination } => if spec_both_agree(source, destination) {
            FileState::SkippedVerified
        } else {
            FileState::SkippedFailed
        },
        EvidenceView::CopyFailed { .. } => FileState::CopiedFailed,
        EvidenceView::CopiedUnchecked => FileState::CopiedNoChecksum,
        EvidenceView::Copied { streamed, destination } => if spec_both_agree(
            Some(streamed),
            destination,
        ) {
            FileState::CopiedVerified
        } else {
            FileState::CopiedFailed
        },
    }
}

/// The source's checksum in the evidence, if it holds one.
pub open spec fn spec_source_checksum(evidence: EvidenceView) -> Option<ChecksumView> {
    match evidence {
        EvidenceView::InPlace { source, .. } => source,
        EvidenceView::Copied { streamed, .. } => Some(streamed),
        _ => None,
    }
}

/// One file's passage through the run.
pub struct Step {
    pub file: SourceFileView,
    pub evidence: EvidenceView,
    pub hashed_at: i64,
}

/// The record that a step adds to the hash list: one for a file in a
/// verified state, made of the file's facts and the source's checksum; none
/// for any other.
pub open spec fn spec_record(step: Step) -> Option<FileRecordView> {
    if spec_state(step.evidence).spec_is_verified() {
        let checksum = spec_source_checksum(step.evidence)->0;
        Some(
            FileRecordView {
                relative_path: step.file.relative_path,
                size_bytes: step.file.size_bytes,
                modified_at: step.file.modified_at,
                checksum: checksum.text,
                checksum_algorithm: checksum.algorithm,
                hashed_at: step.hashed_at,
            },
        )
    } else {
        None
    }
}

/// The records of the hash list after the steps: those of the verified
/// files, in the order of the steps.
pub open spec fn spec_records(steps: Seq<Step>) -> Seq<FileRecordView>
    decreases steps.len(),
{
    if steps.len() == 0 {
        Seq::<FileRecordView>::empty()
    } else {
        match spec_record(steps.last()) {
            Some(record) => spec_records(steps.drop_last()).push(record),
            None => spec_records(steps.drop_last()),
        }
    }
}

/// The source paths of the files that failed, in the order of the steps.
pub open spec fn spec_failed(steps: Seq<Step>) -> Seq<Seq<char>>
    decreases steps.len(),
{
    if steps.len() == 0 {
        Seq::<Seq<char>>::empty()
    } else if spec_state(steps.last().evidence).spec_is_failure() {
        spec_failed(steps.drop_last()).push(steps.last().file.source_path)
    } else {
        spec_failed(steps.drop_last())
    }
}

/// Whether no step ended in failure.
pub open spec fn spec_no_failure(steps: Seq<Step>) -> bool {
    forall|i: int| 0 <= i < steps.len() ==> !spec_state(#[trigger] steps[i].evidence).spec_is_failure()
}

/// Whether some step ended well: copied, or verified in place.
pub open spec fn spec_some_success(steps: Seq<Step>) -> bool {
    exists|i: int| 0 <= i < steps.len() && !spec_state(#[trigger] steps[i].evidence).spec_is_failure()
}

/// The texts as plain sequences of characters, one for one.
pub open spec fn spec_texts(texts: Seq<String>) -> Seq<Seq<char>> {
    Seq::new(texts.len(), |i: int| texts[i]@)
}

/// How a run ended.
#[derive(Clone, Copy, Debug, PartialEq, Eq, Structural)]
pub enum RunSummary {
    /// The run was a preview.
    PreviewFinished,
    /// At least one file failed.
    FinishedWithErrors,
    /// Every file was copied or verified.
    FinishedSuccessfully,
    /// There was no file to process.
    NothingToCopy,
}

/// How a run with these steps ended. A preview always ends as one; else any
/// failure makes it a run with errors; else it was a success, unless there
/// was no file at all.
pub open spec fn spec_summary(preview: bool, steps: Seq<Step>) -> RunSummary {
    if preview {
        RunSummary::PreviewFinished
    } else if !spec_no_failure(steps) {
        RunSummary::FinishedWithErrors
    } else if steps.len() == 0 {
        RunSummary::NothingToCopy
    } else {
        RunSummary::FinishedSuccessfully
    }
}

/// The exit status of the process: failure for a run with errors, success
/// for every other.
pub open spec fn spec_exit_code(summary: RunSummary) -> u8 {
    if summary == RunSummary::FinishedWithErrors {
        1
    } else {
        0
    }
}

/// Whether the hash list is written: it was asked for, the run is no
/// preview, and at least one file was copied or verified.
pub open spec fn spec_writes_manifest(requested: bool, preview: bool, steps: Seq<Step>) -> bool {
    requested && !preview && spec_some_success(steps)
}

/// The exit status of the process for a run that ended in `summary`.
pub fn exit_code(summary: RunSummary) -> (code: u8)
    ensures
        code == spec_exit_code(summary),
{
    match summary {
        RunSummary::FinishedWithErrors => 1,
        _ => 0,
    }
}

/// The state that the evidence puts a file in.
pub fn classify(evidence: &Evidence) -> (state: FileState)
    ensures
        state == spec_state(evidence@),
{
    match evidence {
        Evidence::InPlace { source, destination } => {
            match (source, destination) {
                (Some(a), Some(b)) => {
                    if checksums_match(a, b) {
                        FileState::SkippedVerified
                    } else {
                        FileState::SkippedFailed
                    }
                },
                _ => FileState::SkippedFailed,
            }
        },
        Evidence::CopyFailed { .. } => FileState::CopiedFailed,
        Evidence::CopiedUnchecked => FileState::CopiedNoChecksum,
        Evidence::Copied { streamed, destination } => {
            match destination {
                Some(b) => {
                    if checksums_match(streamed, b) {
                        FileState::CopiedVerified
                    } else {
                        FileState::CopiedFailed
                    }
                },
                None => FileState::CopiedFailed,
            }
        },
    }
}

/// The log of a run: what has come of each file so far.
pub struct RunLog {
    records: Vec<FileRecord>,
    failed: Vec<String>,
    any_step: bool,
    any_success: bool,
    steps: Ghost<Seq<Step>>,
}

impl RunLog {
    /// The steps taken so far, in order.
    pub closed spec fn steps(&self) -> Seq<Step> {
        self.steps@
    }

    /// The log's invariant: what it holds is what its steps come to.
    pub closed spec fn wf(&self) -> bool {
        &&& spec_record_views(self.records@) == spec_records(self.steps@)
        &&& spec_texts(self.failed@) == spec_failed(self.steps@)
        &&& self.any_step == (self.steps@.len() > 0)
        &&& self.any_success == spec_some_success(self.steps@)
    }

    /// The log of a run in which nothing has happened yet.
    pub fn new() -> (log: RunLog)
        ensures
            log.wf(),
            log.steps() == Seq::<Step>::empty(),
    {
        let log = RunLog {
            records: Vec::new(),
            failed: Vec::new(),
            any_step: false,
            any_success: false,
            steps: Ghost(Seq::<Step>::empty()),
        };
        assert(spec_record_views(log.records@) =~= spec_records(log.steps@));
        assert(spec_texts(log.failed@) =~= spec_failed(log.steps@));
        log
    }

    /// Enters what came of one file. The file's state follows from the
    /// evidence alone. A verified file adds its record to the hash list, a
    /// failed one its path to the list of failures, and nothing else does.
    pub fn record(&mut self, file: SourceFile, evidence: Evidence, hashed_at: i64) -> (state:
        FileState)
        requires
            old(self).wf(),
        ensures
            final(self).wf(),
            final(self).steps() == old(self).steps().push(
                Step { file: file@, evidence: evidence@, hashed_at },
            ),
            state == spec_state(evidence@),
    {
        let ghost step = Step { file: file@, evidence: evidence@, hashed_at };
        let ghost before = self.steps@;
        let ghost after = before.push(step);
        let state = classify(&evidence);
        proof {
            assert(after.drop_last() =~= before);
            assert(after.last() == step);
            lemma_some_success_push(before, step);
        }
        let SourceFile { source_path, relative_path, size_bytes, modified_at } = file;
        match state {
            FileState::SkippedVerified | FileState::CopiedVerified => {
                let checksum: Checksum = match evidence {
                    Evidence::InPlace { source: Some(c), .. } => c,
                    Evidence::Copied { streamed, .. } => streamed,
                    _ => {
                        assert(false);
                        Checksum { algorithm: Algorithm::Md5, text: String::new() }
                    },
                };
                let record = FileRecord {
                    relative_path,
                    size_bytes,
                    modified_at,
                    checksum: checksum.text,
                    checksum_algorithm: checksum.algorithm,
                    hashed_at,
                };
                proof {
                    assert(spec_record(step) == Some(record@));
                    assert(spec_record_views(self.records@.push(record)) =~= spec_record_views(
                        self.records@,
                    ).push(record@));
                }
                self.records.push(record);
                self.any_success = true;
            },
            FileState::SkippedFailed | FileState::CopiedFailed => {
                proof {
                    assert(spec_texts(self.failed@.push(source_path)) =~= spec_texts(
                        self.failed@,
                    ).push(source_path@));
                }
                self.failed.push(source_path);
            },
            FileState::CopiedNoChecksum => {
                self.any_success = true;
            },
        }
        self.any_step = true;
        self.steps = Ghost(after);
        state
    }

    /// The records of the hash list: one for every verified file, in the
    /// order in which the files were entered.
    pub fn records(&self) -> (records: &Vec<FileRecord>)
        requires
            self.wf(),
        ensures
            spec_record_views(records@) == spec_records(self.steps()),
    {
        &self.records
    }

    /// The source paths of the files that failed, in the order in which the
    /// files were entered.
    pub fn failed_files(&self) -> (failed: &Vec<String>)
        requires
            self.wf(),
        ensures
            spec_texts(failed@) == spec_failed(self.steps()),
    {
        &self.failed
    }

    /// How the run ended.
    pub fn summary(&self, preview: bool) -> (summary: RunSummary)
        requires
            self.wf(),
        ensures
            summary == spec_summary(preview, self.steps()),
    {
        proof {
            lemma_failed_is_empty_iff_no_failure(self.steps@);
        }
        if preview {
            RunSummary::PreviewFinished
        } else if self.failed.len() > 0 {
            RunSummary::FinishedWithErrors
        } else if !self.any_step {
            RunSummary::NothingToCopy
        } else {
            RunSummary::FinishedSuccessfully
        }
    }

    /// Whether the hash list is to be written at the end of the run.
    pub fn should_write_manifest(&self, requested: bool, preview: bool) -> (write: bool)
        requires
            self.wf(),
        ensures
            write == spec_writes_manifest(requested, preview, self.steps()),
            preview ==> !write,
    {
        requested && !preview && self.any_success
    }
}

/// One more step: some step ended well if one did before or this one does.
pub proof fn lemma_some_success_push(steps: Seq<Step>, step: Step)
    ensures
        spec_some_success(steps.push(step)) == (spec_some_success(steps) || !spec_state(
            step.evidence,
        ).spec_is_failure()),
{
    let after = steps.push(step);
    if spec_some_success(steps) {
        let i = choose|i: int|
            0 <= i < steps.len() && !spec_state(#[trigger] steps[i].evidence).spec_is_failure();
        assert(after[i] == steps[i]);
    }
    if !spec_state(step.evidence).spec_is_failure() {
        assert(after[steps.len() as int] == step);
    }
    if spec_some_success(after) {
        let i = choose|i: int|
            0 <= i < after.len() && !spec_state(#[trigger] after[i].evidence).spec_is_failure();
        if i < steps.len() {
            assert(after[i] == steps[i]);
        }
    }
}

/// The list of failures is empty exactly when no step failed.
pub proof fn lemma_failed_is_empty_iff_no_failure(steps: Seq<Step>)
    ensures
        (spec_failed(steps).len() == 0) == spec_no_failure(steps),
    decreases steps.len(),
{
    if steps.len() > 0 {
        lemma_failed_is_empty_iff_no_failure(steps.drop_last());
        if spec_no_failure(steps) {
            assert forall|i: int| 0 <= i < steps.drop_last().len() implies !spec_state(
                #[trigger] steps.drop_last()[i].evidence,
            ).spec_is_failure() by {
                assert(steps.drop_last()[i] == steps[i]);
            }
            assert(!spec_state(steps[steps.len() - 1].evidence).spec_is_failure());
        } else {
            let i = choose|i: int|
                0 <= i < steps.len() && spec_state(#[trigger] steps[i].evidence).spec_is_failure();
            if i < steps.len() - 1 {
                assert(steps.drop_last()[i] == steps[i]);
            }
        }
        if spec_failed(steps).len() == 0 {
            assert forall|i: int| 0 <= i < steps.len() implies !spec_state(
                #[trigger] steps[i].evidence,
            ).spec_is_failure() by {
                if i < steps.len() - 1 {
                    assert(steps.drop_last()[i] == steps[i]);
                }
            }
        }
    }
}

/// A file is in a verified state only if both sides were hashed and the two
/// checksums agree; and only then does it give a record.
pub proof fn lemma_verified_means_checksums_agree(step: Step)
    ensures
        spec_state(step.evidence).spec_is_verified() <==> spec_record(step) is Some,
        spec_state(step.evidence).spec_is_verified() ==> match step.evidence {
            EvidenceView::InPlace { source, destination } => spec_both_agree(source, destination),
            EvidenceView::Copied { streamed, destination } => spec_both_agree(
                Some(streamed),
                destination,
            ),
            _ => false,
        },
        spec_state(step.evidence).spec_is_failure() ==> spec_record(step) is None,
{
}

/// Nothing enters the hash list but the record of a file whose checksums
/// were found to agree: every record is that of some step in a verified
/// state, and the steps that failed have added none.
pub proof fn lemma_records_are_verified(steps: Seq<Step>)
    ensures
        forall|k: int|
            0 <= k < spec_records(steps).len() ==> exists|i: int|
                0 <= i < steps.len() && spec_state(steps[i].evidence).spec_is_verified()
                    && #[trigger] spec_record(steps[i]) == Some(#[trigger] spec_records(steps)[k]),
        spec_records(steps).len() + spec_failed(steps).len() <= steps.len(),
    decreases steps.len(),
{
    if steps.len() > 0 {
        let head = steps.drop_last();
        lemma_records_are_verified(head);
        assert forall|k: int| 0 <= k < spec_records(steps).len() implies exists|i: int|
            0 <= i < steps.len() && spec_state(steps[i].evidence).spec_is_verified()
                && #[trigger] spec_record(steps[i]) == Some(#[trigger] spec_records(steps)[k]) by {
            if k < spec_records(head).len() {
                let i = choose|i: int|
                    0 <= i < head.len() && spec_state(head[i].evidence).spec_is_verified()
                        && #[trigger] spec_record(head[i]) == Some(spec_records(head)[k]);
                assert(head[i] == steps[i]);
                assert(spec_records(steps)[k] == spec_records(head)[k]);
                assert(spec_record(steps[i]) == Some(spec_records(steps)[k]));
            } else {
                let i = steps.len() - 1;
                assert(spec_record(steps[i]) == Some(spec_records(steps)[k]));
            }
        }
    }
}

/// Where every step is in a verified state, every file has its record, in
/// order, and nothing has failed.
pub proof fn lemma_all_verified_all_recorded(steps: Seq<Step>)
    requires
        forall|i: int|
            0 <= i < steps.len() ==> spec_state(#[trigger] steps[i].evidence).spec_is_verified(),
    ensures
        spec_records(steps).len() == steps.len(),
        forall|i: int|
            0 <= i < steps.len() ==> Some(#[trigger] spec_records(steps)[i]) == spec_record(
                steps[i],
            ),
        spec_failed(steps).len() == 0,
        spec_no_failure(steps),
    decreases steps.len(),
{
    if steps.len() > 0 {
        let head = steps.drop_last();
        assert forall|i: int| 0 <= i < head.len() implies spec_state(
            #[trigger] head[i].evidence,
        ).spec_is_verified() by {
            assert(head[i] == steps[i]);
        }
        lemma_all_verified_all_recorded(head);
        assert(spec_state(steps[steps.len() - 1].evidence).spec_is_verified());
        assert forall|i: int| 0 <= i < steps.len() implies Some(#[trigger] spec_records(steps)[i])
            == spec_record(steps[i]) by {
            if i < head.len() {
                assert(head[i] == steps[i]);
                assert(spec_records(steps)[i] == spec_records(head)[i]);
            }
        }
    }
}

/// Whether two records say the same of a file: path, size, checksum and
/// algorithm. When the file was modified or hashed is not compared.
pub open spec fn spec_same_entry(a: FileRecordView, b: FileRecordView) -> bool {
    &&& a.relative_path == b.relative_path
    &&& a.size_bytes == b.size_bytes
    &&& a.checksum == b.checksum
    &&& a.checksum_algorithm == b.checksum_algorithm
}

/// A second run over a destination that holds the file with the same
/// content: the file is verified in place, nothing is written, the file ends
/// as skipped and verified, and its record says what the record of the first
/// run said.
pub proof fn lemma_rerun_skips_and_verifies(
    file: SourceFileView,
    algorithm: Algorithm,
    content: Seq<u8>,
    first_hashed_at: i64,
    again_hashed_at: i64,
)
    requires
        content.len() == file.size_bytes,
    ensures
        ({
            let checksum = ChecksumView { algorithm, text: spec_checksum(algorithm, content) };
            let action = spec_plan(file.size_bytes, Some(content.len() as u64), false);
            let first = Step {
                file,
                evidence: EvidenceView::Copied { streamed: checksum, destination: Some(checksum) },
                hashed_at: first_hashed_at,
            };
            let again = Step {
                file,
                evidence: EvidenceView::InPlace {
                    source: Some(checksum),
                    destination: Some(checksum),
                },
                hashed_at: again_hashed_at,
            };
            &&& action == Action::VerifyInPlace
            &&& !spec_writes(action)
            &&& spec_state(first.evidence) == FileState::CopiedVerified
            &&& spec_state(again.evidence) == FileState::SkippedVerified
            &&& spec_record(first) is Some
            &&& spec_record(again) is Some
            &&& spec_same_entry(spec_record(first)->0, spec_record(again)->0)
            &&& spec_record(again)->0.checksum == spec_checksum(algorithm, content)
        }),
{
}

/// A preview changes nothing: no file's plan writes, no directory is made,
/// and no hash list is written, whatever the run has found.
pub proof fn lemma_preview_writes_nothing(
    source_size: u64,
    destination_size: Option<u64>,
    requested: bool,
    steps: Seq<Step>,
)
    ensures
        !spec_writes(spec_plan(source_size, destination_size, true)),
        !spec_writes_manifest(requested, true, steps),
        spec_summary(true, steps) == RunSummary::PreviewFinished,
        spec_exit_code(spec_summary(true, steps)) == 0,
{
}

/// A copy that arrived as it was sent is verified: the checksum taken on the
/// way and the checksum of what the destination holds agree, and the file
/// ends as copied and verified.
pub proof fn lemma_faithful_copy_is_verified(algorithm: Algorithm, sent: Seq<u8>, arrived: Seq<u8>)
    requires
        sent == arrived,
    ensures
        spec_state(
            EvidenceView::Copied {
                streamed: ChecksumView { algorithm, text: spec_checksum(algorithm, sent) },
                destination: Some(
                    ChecksumView { algorithm, text: spec_checksum(algorithm, arrived) },
                ),
            },
        ) == FileState::CopiedVerified,
{
}

/// Within one hash list a path stands once: where no two files of a run have
/// the same relative path, no two records have.
pub proof fn lemma_record_paths_are_distinct(steps: Seq<Step>)
    requires
        forall|i: int, j: int|
            0 <= i < j < steps.len() ==> (#[trigger] steps[i]).file.relative_path != (
            #[trigger] steps[j]).file.relative_path,
    ensures
        forall|a: int, b: int|
            0 <= a < b < spec_records(steps).len() ==> (#[trigger] spec_records(
                steps,
            )[a]).relative_path != (#[trigger] spec_records(steps)[b]).relative_path,
    decreases steps.len(),
{
    if steps.len() > 0 {
        let head = steps.drop_last();
        assert forall|i: int, j: int| 0 <= i < j < head.len() implies (
        #[trigger] head[i]).file.relative_path != (#[trigger] head[j]).file.relative_path by {
            assert(head[i] == steps[i]);
            assert(head[j] == steps[j]);
        }
        lemma_record_paths_are_distinct(head);
        lemma_records_are_verified(head);
        let records = spec_records(steps);
        assert forall|a: int, b: int| 0 <= a < b < records.len() implies (
        #[trigger] records[a]).relative_path != (#[trigger] records[b]).relative_path by {
            if b < spec_records(head).len() {
                assert(records[a] == spec_records(head)[a]);
                assert(records[b] == spec_records(head)[b]);
            } else {
                assert(records[a] == spec_records(head)[a]);
                let i = choose|i: int|
                    0 <= i < head.len() && spec_state(head[i].evidence).spec_is_verified()
                        && #[trigger] spec_record(head[i]) == Some(spec_records(head)[a]);
                assert(head[i] == steps[i]);
                assert(records[b].relative_path == steps[steps.len() - 1].file.relative_path);
                assert(steps[i].file.relative_path != steps[steps.len() - 1].file.relative_path);
            }
        }
    }
}

/// The checksum of a file's content under an algorithm, as a result.
pub open spec fn spec_checksum_of_content(algorithm: Algorithm, content: Seq<u8>) -> ChecksumView {
    ChecksumView { algorithm, text: spec_checksum(algorithm, content) }
}

/// The steps of a first run that copies every file and finds it verified.
pub open spec fn spec_first_run(
    files: Seq<SourceFileView>,
    algorithm: Algorithm,
    contents: Seq<Seq<u8>>,
    hashed_at: Seq<i64>,
) -> Seq<Step> {
    Seq::new(
        files.len(),
        |i: int|
            Step {
                file: files[i],
                evidence: EvidenceView::Copied {
                    streamed: spec_checksum_of_content(algorithm, contents[i]),
                    destination: Some(spec_checksum_of_content(algorithm, contents[i])),
                },
                hashed_at: hashed_at[i],
            },
    )
}

/// The steps of a run that finds every file in place and hashes both sides.
pub open spec fn spec_second_run(
    files: Seq<SourceFileView>,
    algorithm: Algorithm,
    contents: Seq<Seq<u8>>,
    hashed_at: Seq<i64>,
) -> Seq<Step> {
    Seq::new(
        files.len(),
        |i: int|
            Step {
                file: files[i],
                evidence: EvidenceView::InPlace {
                    source: Some(spec_checksum_of_content(algorithm, contents[i])),
                    destination: Some(spec_checksum_of_content(algorithm, contents[i])),
                },
                hashed_at: hashed_at[i],
            },
    )
}

/// Running again over a destination that holds every file with the same
/// content: every file is verified in place and ends as skipped and
/// verified, nothing is written to any file, nothing fails, and the hash list
/// says of every file what the list of the first run said.
pub proof fn lemma_second_run_is_idempotent(
    files: Seq<SourceFileView>,
    algorithm: Algorithm,
    contents: Seq<Seq<u8>>,
    first_hashed_at: Seq<i64>,
    again_hashed_at: Seq<i64>,
)
    requires
        contents.len() == files.len(),
        first_hashed_at.len() == files.len(),
        again_hashed_at.len() == files.len(),
        forall|i: int| 0 <= i < files.len() ==> (#[trigger] contents[i]).len() == files[i].size_bytes,
    ensures
        ({
            let first = spec_first_run(files, algorithm, contents, first_hashed_at);
            let again = spec_second_run(files, algorithm, contents, again_hashed_at);
            &&& forall|i: int|
                0 <= i < files.len() ==> spec_plan(
                    (#[trigger] files[i]).size_bytes,
                    Some(contents[i].len() as u64),
                    false,
                ) == Action::VerifyInPlace
            &&& forall|i: int|
                0 <= i < files.len() ==> spec_state((#[trigger] again[i]).evidence)
                    == FileState::SkippedVerified
            &&& spec_no_failure(again)
            &&& spec_failed(again).len() == 0
            &&& spec_records(first).len() == files.len()
            &&& spec_records(again).len() == files.len()
            &&& forall|i: int|
                0 <= i < files.len() ==> spec_same_entry(
                    #[trigger] spec_records(first)[i],
                    spec_records(again)[i],
                )
            &&& spec_summary(false, again) != RunSummary::FinishedWithErrors
            &&& files.len() > 0 ==> spec_writes_manifest(true, false, again)
        }),
{
    let first = spec_first_run(files, algorithm, contents, first_hashed_at);
    let again = spec_second_run(files, algorithm, contents, again_hashed_at);
    assert forall|i: int| 0 <= i < first.len() implies spec_state(
        #[trigger] first[i].evidence,
    ).spec_is_verified() by {}
    assert forall|i: int| 0 <= i < again.len() implies spec_state(
        #[trigger] again[i].evidence,
    ).spec_is_verified() by {}
    lemma_all_verified_all_recorded(first);
    lemma_all_verified_all_recorded(again);
    assert forall|i: int| 0 <= i < files.len() implies spec_same_entry(
        #[trigger] spec_records(first)[i],
        spec_records(again)[i],
    ) by {
        assert(Some(spec_records(first)[i]) == spec_record(first[i]));
        assert(Some(spec_records(again)[i]) == spec_record(again[i]));
    }
    if files.len() > 0 {
        assert(!spec_state(again[0].evidence).spec_is_failure());
    }
}

} // verus!
