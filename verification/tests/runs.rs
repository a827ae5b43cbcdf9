use rccopy::algorithm::{Algorithm, ConfigurationError};
use rccopy::digest::{checksum_in_chunks, checksum_of};
use rccopy::manifest::{manifest_document, manifest_markup, FileRecord, RunInfo};
use rccopy::markup::MarkupEvent;
use rccopy::reader::{read_manifest, ManifestEntry};
use rccopy::run::{
    check_roots, classify, exit_code, plan_file, requested_algorithm, should_create_directory, Action,
    CopyError, Evidence, FileState, PathError, RootFacts, RunLog, RunSummary, SourceFile,
};
use rccopy::transfer::{copy_bytes, CHUNK_SIZE};
use rccopy::verify::Checksum;
use rccopy::walk::{get_files_in_directory, Entry};

fn good_roots() -> RootFacts {
    RootFacts {
        source_exists: true,
        destination_exists: true,
        source_is_directory: true,
        destination_is_directory: true,
        same_path: false,
    }
}

fn source(path: &str, size: u64) -> SourceFile {
    SourceFile {
        source_path: format!("/in/{}", path),
        relative_path: format!("in/{}", path),
        size_bytes: size,
        modified_at: 1_600_000_000,
    }
}

fn sum(algorithm: Algorithm, text: &str) -> Checksum {
    Checksum { algorithm, text: String::from(text) }
}

fn info() -> RunInfo {
    RunInfo {
        operator_name: String::from("Operator"),
        username: String::from("op"),
        hostname: String::from("host"),
        tool: String::from("rccopy ver. 0.1.0"),
        started_at: 1_700_000_000,
        finished_at: 1_700_000_100,
    }
}

/// Reads a document with the reader of `xml-rs` into the events that the library reads.
fn events_of(document: &[u8]) -> Vec<MarkupEvent> {
    let mut events = Vec::new();
    for event in xml::reader::EventReader::new(document) {
        match event.unwrap() {
            xml::reader::XmlEvent::StartElement { name, attributes, .. } => {
                events.push(MarkupEvent::Open {
                    name: name.local_name,
                    attributes: attributes.into_iter().map(|a| (a.name.local_name, a.value)).collect(),
                });
            }
            xml::reader::XmlEvent::Characters(text) => events.push(MarkupEvent::Text(text)),
            xml::reader::XmlEvent::EndElement { .. } => events.push(MarkupEvent::Close),
            _ => {}
        }
    }
    events
}

/// Copies `content` into a fresh destination and gives what arrived and the checksum
/// computed on the way.
fn stream(content: &[u8], algorithm: Option<Algorithm>) -> (Vec<u8>, Option<Checksum>) {
    let mut arrived = Vec::new();
    let checksum = copy_bytes(content, &mut arrived, algorithm).unwrap();
    (arrived, checksum)
}

fn verify(content: &[u8], algorithm: Algorithm) -> Option<Checksum> {
    Some(Checksum { algorithm, text: checksum_in_chunks(algorithm, content, CHUNK_SIZE).unwrap() })
}

#[test]
fn roots_are_checked_in_order() {
    assert_eq!(check_roots(good_roots()), Ok(()));
    let all_wrong = RootFacts {
        source_exists: false,
        destination_exists: false,
        source_is_directory: false,
        destination_is_directory: false,
        same_path: true,
    };
    assert_eq!(check_roots(all_wrong), Err(PathError::SourceMissing));
    assert_eq!(check_roots(RootFacts { source_exists: true, ..all_wrong }), Err(PathError::DestinationMissing));
    assert_eq!(
        check_roots(RootFacts { source_exists: true, destination_exists: true, ..all_wrong }),
        Err(PathError::SourceNotDirectory)
    );
    assert_eq!(
        check_roots(RootFacts { destination_is_directory: false, ..good_roots() }),
        Err(PathError::DestinationNotDirectory)
    );
    assert_eq!(check_roots(RootFacts { same_path: true, ..good_roots() }), Err(PathError::SameDirectory));
}

#[test]
fn requested_algorithm_is_parsed_or_absent() {
    assert_eq!(requested_algorithm(None), Ok(None));
    assert_eq!(requested_algorithm(Some("md5")), Ok(Some(Algorithm::Md5)));
    assert_eq!(requested_algorithm(Some("sha1")), Ok(Some(Algorithm::Sha1)));
    assert_eq!(requested_algorithm(Some("xxhash64")), Ok(Some(Algorithm::Xxh64)));
}

#[test]
fn scenario_unsupported_algorithm_stops_the_run_before_any_file() {
    assert_eq!(requested_algorithm(Some("crc32")), Err(ConfigurationError::UnknownAlgorithm));
}

#[test]
fn plan_depends_on_size_and_preview_only() {
    assert_eq!(plan_file(16, None, false), Action::Copy);
    assert_eq!(plan_file(16, Some(15), false), Action::Copy);
    assert_eq!(plan_file(16, Some(16), false), Action::VerifyInPlace);
    assert_eq!(plan_file(0, Some(0), false), Action::VerifyInPlace);
    assert_eq!(plan_file(16, None, true), Action::Report { in_place: false });
    assert_eq!(plan_file(16, Some(17), true), Action::Report { in_place: false });
    assert_eq!(plan_file(16, Some(16), true), Action::Report { in_place: true });
}

#[test]
fn preview_makes_no_directory_and_writes_no_list() {
    assert!(should_create_directory(false, false));
    assert!(!should_create_directory(true, false));
    assert!(!should_create_directory(false, true));
    assert!(!should_create_directory(true, true));
    let mut log = RunLog::new();
    log.record(source("a", 1), Evidence::CopiedUnchecked, 0);
    assert!(log.should_write_manifest(true, false));
    assert!(!log.should_write_manifest(true, true));
    assert!(!log.should_write_manifest(false, false));
    assert_eq!(log.summary(true), RunSummary::PreviewFinished);
    assert_eq!(exit_code(RunSummary::PreviewFinished), 0);
}

#[test]
fn evidence_decides_the_state() {
    let a = || sum(Algorithm::Md5, "aa");
    let b = || sum(Algorithm::Md5, "bb");
    assert_eq!(classify(&Evidence::InPlace { source: Some(a()), destination: Some(a()) }), FileState::SkippedVerified);
    assert_eq!(classify(&Evidence::InPlace { source: Some(a()), destination: Some(b()) }), FileState::SkippedFailed);
    assert_eq!(classify(&Evidence::InPlace { source: None, destination: Some(a()) }), FileState::SkippedFailed);
    assert_eq!(classify(&Evidence::InPlace { source: Some(a()), destination: None }), FileState::SkippedFailed);
    assert_eq!(classify(&Evidence::InPlace { source: None, destination: None }), FileState::SkippedFailed);
    assert_eq!(classify(&Evidence::CopyFailed { error: CopyError::Write }), FileState::CopiedFailed);
    assert_eq!(classify(&Evidence::CopiedUnchecked), FileState::CopiedNoChecksum);
    assert_eq!(classify(&Evidence::Copied { streamed: a(), destination: Some(a()) }), FileState::CopiedVerified);
    assert_eq!(classify(&Evidence::Copied { streamed: a(), destination: Some(b()) }), FileState::CopiedFailed);
    assert_eq!(classify(&Evidence::Copied { streamed: a(), destination: None }), FileState::CopiedFailed);
    assert_eq!(
        classify(&Evidence::Copied { streamed: a(), destination: Some(sum(Algorithm::Sha1, "aa")) }),
        FileState::CopiedFailed
    );
    assert!(FileState::SkippedFailed.is_failure());
    assert!(FileState::CopiedFailed.is_failure());
    assert!(!FileState::CopiedNoChecksum.is_failure());
    assert!(FileState::SkippedVerified.is_verified());
    assert!(FileState::CopiedVerified.is_verified());
    assert!(!FileState::CopiedNoChecksum.is_verified());
}

#[test]
fn log_keeps_records_and_failures_apart() {
    let mut log = RunLog::new();
    assert_eq!(log.summary(false), RunSummary::NothingToCopy);
    assert!(!log.should_write_manifest(true, false));
    let a = || sum(Algorithm::Sha1, "aa");
    let b = || sum(Algorithm::Sha1, "bb");
    assert_eq!(
        log.record(source("one", 1), Evidence::Copied { streamed: a(), destination: Some(a()) }, 11),
        FileState::CopiedVerified
    );
    assert_eq!(log.summary(false), RunSummary::FinishedSuccessfully);
    assert_eq!(
        log.record(source("two", 2), Evidence::Copied { streamed: a(), destination: Some(b()) }, 12),
        FileState::CopiedFailed
    );
    assert_eq!(log.record(source("three", 3), Evidence::CopiedUnchecked, 13), FileState::CopiedNoChecksum);
    assert_eq!(
        log.record(source("four", 4), Evidence::InPlace { source: Some(b()), destination: Some(b()) }, 14),
        FileState::SkippedVerified
    );
    assert_eq!(
        log.record(source("five", 5), Evidence::CopyFailed { error: CopyError::OpenSource }, 15),
        FileState::CopiedFailed
    );
    let records = log.records();
    assert_eq!(records.len(), 2);
    assert_eq!(records[0].relative_path, "in/one");
    assert_eq!(records[0].size_bytes, 1);
    assert_eq!(records[0].modified_at, 1_600_000_000);
    assert_eq!(records[0].checksum, "aa");
    assert_eq!(records[0].checksum_algorithm, Algorithm::Sha1);
    assert_eq!(records[0].hashed_at, 11);
    assert_eq!(records[1].relative_path, "in/four");
    assert_eq!(records[1].checksum, "bb");
    assert_eq!(records[1].hashed_at, 14);
    assert_eq!(log.failed_files(), &vec![String::from("/in/two"), String::from("/in/five")]);
    assert_eq!(log.summary(false), RunSummary::FinishedWithErrors);
    assert_eq!(exit_code(log.summary(false)), 1);
    assert_eq!(exit_code(RunSummary::FinishedSuccessfully), 0);
    assert_eq!(exit_code(RunSummary::NothingToCopy), 0);
    assert!(log.should_write_manifest(true, false));
}

#[test]
fn a_run_of_failures_only_writes_no_list() {
    let mut log = RunLog::new();
    log.record(source("x", 1), Evidence::CopyFailed { error: CopyError::Read }, 1);
    assert!(!log.should_write_manifest(true, false));
    assert_eq!(log.summary(false), RunSummary::FinishedWithErrors);
    assert!(log.records().is_empty());
}

#[test]
fn scenario_two_files_are_copied_and_listed() {
    let a_content: &[u8] = b"0123456789abcdef";
    let b_content: &[u8] = b"";
    let tree = vec![
        Entry::File { name: Some(String::from("a.txt")), tag: ("a.txt", a_content) },
        Entry::Directory {
            tag: ("sub", b_content),
            children: vec![Entry::File { name: Some(String::from("b.bin")), tag: ("sub/b.bin", b_content) }],
        },
    ];
    let algorithm = requested_algorithm(Some("xxhash64")).unwrap();
    let files = get_files_in_directory(&tree);
    assert_eq!(files.len(), 2);
    let mut log = RunLog::new();
    for (path, content) in files.into_iter().map(|t| *t) {
        // The destination is empty.
        assert_eq!(plan_file(content.len() as u64, None, false), Action::Copy);
        let (arrived, streamed) = stream(content, algorithm);
        assert_eq!(arrived, content);
        let streamed = streamed.unwrap();
        assert_eq!(streamed.text.len(), 16);
        let destination = verify(&arrived, algorithm.unwrap());
        assert_eq!(destination.as_ref().unwrap().text, streamed.text);
        let state = log.record(source(path, content.len() as u64), Evidence::Copied { streamed, destination }, 1_700_000_050);
        assert_eq!(state, FileState::CopiedVerified);
    }
    assert_eq!(log.summary(false), RunSummary::FinishedSuccessfully);
    assert!(log.should_write_manifest(true, false));
    let document = manifest_document(&info(), log.records()).unwrap();
    let text = String::from_utf8(document.clone()).unwrap();
    assert_eq!(text.matches("<hash>").count(), 2);
    assert_eq!(text.matches("<size>0</size>").count(), 1);
    assert_eq!(text.matches("<size>16</size>").count(), 1);
    assert_eq!(text.matches("<xxhash64be>").count(), 2);
    assert!(text.contains(&format!("<xxhash64be>{}</xxhash64be>", checksum_of(Algorithm::Xxh64, a_content).unwrap())));
    assert!(text.contains("<xxhash64be>ef46db3751d8e999</xxhash64be>"));
    let entries = read_manifest(&events_of(&document)).unwrap();
    assert_eq!(entries.len(), 2);
    assert_eq!(entries[0].relative_path, "in/a.txt");
    assert_eq!(entries[1].relative_path, "in/sub/b.bin");
    assert_eq!(entries[1].size_bytes, 0);
    assert_eq!(entries[1].checksum_algorithm, Algorithm::Xxh64);
}

#[test]
fn scenario_same_size_different_content_is_skipped_failed() {
    let source_content: &[u8] = b"0123456789abcdef";
    let destination_content: &[u8] = b"0123456789abcdeF";
    let algorithm = Algorithm::Xxh64;
    assert_eq!(
        plan_file(source_content.len() as u64, Some(destination_content.len() as u64), false),
        Action::VerifyInPlace
    );
    let mut log = RunLog::new();
    let state = log.record(
        source("a.txt", 16),
        Evidence::InPlace { source: verify(source_content, algorithm), destination: verify(destination_content, algorithm) },
        1_700_000_050,
    );
    assert_eq!(state, FileState::SkippedFailed);
    assert_eq!(log.failed_files(), &vec![String::from("/in/a.txt")]);
    assert!(log.records().is_empty());
    assert_eq!(log.summary(false), RunSummary::FinishedWithErrors);
    assert!(!log.should_write_manifest(true, false));
}

#[test]
fn a_second_run_over_identical_files_skips_and_lists_them_again() {
    let contents: [(&str, &[u8]); 3] = [("a", b"alpha"), ("b", b""), ("c/d", b"delta delta")];
    for algorithm in [Algorithm::Md5, Algorithm::Sha1, Algorithm::Xxh64] {
        let mut first = RunLog::new();
        let mut second = RunLog::new();
        for (path, content) in contents {
            let size = content.len() as u64;
            assert_eq!(plan_file(size, None, false), Action::Copy);
            let (arrived, streamed) = stream(content, Some(algorithm));
            let state = first.record(
                source(path, size),
                Evidence::Copied { streamed: streamed.unwrap(), destination: verify(&arrived, algorithm) },
                100,
            );
            assert_eq!(state, FileState::CopiedVerified);
            assert_eq!(plan_file(size, Some(arrived.len() as u64), false), Action::VerifyInPlace);
            let state = second.record(
                source(path, size),
                Evidence::InPlace { source: verify(content, algorithm), destination: verify(&arrived, algorithm) },
                200,
            );
            assert_eq!(state, FileState::SkippedVerified);
        }
        assert_eq!(second.summary(false), RunSummary::FinishedSuccessfully);
        assert!(second.should_write_manifest(true, false));
        assert!(second.failed_files().is_empty());
        let tuple = |r: &FileRecord| (r.relative_path.clone(), r.size_bytes, r.checksum.clone(), r.checksum_algorithm);
        let one: Vec<_> = first.records().iter().map(tuple).collect();
        let two: Vec<_> = second.records().iter().map(tuple).collect();
        assert_eq!(one.len(), 3);
        assert_eq!(one, two);
    }
}

#[test]
fn a_written_list_is_read_back_as_the_same_entries() {
    let records = vec![
        FileRecord {
            relative_path: String::from("Footage/A001 <take 1> & more.mov"),
            size_bytes: u64::MAX,
            modified_at: 0,
            checksum: String::from("5eb63bbbe01eeed093cb22bb8f5acdc3"),
            checksum_algorithm: Algorithm::Md5,
            hashed_at: 1,
        },
        FileRecord {
            relative_path: String::from("Footage/ünïcödé/клип.mxf"),
            size_bytes: 0,
            modified_at: 2,
            checksum: String::from("da39a3ee5e6b4b0d3255bfef95601890afd80709"),
            checksum_algorithm: Algorithm::Sha1,
            hashed_at: 3,
        },
        FileRecord {
            relative_path: String::from("x"),
            size_bytes: 42,
            modified_at: 4,
            checksum: String::from("ef46db3751d8e999"),
            checksum_algorithm: Algorithm::Xxh64,
            hashed_at: 5,
        },
    ];
    let expected: Vec<ManifestEntry> = records
        .iter()
        .map(|r| ManifestEntry {
            relative_path: r.relative_path.clone(),
            size_bytes: r.size_bytes,
            checksum: r.checksum.clone(),
            checksum_algorithm: r.checksum_algorithm,
        })
        .collect();
    // From the events as they are written.
    let events = manifest_markup(&info(), &records).unwrap();
    assert_eq!(read_manifest(&events), Some(expected.clone()));
    // From the document, read with the reader of the markup crate.
    let document = manifest_document(&info(), &records).unwrap();
    assert_eq!(read_manifest(&events_of(&document)), Some(expected));
}

#[test]
fn what_is_not_a_list_is_not_read() {
    let good = manifest_markup(&info(), &Vec::new()).unwrap();
    assert_eq!(read_manifest(&good), Some(Vec::new()));
    assert_eq!(read_manifest(&Vec::new()), None);
    let mut short = manifest_markup(&info(), &Vec::new()).unwrap();
    short.pop();
    assert_eq!(read_manifest(&short), None);
    let mut extra = manifest_markup(&info(), &Vec::new()).unwrap();
    extra.insert(21, MarkupEvent::Text(String::from("stray")));
    assert_eq!(read_manifest(&extra), None);
    let record = FileRecord {
        relative_path: String::from("p"),
        size_bytes: 1,
        modified_at: 0,
        checksum: String::from("00"),
        checksum_algorithm: Algorithm::Md5,
        hashed_at: 0,
    };
    let mut bad_size = manifest_markup(&info(), &vec![record]).unwrap();
    bad_size[26] = MarkupEvent::Text(String::from("many"));
    assert_eq!(read_manifest(&bad_size), None);
    let mut bad_tag = manifest_markup(&info(), &Vec::new()).unwrap();
    bad_tag[0] = MarkupEvent::Open { name: String::from("hashlist"), attributes: Vec::new() };
    assert_eq!(read_manifest(&bad_tag), None);
}
