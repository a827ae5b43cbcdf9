use rccopy::algorithm::Algorithm;
use rccopy::manifest::{manifest_document, manifest_markup, tool_identity, FileRecord, ManifestError, RunInfo};
use rccopy::markup::{render, MarkupError, MarkupEvent};
use rccopy::timestamp::{file_name_stamp, format_timestamp_rfc3339, manifest_file_name};

fn info() -> RunInfo {
    RunInfo {
        operator_name: String::from("Ada Lovelace"),
        username: String::from("ada"),
        hostname: String::from("engine"),
        tool: tool_identity("rccopy", "0.1.0"),
        started_at: 1_700_000_000,
        finished_at: 1_700_000_060,
    }
}

fn record(path: &str, size: u64, checksum: &str, algorithm: Algorithm) -> FileRecord {
    FileRecord {
        relative_path: String::from(path),
        size_bytes: size,
        modified_at: 1_600_000_000,
        checksum: String::from(checksum),
        checksum_algorithm: algorithm,
        hashed_at: 1_700_000_030,
    }
}

#[test]
fn tool_identity_joins_name_and_version() {
    assert_eq!(tool_identity("rccopy", "1.2.3"), "rccopy ver. 1.2.3");
    assert_eq!(tool_identity("", ""), " ver. ");
}

#[test]
fn timestamps_are_written_to_the_second_in_utc() {
    assert_eq!(format_timestamp_rfc3339(0).unwrap(), "1970-01-01T00:00:00Z");
    assert_eq!(format_timestamp_rfc3339(1_516_991_409).unwrap(), "2018-01-26T18:30:09Z");
    assert_eq!(format_timestamp_rfc3339(1_700_000_000).unwrap(), "2023-11-14T22:13:20Z");
    assert_eq!(format_timestamp_rfc3339(253_402_300_799).unwrap(), "9999-12-31T23:59:59Z");
    assert_eq!(format_timestamp_rfc3339(-1).unwrap(), "1969-12-31T23:59:59Z");
}

#[test]
fn timestamps_beyond_the_calendar_have_no_text() {
    assert_eq!(format_timestamp_rfc3339(i64::MAX), None);
    assert_eq!(format_timestamp_rfc3339(i64::MIN), None);
}

#[test]
fn file_name_stamp_strips_separators() {
    assert_eq!(file_name_stamp("2023-11-14T22:13:20Z"), "2023-11-14_221320");
    assert_eq!(file_name_stamp(""), "");
    assert_eq!(file_name_stamp("TZ:"), "_");
    assert_eq!(file_name_stamp("abc"), "abc");
}

#[test]
fn manifest_file_name_follows_the_pattern() {
    assert_eq!(
        manifest_file_name("Footage", "2023-11-14T22:13:20Z"),
        "Footage_2023-11-14_221320.mhl"
    );
}

#[test]
fn manifest_document_is_the_expected_text() {
    let records = vec![
        record("Footage/a.txt", 16, "0123456789abcdef", Algorithm::Xxh64),
        record("Footage/sub/b & c.bin", 0, "d41d8cd98f00b204e9800998ecf8427e", Algorithm::Md5),
    ];
    let bytes = manifest_document(&info(), &records).unwrap();
    let text = String::from_utf8(bytes).unwrap();
    let expected = "<?xml version=\"1.0\" encoding=\"UTF-8\"?>\n\
<hashlist version=\"1.1\">\n\
\x20 <creatorinfo>\n\
\x20   <name>Ada Lovelace</name>\n\
\x20   <username>ada</username>\n\
\x20   <hostname>engine</hostname>\n\
\x20   <tool>rccopy ver. 0.1.0</tool>\n\
\x20   <startdate>2023-11-14T22:13:20Z</startdate>\n\
\x20   <finishdate>2023-11-14T22:14:20Z</finishdate>\n\
\x20 </creatorinfo>\n\
\x20 <hash>\n\
\x20   <file>Footage/a.txt</file>\n\
\x20   <size>16</size>\n\
\x20   <lastmodificationdate>2020-09-13T12:26:40Z</lastmodificationdate>\n\
\x20   <xxhash64be>0123456789abcdef</xxhash64be>\n\
\x20   <hashdate>2023-11-14T22:13:50Z</hashdate>\n\
\x20 </hash>\n\
\x20 <hash>\n\
\x20   <file>Footage/sub/b &amp; c.bin</file>\n\
\x20   <size>0</size>\n\
\x20   <lastmodificationdate>2020-09-13T12:26:40Z</lastmodificationdate>\n\
\x20   <md5>d41d8cd98f00b204e9800998ecf8427e</md5>\n\
\x20   <hashdate>2023-11-14T22:13:50Z</hashdate>\n\
\x20 </hash>\n\
</hashlist>";
    assert_eq!(text, expected);
}

#[test]
fn manifest_document_agrees_with_the_event_writer_used_directly() {
    let records = vec![record("x/y.mov", 123_456_789_012, "da39a3ee5e6b4b0d3255bfef95601890afd80709", Algorithm::Sha1)];
    let bytes = manifest_document(&info(), &records).unwrap();

    let mut writer = xml::writer::EmitterConfig::new().perform_indent(true).create_writer(Vec::new());
    let mut element = |writer: &mut xml::writer::EventWriter<Vec<u8>>, name: &str, text: &str| {
        writer.write(xml::writer::XmlEvent::start_element(name)).unwrap();
        writer.write(xml::writer::XmlEvent::characters(text)).unwrap();
        writer.write(xml::writer::XmlEvent::end_element()).unwrap();
    };
    writer.write(xml::writer::XmlEvent::start_element("hashlist").attr("version", "1.1")).unwrap();
    writer.write(xml::writer::XmlEvent::start_element("creatorinfo")).unwrap();
    element(&mut writer, "name", "Ada Lovelace");
    element(&mut writer, "username", "ada");
    element(&mut writer, "hostname", "engine");
    element(&mut writer, "tool", "rccopy ver. 0.1.0");
    element(&mut writer, "startdate", "2023-11-14T22:13:20Z");
    element(&mut writer, "finishdate", "2023-11-14T22:14:20Z");
    writer.write(xml::writer::XmlEvent::end_element()).unwrap();
    writer.write(xml::writer::XmlEvent::start_element("hash")).unwrap();
    element(&mut writer, "file", "x/y.mov");
    element(&mut writer, "size", "123456789012");
    element(&mut writer, "lastmodificationdate", "2020-09-13T12:26:40Z");
    element(&mut writer, "sha1", "da39a3ee5e6b4b0d3255bfef95601890afd80709");
    element(&mut writer, "hashdate", "2023-11-14T22:13:50Z");
    writer.write(xml::writer::XmlEvent::end_element()).unwrap();
    writer.write(xml::writer::XmlEvent::end_element()).unwrap();
    assert_eq!(bytes, writer.into_inner());
}

#[test]
fn manifest_without_records_has_only_the_creator_block() {
    let bytes = manifest_document(&info(), &Vec::new()).unwrap();
    let text = String::from_utf8(bytes).unwrap();
    assert!(text.contains("<creatorinfo>"));
    assert!(!text.contains("<hash>"));
    assert!(text.ends_with("</hashlist>"));
}

#[test]
fn manifest_with_an_unwritable_time_is_refused() {
    let mut bad_record = record("a", 1, "00", Algorithm::Md5);
    bad_record.hashed_at = i64::MAX;
    assert_eq!(manifest_document(&info(), &vec![bad_record]), Err(ManifestError::TimestampOutOfRange));
    let mut bad_info = info();
    bad_info.finished_at = i64::MIN;
    assert_eq!(manifest_markup(&bad_info, &Vec::new()).err(), Some(ManifestError::TimestampOutOfRange));
}

#[test]
fn manifest_markup_has_the_events_in_order() {
    let events = manifest_markup(&info(), &vec![record("p", 7, "ab", Algorithm::Md5)]).unwrap();
    // root, creator block of 6 elements, one file block of 5 elements, end of root
    assert_eq!(events.len(), 1 + (2 + 6 * 3) + (2 + 5 * 3) + 1);
    match &events[0] {
        MarkupEvent::Open { name, attributes } => {
            assert_eq!(name, "hashlist");
            assert_eq!(attributes, &vec![(String::from("version"), String::from("1.1"))]);
        }
        _ => panic!("the first event opens the root"),
    }
    match &events[events.len() - 1] {
        MarkupEvent::Close => {}
        _ => panic!("the last event closes the root"),
    }
    match (&events[25], &events[26]) {
        (MarkupEvent::Open { name, .. }, MarkupEvent::Text(text)) => {
            assert_eq!(name, "size");
            assert_eq!(text, "7");
        }
        _ => panic!("the size element is the second of a file block"),
    }
}

#[test]
fn render_refuses_a_close_without_an_open() {
    let events = vec![
        MarkupEvent::Open { name: String::from("a"), attributes: Vec::new() },
        MarkupEvent::Close,
        MarkupEvent::Close,
    ];
    assert_eq!(render(&events, false), Err(MarkupError::CloseWithoutOpen));
    assert_eq!(render(&vec![MarkupEvent::Close], true), Err(MarkupError::CloseWithoutOpen));
}

#[test]
fn render_writes_elements_text_and_attributes() {
    let events = vec![
        MarkupEvent::Open {
            name: String::from("a"),
            attributes: vec![(String::from("k"), String::from("v")), (String::from("q"), String::from("\""))],
        },
        MarkupEvent::Open { name: String::from("b"), attributes: Vec::new() },
        MarkupEvent::Text(String::from("1 < 2")),
        MarkupEvent::Close,
        MarkupEvent::Open { name: String::from("c"), attributes: Vec::new() },
        MarkupEvent::Close,
        MarkupEvent::Close,
    ];
    let flat = String::from_utf8(render(&events, false).unwrap()).unwrap();
    assert_eq!(
        flat,
        "<?xml version=\"1.0\" encoding=\"UTF-8\"?><a k=\"v\" q=\"&quot;\"><b>1 &lt; 2</b><c /></a>"
    );
    let indented = String::from_utf8(render(&events, true).unwrap()).unwrap();
    assert_eq!(
        indented,
        "<?xml version=\"1.0\" encoding=\"UTF-8\"?>\n<a k=\"v\" q=\"&quot;\">\n  <b>1 &lt; 2</b>\n  <c />\n</a>"
    );
}
