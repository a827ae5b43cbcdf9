//! The media hash list: the records of the files that were copied and
//! verified, the facts of the run, and the document that holds both.

use vstd::prelude::*;
use vstd::string::StringExecFns;
use crate::algorithm::Algorithm;
use crate::markup::{
    lemma_closed_append,
    lemma_closed_empty,
    lemma_closed_wrapped,
    lemma_single,
    render,
    spec_closed,
    spec_markup,
    xml_document,
    Markup,
    MarkupEvent,
};
use crate::text::{decimal_string, spec_decimal};
use crate::timestamp::{format_timestamp_rfc3339, rfc3339_utc_seconds};

verus! {

/// One file that was copied, or found in place, and verified.
#[derive(Clone, Debug, PartialEq, Eq)]
pub struct FileRecord {
    /// The file's path relative to the destination root.
    pub relative_path: String,
    /// The size of the source file in bytes.
    pub size_bytes: u64,
    /// When the source file was last modified, in seconds since the epoch.
    pub modified_at: i64,
    /// The file's checksum in lowercase hexadecimal.
    pub checksum: String,
    /// The algorithm that gave the checksum.
    pub checksum_algorithm: Algorithm,
    /// When the checksum was computed, in seconds since the epoch.
    pub hashed_at: i64,
}

/// A `FileRecord` with its texts as plain sequences of characters.
pub struct FileRecordView {
    pub relative_path: Seq<char>,
    pub size_bytes: u64,
    pub modified_at: i64,
    pub checksum: Seq<char>,
    pub checksum_algorithm: Algorithm,
    pub hashed_at: i64,
}

impl View for FileRecord {
    type V = FileRecordView;

    open spec fn view(&self) -> FileRecordView {
        FileRecordView {
            relative_path: self.relative_path@,
            size_bytes: self.size_bytes,
            modified_at: self.modified_at,
            checksum: self.checksum@,
            checksum_algorithm: self.checksum_algorithm,
            hashed_at: self.hashed_at,
        }
    }
}

/// Who ran the copy, where, with what, and when.
#[derive(Clone, Debug, PartialEq, Eq)]
pub struct RunInfo {
    /// The operator's full name.
    pub operator_name: String,
    /// The operator's user name.
    pub username: String,
    /// The name of the machine.
    pub hostname: String,
    /// The tool and its version.
    pub tool: String,
    /// When the run began, in seconds since the epoch.
    pub started_at: i64,
    /// When the run ended, in seconds since the epoch.
    pub finished_at: i64,
}

/// A `RunInfo` with its texts as plain sequences of characters.
pub struct RunInfoView {
    pub operator_name: Seq<char>,
    pub username: Seq<char>,
    pub hostname: Seq<char>,
    pub tool: Seq<char>,
    pub started_at: i64,
    pub finished_at: i64,
}

impl View for RunInfo {
    type V = RunInfoView;

    open spec fn view(&self) -> RunInfoView {
        RunInfoView {
            operator_name: self.operator_name@,
            username: self.username@,
            hostname: self.hostname@,
            tool: self.tool@,
            started_at: self.started_at,
            finished_at: self.finished_at,
        }
    }
}

/// The records as plain values, one for one.
pub open spec fn spec_record_views(records: Seq<FileRecord>) -> Seq<FileRecordView> {
    Seq::new(records.len(), |i: int| records[i]@)
}

/// Why a media hash list could not be made.
#[derive(Clone, Copy, Debug, PartialEq, Eq, Structural)]
pub enum ManifestError {
    /// A point in time lies outside the calendar and cannot be written.
    TimestampOutOfRange,
}

/// How the tool names itself: its name, ` ver. `, its version.
pub open spec fn spec_tool_identity(name: Seq<char>, version: Seq<char>) -> Seq<char> {
    name + " ver. "@ + version
}

/// How the tool names itself in the list.
pub fn tool_identity(name: &str, version: &str) -> (tool: String)
    ensures
        tool@ == spec_tool_identity(name@, version@),
{
    let mut tool = String::from_str(name);
    tool.append(" ver. ");
    tool.append(version);
    tool
}

/// The written form of a point in time; arbitrary where there is none.
pub open spec fn spec_date(unix_seconds: i64) -> Seq<char> {
    rfc3339_utc_seconds(unix_seconds)->0
}

/// An element without attributes.
pub open spec fn spec_open(name: Seq<char>) -> Markup {
    Markup::Open { name, attributes: Seq::<(Seq<char>, Seq<char>)>::empty() }
}

/// An element that holds text and nothing else.
pub open spec fn spec_element(name: Seq<char>, text: Seq<char>) -> Seq<Markup> {
    seq![spec_open(name), Markup::Text(text), Markup::Close]
}

/// The root element's opening: `hashlist` in version 1.1 of the format.
pub open spec fn spec_root_open() -> Markup {
    Markup::Open { name: "hashlist"@, attributes: seq![("version"@, "1.1"@)] }
}

/// The block that says who made the list.
pub open spec fn spec_creator_markup(info: RunInfoView) -> Seq<Markup> {
    seq![spec_open("creatorinfo"@)] + spec_element("name"@, info.operator_name) + spec_element(
        "username"@,
        info.username,
    ) + spec_element("hostname"@, info.hostname) + spec_element("tool"@, info.tool)
        + spec_element("startdate"@, spec_date(info.started_at)) + spec_element(
        "finishdate"@,
        spec_date(info.finished_at),
    ) + seq![Markup::Close]
}

/// The block of one file. The checksum stands in an element that is named
/// after its algorithm.
pub open spec fn spec_record_markup(record: FileRecordView) -> Seq<Markup> {
    seq![spec_open("hash"@)] + spec_element("file"@, record.relative_path) + spec_element(
        "size"@,
        spec_decimal(record.size_bytes as nat),
    ) + spec_element("lastmodificationdate"@, spec_date(record.modified_at)) + spec_element(
        record.checksum_algorithm.spec_manifest_tag(),
        record.checksum,
    ) + spec_element("hashdate"@, spec_date(record.hashed_at)) + seq![Markup::Close]
}

/// The blocks of all files, in the order of the records.
pub open spec fn spec_records_markup(records: Seq<FileRecordView>) -> Seq<Markup>
    decreases records.len(),
{
    if records.len() == 0 {
        Seq::<Markup>::empty()
    } else {
        spec_records_markup(records.drop_last()) + spec_record_markup(records.last())
    }
}

/// The whole list: the root, the creator block, the file blocks.
pub open spec fn spec_manifest_markup(info: RunInfoView, records: Seq<FileRecordView>) -> Seq<
    Markup,
> {
    seq![spec_root_open()] + spec_creator_markup(info) + spec_records_markup(records) + seq![
        Markup::Close,
    ]
}

/// Whether every point in time of the list can be written.
pub open spec fn spec_times_writable(info: RunInfoView, records: Seq<FileRecordView>) -> bool {
    &&& rfc3339_utc_seconds(info.started_at) is Some
    &&& rfc3339_utc_seconds(info.finished_at) is Some
    &&& forall|i: int|
        0 <= i < records.len() ==> rfc3339_utc_seconds((#[trigger] records[i]).modified_at) is Some
            && rfc3339_utc_seconds(records[i].hashed_at) is Some
}

/// An element that holds only text stands on its own.
pub proof fn lemma_element_closed(name: Seq<char>, text: Seq<char>)
    ensures
        spec_closed(spec_element(name, text)),
{
    lemma_single(Markup::Text(text));
    lemma_closed_wrapped(spec_open(name), seq![Markup::Text(text)]);
    assert(spec_element(name, text) =~= seq![spec_open(name)] + seq![Markup::Text(text)] + seq![
        Markup::Close,
    ]);
}

/// The creator block stands on its own.
pub proof fn lemma_creator_closed(info: RunInfoView)
    ensures
        spec_closed(spec_creator_markup(info)),
{
    let e1 = spec_element("name"@, info.operator_name);
    let e2 = spec_element("username"@, info.username);
    let e3 = spec_element("hostname"@, info.hostname);
    let e4 = spec_element("tool"@, info.tool);
    let e5 = spec_element("startdate"@, spec_date(info.started_at));
    let e6 = spec_element("finishdate"@, spec_date(info.finished_at));
    lemma_element_closed("name"@, info.operator_name);
    lemma_element_closed("username"@, info.username);
    lemma_element_closed("hostname"@, info.hostname);
    lemma_element_closed("tool"@, info.tool);
    lemma_element_closed("startdate"@, spec_date(info.started_at));
    lemma_element_closed("finishdate"@, spec_date(info.finished_at));
    lemma_closed_append(e1, e2);
    lemma_closed_append(e1 + e2, e3);
    lemma_closed_append(e1 + e2 + e3, e4);
    lemma_closed_append(e1 + e2 + e3 + e4, e5);
    lemma_closed_append(e1 + e2 + e3 + e4 + e5, e6);
    let inner = e1 + e2 + e3 + e4 + e5 + e6;
    lemma_closed_wrapped(spec_open("creatorinfo"@), inner);
    assert(spec_creator_markup(info) =~= seq![spec_open("creatorinfo"@)] + inner + seq![
        Markup::Close,
    ]);
}

/// The block of one file stands on its own.
pub proof fn lemma_record_closed(record: FileRecordView)
    ensures
        spec_closed(spec_record_markup(record)),
{
    let e1 = spec_element("file"@, record.relative_path);
    let e2 = spec_element("size"@, spec_decimal(record.size_bytes as nat));
    let e3 = spec_element("lastmodificationdate"@, spec_date(record.modified_at));
    let e4 = spec_element(record.checksum_algorithm.spec_manifest_tag(), record.checksum);
    let e5 = spec_element("hashdate"@, spec_date(record.hashed_at));
    lemma_element_closed("file"@, record.relative_path);
    lemma_element_closed("size"@, spec_decimal(record.size_bytes as nat));
    lemma_element_closed("lastmodificationdate"@, spec_date(record.modified_at));
    lemma_element_closed(record.checksum_algorithm.spec_manifest_tag(), record.checksum);
    lemma_element_closed("hashdate"@, spec_date(record.hashed_at));
    lemma_closed_append(e1, e2);
    lemma_closed_append(e1 + e2, e3);
    lemma_closed_append(e1 + e2 + e3, e4);
    lemma_closed_append(e1 + e2 + e3 + e4, e5);
    let inner = e1 + e2 + e3 + e4 + e5;
    lemma_closed_wrapped(spec_open("hash"@), inner);
    assert(spec_record_markup(record) =~= seq![spec_open("hash"@)] + inner + seq![Markup::Close]);
}

/// The blocks of any number of files stand on their own.
pub proof fn lemma_records_closed(records: Seq<FileRecordView>)
    ensures
        spec_closed(spec_records_markup(records)),
    decreases records.len(),
{
    if records.len() == 0 {
        lemma_closed_empty();
    } else {
        lemma_records_closed(records.drop_last());
        lemma_record_closed(records.last());
        lemma_closed_append(
            spec_records_markup(records.drop_last()),
            spec_record_markup(records.last()),
        );
    }
}

/// The whole list stands on its own: every element that it opens it closes,
/// and it closes none that is not open.
pub proof fn lemma_manifest_closed(info: RunInfoView, records: Seq<FileRecordView>)
    ensures
        spec_closed(spec_manifest_markup(info, records)),
{
    lemma_creator_closed(info);
    lemma_records_closed(records);
    let inner = spec_creator_markup(info) + spec_records_markup(records);
    lemma_closed_append(spec_creator_markup(info), spec_records_markup(records));
    lemma_closed_wrapped(spec_root_open(), inner);
    assert(spec_manifest_markup(info, records) =~= seq![spec_root_open()] + inner + seq![
        Markup::Close,
    ]);
}

/// What one more event adds to what the events say.
proof fn lemma_markup_push(events: Seq<MarkupEvent>, event: MarkupEvent)
    ensures
        spec_markup(events.push(event)) == spec_markup(events).push(event@),
{
    assert(spec_markup(events.push(event)) =~= spec_markup(events).push(event@));
}

fn push_open(events: &mut Vec<MarkupEvent>, name: &str)
    ensures
        spec_markup(final(events)@) == spec_markup(old(events)@).push(spec_open(name@)),
{
    let attributes: Vec<(String, String)> = Vec::new();
    let event = MarkupEvent::Open { name: String::from_str(name), attributes };
    proof {
        assert(event@->Open_attributes =~= Seq::<(Seq<char>, Seq<char>)>::empty());
        lemma_markup_push(events@, event);
    }
    events.push(event);
}

fn push_close(events: &mut Vec<MarkupEvent>)
    ensures
        spec_markup(final(events)@) == spec_markup(old(events)@).push(Markup::Close),
{
    proof {
        lemma_markup_push(events@, MarkupEvent::Close);
    }
    events.push(MarkupEvent::Close);
}

fn push_element(events: &mut Vec<MarkupEvent>, name: &str, text: &str)
    ensures
        spec_markup(final(events)@) == spec_markup(old(events)@) + spec_element(name@, text@),
{
    push_open(events, name);
    let event = MarkupEvent::Text(String::from_str(text));
    proof {
        lemma_markup_push(events@, event);
    }
    events.push(event);
    push_close(events);
    assert(spec_markup(events@) =~= spec_markup(old(events)@) + spec_element(name@, text@));
}

fn push_record(events: &mut Vec<MarkupEvent>, record: &FileRecord) -> (written: bool)
    ensures
        written == (rfc3339_utc_seconds(record.modified_at) is Some && rfc3339_utc_seconds(
            record.hashed_at,
        ) is Some),
        written ==> spec_markup(final(events)@) == spec_markup(old(events)@) + spec_record_markup(
            record@,
        ),
{
    let modified = match format_timestamp_rfc3339(record.modified_at) {
        Some(text) => text,
        None => {
            return false;
        },
    };
    let hashed = match format_timestamp_rfc3339(record.hashed_at) {
        Some(text) => text,
        None => {
            return false;
        },
    };
    let size = decimal_string(record.size_bytes);
    push_open(events, "hash");
    push_element(events, "file", record.relative_path.as_str());
    push_element(events, "size", size.as_str());
    push_element(events, "lastmodificationdate", modified.as_str());
    push_element(events, record.checksum_algorithm.manifest_tag(), record.checksum.as_str());
    push_element(events, "hashdate", hashed.as_str());
    push_close(events);
    assert(spec_markup(events@) =~= spec_markup(old(events)@) + spec_record_markup(record@));
    true
}

fn push_creator(events: &mut Vec<MarkupEvent>, info: &RunInfo) -> (written: bool)
    ensures
        written == (rfc3339_utc_seconds(info.started_at) is Some && rfc3339_utc_seconds(
            info.finished_at,
        ) is Some),
        written ==> spec_markup(final(events)@) == spec_markup(old(events)@) + spec_creator_markup(
            info@,
        ),
{
    let started = match format_timestamp_rfc3339(info.started_at) {
        Some(text) => text,
        None => {
            return false;
        },
    };
    let finished = match format_timestamp_rfc3339(info.finished_at) {
        Some(text) => text,
        None => {
            return false;
        },
    };
    push_open(events, "creatorinfo");
    push_element(events, "name", info.operator_name.as_str());
    push_element(events, "username", info.username.as_str());
    push_element(events, "hostname", info.hostname.as_str());
    push_element(events, "tool", info.tool.as_str());
    push_element(events, "startdate", started.as_str());
    push_element(events, "finishdate", finished.as_str());
    push_close(events);
    assert(spec_markup(events@) =~= spec_markup(old(events)@) + spec_creator_markup(info@));
    true
}

/// The events of the media hash list for a run and its records, in the order
/// of the records. There is a list exactly when every point in time in it can
/// be written.
pub fn manifest_markup(info: &RunInfo, records: &Vec<FileRecord>) -> (outcome: Result<
    Vec<MarkupEvent>,
    ManifestError,
>)
    ensures
        match outcome {
            Ok(events) => {
                &&& spec_times_writable(info@, spec_record_views(records@))
                &&& spec_markup(events@) == spec_manifest_markup(
                    info@,
                    spec_record_views(records@),
                )
            },
            Err(e) => {
                &&& e == ManifestError::TimestampOutOfRange
                &&& !spec_times_writable(info@, spec_record_views(records@))
            },
        },
{
    let ghost views = spec_record_views(records@);
    let mut events: Vec<MarkupEvent> = Vec::new();
    let mut attributes: Vec<(String, String)> = Vec::new();
    attributes.push((String::from_str("version"), String::from_str("1.1")));
    let root = MarkupEvent::Open { name: String::from_str("hashlist"), attributes };
    proof {
        assert(root@->Open_attributes =~= seq![("version"@, "1.1"@)]);
        assert(root@ == spec_root_open());
        lemma_markup_push(events@, root);
    }
    events.push(root);
    assert(spec_markup(events@) =~= seq![spec_root_open()]);
    if !push_creator(&mut events, info) {
        return Err(ManifestError::TimestampOutOfRange);
    }
    let ghost head = seq![spec_root_open()] + spec_creator_markup(info@);
    let mut i: usize = 0;
    assert(head + spec_records_markup(views.take(0)) =~= head);
    while i < records.len()
        invariant
            i <= records.len(),
            views == spec_record_views(records@),
            head == seq![spec_root_open()] + spec_creator_markup(info@),
            spec_markup(events@) == head + spec_records_markup(views.take(i as int)),
            forall|j: int|
                0 <= j < i ==> rfc3339_utc_seconds((#[trigger] views[j]).modified_at) is Some
                    && rfc3339_utc_seconds(views[j].hashed_at) is Some,
        decreases records.len() - i,
    {
        proof {
            assert(views[i as int] == records@[i as int]@);
            assert(views.take(i + 1).drop_last() =~= views.take(i as int));
            assert(views.take(i + 1).last() == views[i as int]);
        }
        if !push_record(&mut events, &records[i]) {
            return Err(ManifestError::TimestampOutOfRange);
        }
        proof {
            assert(head + spec_records_markup(views.take(i as int)) + spec_record_markup(
                views[i as int],
            ) =~= head + spec_records_markup(views.take(i + 1)));
        }
        i += 1;
    }
    assert(views.take(records.len() as int) =~= views);
    push_close(&mut events);
    assert(spec_markup(events@) =~= spec_manifest_markup(info@, views));
    Ok(events)
}

/// The media hash list of a run as an XML document, indented. There is a
/// document exactly when every point in time in it can be written; what the
/// document holds is then the list's events, rendered.
pub fn manifest_document(info: &RunInfo, records: &Vec<FileRecord>) -> (outcome: Result<
    Vec<u8>,
    ManifestError,
>)
    ensures
        match outcome {
            Ok(bytes) => {
                &&& spec_times_writable(info@, spec_record_views(records@))
                &&& bytes@ == xml_document(
                    true,
                    spec_manifest_markup(info@, spec_record_views(records@)),
                )
            },
            Err(e) => {
                &&& e == ManifestError::TimestampOutOfRange
                &&& !spec_times_writable(info@, spec_record_views(records@))
            },
        },
{
    let events = match manifest_markup(info, records) {
        Ok(events) => events,
        Err(e) => {
            return Err(e);
        },
    };
    proof {
        lemma_manifest_closed(info@, spec_record_views(records@));
    }
    match render(&events, true) {
        Ok(bytes) => Ok(bytes),
        Err(_) => {
            assert(false);
            Err(ManifestError::TimestampOutOfRange)
        },
    }
}

} // verus!
