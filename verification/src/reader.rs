//! Reading a media hash list back: from the events of a document to what the
//! list says of each file.

use vstd::prelude::*;
use crate::algorithm::{lemma_names_are_distinct, Algorithm};
use crate::manifest::{
    spec_creator_markup,
    spec_date,
    spec_manifest_markup,
    spec_open,
    spec_record_markup,
    spec_records_markup,
    spec_root_open,
    FileRecordView,
    RunInfoView,
};
use crate::markup::{spec_markup, Markup, MarkupEvent};
use crate::text::{lemma_decimal_round_trip, parse_u64, spec_decimal, spec_parse_u64};

verus! {

/// What a media hash list says of one file.
#[derive(Clone, Debug, PartialEq, Eq)]
pub struct ManifestEntry {
    pub relative_path: String,
    pub size_bytes: u64,
    pub checksum: String,
    pub checksum_algorithm: Algorithm,
}

/// A `ManifestEntry` with its texts as plain sequences of characters.
pub struct ManifestEntryView {
    pub relative_path: Seq<char>,
    pub size_bytes: u64,
    pub checksum: Seq<char>,
    pub checksum_algorithm: Algorithm,
}

impl View for ManifestEntry {
    type V = ManifestEntryView;

    open spec fn view(&self) -> ManifestEntryView {
        ManifestEntryView {
            relative_path: self.relative_path@,
            size_bytes: self.size_bytes,
            checksum: self.checksum@,
            checksum_algorithm: self.checksum_algorithm,
        }
    }
}

/// The entries as plain values, one for one.
pub open spec fn spec_entry_views(entries: Seq<ManifestEntry>) -> Seq<ManifestEntryView> {
    Seq::new(entries.len(), |i: int| entries[i]@)
}

/// What the list says of the file of a record.
pub open spec fn spec_entry_of(record: FileRecordView) -> ManifestEntryView {
    ManifestEntryView {
        relative_path: record.relative_path,
        size_bytes: record.size_bytes,
        checksum: record.checksum,
        checksum_algorithm: record.checksum_algorithm,
    }
}

/// What the list says of the files of the records, one for one.
pub open spec fn spec_entries_of(records: Seq<FileRecordView>) -> Seq<ManifestEntryView> {
    Seq::new(records.len(), |i: int| spec_entry_of(records[i]))
}

/// The number of events in the block of one file.
pub const BLOCK_EVENTS: usize = 17;

/// The number of events before the first file's block: the root's opening
/// and the creator block.
pub const HEAD_EVENTS: usize = 21;

/// Whether an element named `name` that holds text and nothing else stands
/// at `at`.
pub open spec fn spec_element_at(events: Seq<Markup>, at: int, name: Seq<char>) -> bool {
    &&& events[at] == spec_open(name)
    &&& events[at + 1] is Text
    &&& events[at + 2] is Close
}

/// The algorithm whose digests stand under the element name `tag`, if any.
pub open spec fn spec_tag_algorithm(tag: Seq<char>) -> Option<Algorithm> {
    if tag == Algorithm::Md5.spec_manifest_tag() {
        Some(Algorithm::Md5)
    } else if tag == Algorithm::Sha1.spec_manifest_tag() {
        Some(Algorithm::Sha1)
    } else if tag == Algorithm::Xxh64.spec_manifest_tag() {
        Some(Algorithm::Xxh64)
    } else {
        None
    }
}

/// Whether the events have the shape of a file's block: the five elements
/// in their order, the fourth named after an algorithm, the size a numeral.
pub open spec fn spec_is_block(block: Seq<Markup>) -> bool {
    &&& block.len() == BLOCK_EVENTS
    &&& block[0] == spec_open("hash"@)
    &&& spec_element_at(block, 1, "file"@)
    &&& spec_element_at(block, 4, "size"@)
    &&& spec_element_at(block, 7, "lastmodificationdate"@)
    &&& block[10] is Open
    &&& block[10]->attributes.len() == 0
    &&& block[11] is Text
    &&& block[12] is Close
    &&& spec_element_at(block, 13, "hashdate"@)
    &&& block[16] is Close
    &&& spec_parse_u64(block[5]->0) is Some
    &&& spec_tag_algorithm(block[10]->name) is Some
}

/// What a file's block says, if the events are one.
pub open spec fn spec_read_block(block: Seq<Markup>) -> Option<ManifestEntryView> {
    if spec_is_block(block) {
        Some(
            ManifestEntryView {
                relative_path: block[2]->0,
                size_bytes: spec_parse_u64(block[5]->0)->0,
                checksum: block[11]->0,
                checksum_algorithm: spec_tag_algorithm(block[10]->name)->0,
            },
        )
    } else {
        None
    }
}

/// The events of the `k`-th block among `body`.
pub open spec fn spec_block(body: Seq<Markup>, k: int) -> Seq<Markup> {
    body.subrange(BLOCK_EVENTS * k, BLOCK_EVENTS * k + BLOCK_EVENTS)
}

/// What the blocks say, in order, if `body` is nothing but blocks.
pub open spec fn spec_read_blocks(body: Seq<Markup>) -> Option<Seq<ManifestEntryView>> {
    if body.len() % (BLOCK_EVENTS as nat) == 0 && forall|k: int|
        0 <= k < body.len() / (BLOCK_EVENTS as nat) ==> spec_is_block(#[trigger] spec_block(body, k)) {
        Some(
            Seq::new(
                body.len() / (BLOCK_EVENTS as nat),
                |k: int| spec_read_block(spec_block(body, k))->0,
            ),
        )
    } else {
        None
    }
}

/// Whether the events have the shape of the creator block.
pub open spec fn spec_is_creator_block(block: Seq<Markup>) -> bool {
    &&& block.len() == 20
    &&& block[0] == spec_open("creatorinfo"@)
    &&& spec_element_at(block, 1, "name"@)
    &&& spec_element_at(block, 4, "username"@)
    &&& spec_element_at(block, 7, "hostname"@)
    &&& spec_element_at(block, 10, "tool"@)
    &&& spec_element_at(block, 13, "startdate"@)
    &&& spec_element_at(block, 16, "finishdate"@)
    &&& block[19] is Close
}

/// What a media hash list says of its files, in order, if the events are
/// those of a list in version 1.1: the root, the creator block, the blocks of
/// the files, and nothing else.
pub open spec fn spec_read_manifest(events: Seq<Markup>) -> Option<Seq<ManifestEntryView>> {
    if events.len() > HEAD_EVENTS && events[0] == spec_root_open() && spec_is_creator_block(
        events.subrange(1, HEAD_EVENTS as int),
    ) && events.last() is Close {
        spec_read_blocks(events.subrange(HEAD_EVENTS as int, events.len() - 1))
    } else {
        None
    }
}

/// An algorithm is found again under its own element name.
pub proof fn lemma_tag_round_trip(algorithm: Algorithm)
    ensures
        spec_tag_algorithm(algorithm.spec_manifest_tag()) == Some(algorithm),
{
    lemma_names_are_distinct(algorithm, Algorithm::Md5);
    lemma_names_are_distinct(algorithm, Algorithm::Sha1);
    lemma_names_are_distinct(algorithm, Algorithm::Xxh64);
}

/// The block that is written for a record has the shape of a block and says
/// of the file what the record says.
pub proof fn lemma_block_round_trip(record: FileRecordView)
    ensures
        spec_record_markup(record).len() == BLOCK_EVENTS,
        spec_read_block(spec_record_markup(record)) == Some(spec_entry_of(record)),
{
    let block = spec_record_markup(record);
    let size = spec_decimal(record.size_bytes as nat);
    let tag = record.checksum_algorithm.spec_manifest_tag();
    let flat = seq![
        spec_open("hash"@),
        spec_open("file"@),
        Markup::Text(record.relative_path),
        Markup::Close,
        spec_open("size"@),
        Markup::Text(size),
        Markup::Close,
        spec_open("lastmodificationdate"@),
        Markup::Text(spec_date(record.modified_at)),
        Markup::Close,
        spec_open(tag),
        Markup::Text(record.checksum),
        Markup::Close,
        spec_open("hashdate"@),
        Markup::Text(spec_date(record.hashed_at)),
        Markup::Close,
        Markup::Close,
    ];
    assert(block =~= flat);
    lemma_decimal_round_trip(record.size_bytes as nat);
    lemma_tag_round_trip(record.checksum_algorithm);
    assert(spec_is_block(block));
}

/// The blocks that are written for records are as many as the records, each
/// in its place.
pub proof fn lemma_blocks_in_place(records: Seq<FileRecordView>)
    ensures
        spec_records_markup(records).len() == BLOCK_EVENTS * records.len(),
        forall|k: int|
            0 <= k < records.len() ==> #[trigger] spec_block(spec_records_markup(records), k)
                == spec_record_markup(records[k]),
    decreases records.len(),
{
    if records.len() > 0 {
        let head = records.drop_last();
        lemma_blocks_in_place(head);
        lemma_block_round_trip(records.last());
        let body = spec_records_markup(records);
        let before = spec_records_markup(head);
        assert(body == before + spec_record_markup(records.last()));
        assert forall|k: int| 0 <= k < records.len() implies #[trigger] spec_block(body, k)
            == spec_record_markup(records[k]) by {
            if k < head.len() {
                assert(spec_block(body, k) =~= spec_block(before, k));
                assert(head[k] == records[k]);
            } else {
                assert(spec_block(body, k) =~= spec_record_markup(records.last()));
            }
        }
    }
}

/// The blocks that are written for records are read back as what the
/// records say.
pub proof fn lemma_blocks_round_trip(records: Seq<FileRecordView>)
    ensures
        spec_read_blocks(spec_records_markup(records)) == Some(spec_entries_of(records)),
{
    let body = spec_records_markup(records);
    lemma_blocks_in_place(records);
    assert(body.len() / (BLOCK_EVENTS as nat) == records.len());
    assert forall|k: int| 0 <= k < records.len() implies spec_is_block(
        #[trigger] spec_block(body, k),
    ) && spec_read_block(spec_block(body, k)) == Some(spec_entry_of(records[k])) by {
        lemma_block_round_trip(records[k]);
    }
    assert(spec_read_blocks(body)->0 =~= spec_entries_of(records));
}

/// The creator block that is written has the shape of a creator block.
pub proof fn lemma_creator_shape(info: RunInfoView)
    ensures
        spec_creator_markup(info).len() == 20,
        spec_is_creator_block(spec_creator_markup(info)),
{
    let flat = seq![
        spec_open("creatorinfo"@),
        spec_open("name"@),
        Markup::Text(info.operator_name),
        Markup::Close,
        spec_open("username"@),
        Markup::Text(info.username),
        Markup::Close,
        spec_open("hostname"@),
        Markup::Text(info.hostname),
        Markup::Close,
        spec_open("tool"@),
        Markup::Text(info.tool),
        Markup::Close,
        spec_open("startdate"@),
        Markup::Text(spec_date(info.started_at)),
        Markup::Close,
        spec_open("finishdate"@),
        Markup::Text(spec_date(info.finished_at)),
        Markup::Close,
        Markup::Close,
    ];
    assert(spec_creator_markup(info) =~= flat);
}

/// Writing and reading back: the events of the list that is written for a
/// set of records are read back as the same paths, sizes, checksums and
/// algorithms, in the same order.
pub proof fn lemma_manifest_round_trip(info: RunInfoView, records: Seq<FileRecordView>)
    ensures
        spec_read_manifest(spec_manifest_markup(info, records)) == Some(spec_entries_of(records)),
{
    let events = spec_manifest_markup(info, records);
    lemma_creator_shape(info);
    lemma_blocks_in_place(records);
    lemma_blocks_round_trip(records);
    assert(events.len() == 1 + 20 + BLOCK_EVENTS * records.len() + 1);
    assert(events[0] == spec_root_open());
    assert(events.subrange(1, HEAD_EVENTS as int) =~= spec_creator_markup(info));
    assert(events.subrange(HEAD_EVENTS as int, events.len() - 1) =~= spec_records_markup(records));
    assert(events.last() == Markup::Close);
}

/// The entries as plain values, if there are any.
pub open spec fn spec_entries_view(entries: Option<Vec<ManifestEntry>>) -> Option<
    Seq<ManifestEntryView>,
> {
    match entries {
        Some(list) => Some(spec_entry_views(list@)),
        None => None,
    }
}

/// The entry as plain values, if there is one.
pub open spec fn spec_entry_view(entry: Option<ManifestEntry>) -> Option<ManifestEntryView> {
    match entry {
        Some(e) => Some(e@),
        None => None,
    }
}

fn is_open(event: &MarkupEvent, name: &str) -> (open: bool)
    ensures
        open == (event@ == spec_open(name@)),
{
    match event {
        MarkupEvent::Open { name: found, attributes } => {
            let open = *found.as_str() == *name && attributes.len() == 0;
            proof {
                if attributes.len() == 0 {
                    assert(event@->attributes =~= Seq::<(Seq<char>, Seq<char>)>::empty());
                } else {
                    assert(event@->attributes.len() != 0);
                }
            }
            open
        },
        _ => false,
    }
}

fn is_root_open(event: &MarkupEvent) -> (root: bool)
    ensures
        root == (event@ == spec_root_open()),
{
    match event {
        MarkupEvent::Open { name, attributes } => {
            if attributes.len() != 1 {
                assert(event@->attributes.len() != 1);
                return false;
            }
            let root = *name.as_str() == *"hashlist" && *attributes[0].0.as_str() == *"version"
                && *attributes[0].1.as_str() == *"1.1";
            proof {
                assert(event@->attributes[0] == (attributes@[0].0@, attributes@[0].1@));
                if root {
                    assert(event@->attributes =~= seq![("version"@, "1.1"@)]);
                } else if name@ == "hashlist"@ {
                    assert(event@->attributes[0] != ("version"@, "1.1"@));
                }
            }
            root
        },
        _ => false,
    }
}

fn is_text(event: &MarkupEvent) -> (text: bool)
    ensures
        text == (event@ is Text),
{
    match event {
        MarkupEvent::Text(_) => true,
        _ => false,
    }
}

fn is_close(event: &MarkupEvent) -> (close: bool)
    ensures
        close == (event@ is Close),
{
    match event {
        MarkupEvent::Close => true,
        _ => false,
    }
}

fn is_element_at(events: &Vec<MarkupEvent>, at: usize, name: &str) -> (found: bool)
    requires
        at + 2 < events.len(),
    ensures
        found == spec_element_at(spec_markup(events@), at as int, name@),
{
    is_open(&events[at], name) && is_text(&events[at + 1]) && is_close(&events[at + 2])
}

fn is_creator_block(events: &Vec<MarkupEvent>) -> (found: bool)
    requires
        events.len() >= HEAD_EVENTS,
    ensures
        found == spec_is_creator_block(spec_markup(events@).subrange(1, HEAD_EVENTS as int)),
{
    let ghost block = spec_markup(events@).subrange(1, HEAD_EVENTS as int);
    proof {
        assert forall|j: int| 0 <= j < 20 implies #[trigger] block[j] == events@[1 + j]@ by {}
    }
    is_open(&events[1], "creatorinfo") && is_element_at(events, 2, "name") && is_element_at(
        events,
        5,
        "username",
    ) && is_element_at(events, 8, "hostname") && is_element_at(events, 11, "tool")
        && is_element_at(events, 14, "startdate") && is_element_at(events, 17, "finishdate")
        && is_close(&events[20])
}

fn text_at(events: &Vec<MarkupEvent>, at: usize) -> (text: Option<String>)
    requires
        at < events.len(),
    ensures
        match text {
            Some(t) => events@[at as int]@ == Markup::Text(t@),
            None => !(events@[at as int]@ is Text),
        },
{
    match &events[at] {
        MarkupEvent::Text(t) => Some(t.clone()),
        _ => None,
    }
}

fn tag_at(events: &Vec<MarkupEvent>, at: usize) -> (algorithm: Option<Algorithm>)
    requires
        at < events.len(),
    ensures
        match algorithm {
            Some(a) => {
                &&& events@[at as int]@ is Open
                &&& events@[at as int]@->attributes.len() == 0
                &&& spec_tag_algorithm(events@[at as int]@->name) == Some(a)
            },
            None => !(events@[at as int]@ is Open) || events@[at as int]@->attributes.len() != 0
                || spec_tag_algorithm(events@[at as int]@->name) is None,
        },
{
    match &events[at] {
        MarkupEvent::Open { name, attributes } => {
            if attributes.len() != 0 {
                return None;
            }
            let found = Algorithm::from_manifest_tag(name.as_str());
            proof {
                match found {
                    Some(a) => {
                        lemma_tag_round_trip(a);
                    },
                    None => {
                        assert(name@ != Algorithm::Md5.spec_manifest_tag());
                        assert(name@ != Algorithm::Sha1.spec_manifest_tag());
                        assert(name@ != Algorithm::Xxh64.spec_manifest_tag());
                    },
                }
            }
            found
        },
        _ => None,
    }
}

fn read_block(events: &Vec<MarkupEvent>, start: usize) -> (entry: Option<ManifestEntry>)
    requires
        start + BLOCK_EVENTS <= events.len(),
    ensures
        spec_entry_view(entry) == spec_read_block(
            spec_markup(events@).subrange(start as int, start + BLOCK_EVENTS),
        ),
{
    let ghost block = spec_markup(events@).subrange(start as int, start + BLOCK_EVENTS);
    proof {
        assert forall|j: int| 0 <= j < BLOCK_EVENTS implies #[trigger] block[j] == events@[start
            + j]@ by {}
        assert forall|j: int, name: Seq<char>|
            0 <= j && j + 2 < BLOCK_EVENTS implies #[trigger] spec_element_at(block, j, name)
            == spec_element_at(spec_markup(events@), start + j, name) by {
            assert(block[j] == events@[start + j]@);
            assert(block[j + 1] == events@[start + j + 1]@);
            assert(block[j + 2] == events@[start + j + 2]@);
        }
    }
    if !is_open(&events[start], "hash") {
        return None;
    }
    if !is_element_at(events, start + 1, "file") || !is_element_at(events, start + 4, "size")
        || !is_element_at(events, start + 7, "lastmodificationdate") || !is_element_at(
        events,
        start + 13,
        "hashdate",
    ) {
        assert(!spec_is_block(block));
        return None;
    }
    if !is_text(&events[start + 11]) || !is_close(&events[start + 12]) || !is_close(
        &events[start + 16],
    ) {
        return None;
    }
    let checksum_algorithm = match tag_at(events, start + 10) {
        Some(a) => a,
        None => {
            return None;
        },
    };
    let relative_path = match text_at(events, start + 2) {
        Some(t) => t,
        None => {
            return None;
        },
    };
    let size_text = match text_at(events, start + 5) {
        Some(t) => t,
        None => {
            return None;
        },
    };
    let checksum = match text_at(events, start + 11) {
        Some(t) => t,
        None => {
            return None;
        },
    };
    let size_bytes = match parse_u64(size_text.as_str()) {
        Some(n) => n,
        None => {
            return None;
        },
    };
    assert(spec_is_block(block));
    Some(ManifestEntry { relative_path, size_bytes, checksum, checksum_algorithm })
}

/// Reads what a media hash list says of its files from the events of its
/// document. There is a result exactly when the events are those of a list:
/// the root in version 1.1, the creator block, and file blocks to the end.
pub fn read_manifest(events: &Vec<MarkupEvent>) -> (entries: Option<Vec<ManifestEntry>>)
    ensures
        spec_entries_view(entries) == spec_read_manifest(spec_markup(events@)),
{
    let ghost all = spec_markup(events@);
    let n: usize = events.len();
    if n <= HEAD_EVENTS {
        return None;
    }
    if !is_root_open(&events[0]) || !is_creator_block(events) || !is_close(&events[n - 1]) {
        return None;
    }
    let ghost body = all.subrange(HEAD_EVENTS as int, n - 1);
    let body_len: usize = n - 1 - HEAD_EVENTS;
    if body_len % BLOCK_EVENTS != 0 {
        return None;
    }
    let count: usize = body_len / BLOCK_EVENTS;
    let mut entries: Vec<ManifestEntry> = Vec::new();
    let mut k: usize = 0;
    while k < count
        invariant
            k <= count,
            n == events.len(),
            n > HEAD_EVENTS,
            body_len == n - 1 - HEAD_EVENTS,
            body_len == count * BLOCK_EVENTS,
            all == spec_markup(events@),
            body == all.subrange(HEAD_EVENTS as int, n - 1),
            entries.len() == k,
            forall|j: int| 0 <= j < k ==> spec_is_block(#[trigger] spec_block(body, j)),
            forall|j: int|
                0 <= j < k ==> (#[trigger] entries@[j])@ == spec_read_block(spec_block(body, j))->0,
        decreases count - k,
    {
        let start: usize = HEAD_EVENTS + BLOCK_EVENTS * k;
        proof {
            assert(spec_block(body, k as int) =~= all.subrange(
                start as int,
                start + BLOCK_EVENTS,
            ));
        }
        match read_block(events, start) {
            Some(entry) => {
                entries.push(entry);
            },
            None => {
                assert(!spec_is_block(spec_block(body, k as int)));
                return None;
            },
        }
        k += 1;
    }
    proof {
        assert(body.len() / (BLOCK_EVENTS as nat) == count);
        assert(spec_entry_views(entries@) =~= spec_read_blocks(body)->0);
    }
    Some(entries)
}

} // verus!
