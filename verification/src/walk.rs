//! The directory walker: which entries of a directory tree are files to copy,
//! which are empty directories to recreate, and in what order they come.
//!
//! The tree is handed in as it was read from disk. Each entry carries a tag
//! of the caller's choosing, as a rule its path; the walker hands the tags of
//! the chosen entries back.

use vstd::prelude::*;
use crate::text::chars_of;

verus! {

/// One entry of a directory.
pub enum Entry<T> {
    /// Anything that is not a directory. `name` is the entry's own name, or
    /// nothing where the name is not text.
    File { name: Option<String>, tag: T },
    /// A directory with its entries in the order in which they were read.
    Directory { tag: T, children: Vec<Entry<T>> },
}

/// Whether a name begins with `._`, as the shadow files do in which some
/// systems keep a file's metadata.
pub open spec fn spec_has_shadow_prefix(name: Seq<char>) -> bool {
    name.len() >= 2 && name[0] == '.' && name[1] == '_'
}

/// Whether a name is that of a file in which an operating system keeps its
/// own books and which is therefore not copied.
pub open spec fn spec_is_artifact_name(name: Seq<char>) -> bool {
    ||| name == ".DS_Store"@
    ||| name == ".AppleDouble"@
    ||| name == ".LSOverride"@
    ||| name == ".DocumentRevisions-V100"@
    ||| name == ".fseventsd"@
    ||| name == ".Spotlight-V100"@
    ||| name == ".TemporaryItems"@
    ||| name == ".Trashes"@
    ||| name == ".VolumeIcon.icns"@
    ||| name == ".com.apple.timemachine.donotpresent"@
    ||| spec_has_shadow_prefix(name)
}

/// Whether a file of this name is copied: it has a name that is text, and
/// the name is not an artifact's.
pub open spec fn spec_is_listed(name: Option<String>) -> bool {
    match name {
        Some(text) => !spec_is_artifact_name(text@),
        None => false,
    }
}

/// The files below the entries, depth first, in the order of the entries.
pub open spec fn spec_files<T>(entries: Seq<Entry<T>>) -> Seq<T>
    decreases entries, 1int,
{
    if entries.len() == 0 {
        Seq::<T>::empty()
    } else {
        spec_files(entries.drop_last()) + spec_files_of(entries.last())
    }
}

/// The files that one entry stands for: itself if it is a file that is
/// copied, those below it if it is a directory.
pub open spec fn spec_files_of<T>(entry: Entry<T>) -> Seq<T>
    decreases entry, 0int,
{
    match entry {
        Entry::File { name, tag } => if spec_is_listed(name) {
            seq![tag]
        } else {
            Seq::<T>::empty()
        },
        Entry::Directory { tag, children } => spec_files(children@),
    }
}

/// The directories without entries below the entries, depth first, in the
/// order of the entries.
pub open spec fn spec_empty_dirs<T>(entries: Seq<Entry<T>>) -> Seq<T>
    decreases entries, 1int,
{
    if entries.len() == 0 {
        Seq::<T>::empty()
    } else {
        spec_empty_dirs(entries.drop_last()) + spec_empty_dirs_of(entries.last())
    }
}

/// The empty directories that one entry stands for: itself if it is a
/// directory without entries, else those below it.
pub open spec fn spec_empty_dirs_of<T>(entry: Entry<T>) -> Seq<T>
    decreases entry, 0int,
{
    match entry {
        Entry::File { .. } => Seq::<T>::empty(),
        Entry::Directory { tag, children } => if children@.len() == 0 {
            seq![tag]
        } else {
            spec_empty_dirs(children@)
        },
    }
}

/// What the references point to, one for one.
pub open spec fn spec_targets<T>(found: Seq<&T>) -> Seq<T> {
    Seq::new(found.len(), |i: int| *found[i])
}

/// Whether a name is that of an operating system's bookkeeping file.
pub fn is_artifact_name(name: &str) -> (artifact: bool)
    ensures
        artifact == spec_is_artifact_name(name@),
{
    if *name == *".DS_Store" || *name == *".AppleDouble" || *name == *".LSOverride" || *name
        == *".DocumentRevisions-V100" || *name == *".fseventsd" || *name == *".Spotlight-V100"
        || *name == *".TemporaryItems" || *name == *".Trashes" || *name == *".VolumeIcon.icns"
        || *name == *".com.apple.timemachine.donotpresent" {
        return true;
    }
    let chars = chars_of(name);
    chars.len() >= 2 && chars[0] == '.' && chars[1] == '_'
}

/// Whether a file of this name is copied.
pub fn is_listed(name: &Option<String>) -> (listed: bool)
    ensures
        listed == spec_is_listed(*name),
{
    match name {
        Some(text) => !is_artifact_name(text.as_str()),
        None => false,
    }
}

fn collect_files<'a, T>(entries: &'a Vec<Entry<T>>, found: &mut Vec<&'a T>)
    ensures
        spec_targets(final(found)@) == spec_targets(old(found)@) + spec_files(entries@),
    decreases entries,
{
    let mut i: usize = 0;
    assert(spec_targets(found@) + spec_files(entries@.take(0)) =~= spec_targets(found@));
    while i < entries.len()
        invariant
            i <= entries.len(),
            spec_targets(found@) == spec_targets(old(found)@) + spec_files(entries@.take(i as int)),
        decreases entries.len() - i,
    {
        let ghost before = spec_targets(found@);
        proof {
            assert(entries@.take(i + 1).drop_last() =~= entries@.take(i as int));
            assert(entries@.take(i + 1).last() == entries@[i as int]);
        }
        match &entries[i] {
            Entry::File { name, tag } => {
                if is_listed(name) {
                    found.push(tag);
                    assert(spec_targets(found@) =~= before + seq![*tag]);
                }
            },
            Entry::Directory { children, .. } => {
                collect_files(children, found);
            },
        }
        assert(spec_targets(found@) =~= before + spec_files_of(entries@[i as int]));
        assert(spec_targets(old(found)@) + spec_files(entries@.take(i as int)) + spec_files_of(
            entries@[i as int],
        ) =~= spec_targets(old(found)@) + spec_files(entries@.take(i + 1)));
        i += 1;
    }
    assert(entries@.take(entries.len() as int) =~= entries@);
}

fn collect_empty_dirs<'a, T>(entries: &'a Vec<Entry<T>>, found: &mut Vec<&'a T>)
    ensures
        spec_targets(final(found)@) == spec_targets(old(found)@) + spec_empty_dirs(entries@),
    decreases entries,
{
    let mut i: usize = 0;
    assert(spec_targets(found@) + spec_empty_dirs(entries@.take(0)) =~= spec_targets(found@));
    while i < entries.len()
        invariant
            i <= entries.len(),
            spec_targets(found@) == spec_targets(old(found)@) + spec_empty_dirs(
                entries@.take(i as int),
            ),
        decreases entries.len() - i,
    {
        let ghost before = spec_targets(found@);
        proof {
            assert(entries@.take(i + 1).drop_last() =~= entries@.take(i as int));
            assert(entries@.take(i + 1).last() == entries@[i as int]);
        }
        match &entries[i] {
            Entry::File { .. } => {
                assert(spec_targets(found@) =~= before + Seq::<T>::empty());
            },
            Entry::Directory { tag, children } => {
                if children.len() == 0 {
                    found.push(tag);
                    assert(spec_targets(found@) =~= before + seq![*tag]);
                } else {
                    collect_empty_dirs(children, found);
                }
            },
        }
        assert(spec_targets(found@) =~= before + spec_empty_dirs_of(entries@[i as int]));
        assert(spec_targets(old(found)@) + spec_empty_dirs(entries@.take(i as int))
            + spec_empty_dirs_of(entries@[i as int]) =~= spec_targets(old(found)@)
            + spec_empty_dirs(entries@.take(i + 1)));
        i += 1;
    }
    assert(entries@.take(entries.len() as int) =~= entries@);
}

/// The files to copy below a directory whose entries are `entries`: every
/// entry that is not a directory and whose name is not an artifact's, found
/// by descending into every directory, in the order in which the walk meets
/// them. What comes back are the tags of those entries.
pub fn get_files_in_directory<'a, T>(entries: &'a Vec<Entry<T>>) -> (files: Vec<&'a T>)
    ensures
        spec_targets(files@) == spec_files(entries@),
{
    let mut files: Vec<&'a T> = Vec::new();
    assert(spec_targets(files@) =~= Seq::<T>::empty());
    collect_files(entries, &mut files);
    assert(Seq::<T>::empty() + spec_files(entries@) =~= spec_files(entries@));
    files
}

/// The directories without entries below a directory whose entries are
/// `entries`, in the order in which the walk meets them. They are recreated
/// at the destination, where no file would bring them about.
pub fn get_empty_dirs<'a, T>(entries: &'a Vec<Entry<T>>) -> (dirs: Vec<&'a T>)
    ensures
        spec_targets(dirs@) == spec_empty_dirs(entries@),
{
    let mut dirs: Vec<&'a T> = Vec::new();
    assert(spec_targets(dirs@) =~= Seq::<T>::empty());
    collect_empty_dirs(entries, &mut dirs);
    assert(Seq::<T>::empty() + spec_empty_dirs(entries@) =~= spec_empty_dirs(entries@));
    dirs
}

/// Whether a file that is copied and carries `tag` stands among the entries
/// or anywhere below them.
pub open spec fn spec_holds_file<T>(entries: Seq<Entry<T>>, tag: T) -> bool
    decreases entries, 1int,
{
    exists|i: int| 0 <= i < entries.len() && spec_is_file_in(#[trigger] entries[i], tag)
}

/// Whether the entry is a file that is copied and carries `tag`, or a
/// directory with such a file anywhere below it.
pub open spec fn spec_is_file_in<T>(entry: Entry<T>, tag: T) -> bool
    decreases entry, 0int,
{
    match entry {
        Entry::File { name, tag: own } => spec_is_listed(name) && own == tag,
        Entry::Directory { children, .. } => spec_holds_file(children@, tag),
    }
}

/// The number of files that are copied among the entries and below them.
pub open spec fn spec_count_files<T>(entries: Seq<Entry<T>>) -> nat
    decreases entries, 1int,
{
    if entries.len() == 0 {
        0
    } else {
        spec_count_files(entries.drop_last()) + spec_count_files_of(entries.last())
    }
}

/// The number of files that are copied for which one entry stands.
pub open spec fn spec_count_files_of<T>(entry: Entry<T>) -> nat
    decreases entry, 0int,
{
    match entry {
        Entry::File { name, .. } => if spec_is_listed(name) {
            1
        } else {
            0
        },
        Entry::Directory { children, .. } => spec_count_files(children@),
    }
}

/// The walk is complete and lists nothing else: a tag is among the files
/// exactly when a file that is copied carries it, at whatever depth; and the
/// walk lists as many files as there are files that are copied, so none is
/// listed twice.
pub proof fn lemma_walk_is_complete<T>(entries: Seq<Entry<T>>, tag: T)
    ensures
        spec_files(entries).contains(tag) <==> spec_holds_file(entries, tag),
        spec_files(entries).len() == spec_count_files(entries),
    decreases entries, 1int,
{
    if entries.len() > 0 {
        let head = entries.drop_last();
        let last = entries.last();
        lemma_walk_is_complete(head, tag);
        lemma_walk_of_entry_is_complete(last, tag);
        let whole = spec_files(head) + spec_files_of(last);
        if spec_files(entries).contains(tag) {
            let k = choose|k: int| 0 <= k < whole.len() && whole[k] == tag;
            if k < spec_files(head).len() {
                assert(spec_files(head)[k] == tag);
                let i = choose|i: int| 0 <= i < head.len() && spec_is_file_in(#[trigger] head[i], tag);
                assert(entries[i] == head[i]);
            } else {
                assert(spec_files_of(last)[k - spec_files(head).len()] == tag);
                assert(spec_is_file_in(entries[entries.len() - 1], tag));
            }
        }
        if spec_holds_file(entries, tag) {
            let i = choose|i: int|
                0 <= i < entries.len() && spec_is_file_in(#[trigger] entries[i], tag);
            if i < head.len() {
                assert(head[i] == entries[i]);
                assert(spec_holds_file(head, tag));
                let k = choose|k: int| 0 <= k < spec_files(head).len() && spec_files(head)[k] == tag;
                assert(whole[k] == tag);
            } else {
                let k = choose|k: int|
                    0 <= k < spec_files_of(last).len() && spec_files_of(last)[k] == tag;
                assert(whole[spec_files(head).len() + k] == tag);
            }
        }
    }
}

/// The same of one entry.
pub proof fn lemma_walk_of_entry_is_complete<T>(entry: Entry<T>, tag: T)
    ensures
        spec_files_of(entry).contains(tag) <==> spec_is_file_in(entry, tag),
        spec_files_of(entry).len() == spec_count_files_of(entry),
    decreases entry, 0int,
{
    match entry {
        Entry::File { name, tag: own } => {
            if spec_is_listed(name) {
                assert(seq![own][0] == own);
            }
        },
        Entry::Directory { children, .. } => {
            lemma_walk_is_complete(children@, tag);
        },
    }
}

} // verus!
