//! The directory scanner: classifies the entries of one directory, drops
//! what the player cannot use, and puts the rest in display order.

use crate::order::{is_stable_sort, sorted, stable_sort, Ranked};
use crate::text::{
    bytes_le, bytes_precede, extension, extension_of, lemma_bytes_le_total,
    lemma_bytes_le_transitive, lowercase_of, same_text, to_lowercase,
};
use vstd::prelude::*;
use vstd::string::StringSliceAdditionalSpecFns;

verus! {

/// What a directory entry is to the player.
#[derive(Clone, Copy, Debug, PartialEq, Eq, Structural)]
pub enum FileType {
    Directory,
    AudioFile,
    Other,
}

/// One line of the file browser.
#[derive(Clone, Debug, PartialEq, Eq)]
pub struct BrowserItem {
    pub path: String,
    pub name: String,
    pub file_type: FileType,
}

/// One child of a directory, as it was read: its full path, its file name,
/// and whether it is a directory.
#[derive(Clone, Debug, PartialEq, Eq)]
pub struct Entry {
    pub path: String,
    pub name: String,
    pub is_dir: bool,
}

/// The extensions of the audio formats that the player recognises, in lower
/// case.
pub open spec fn is_audio_extension(ext: Seq<char>) -> bool {
    ext == "mp3"@ || ext == "wav"@ || ext == "flac"@ || ext == "ogg"@
}

/// A file name whose extension, whatever its case, is that of an audio format.
pub open spec fn is_audio_name(name: Seq<char>) -> bool {
    match extension_of(name) {
        Some(ext) => is_audio_extension(lowercase_of(ext)),
        None => false,
    }
}

/// Directories are `Directory`, files with an audio extension `AudioFile`,
/// everything else `Other`.
pub open spec fn file_type_of(name: Seq<char>, is_dir: bool) -> FileType {
    if is_dir {
        FileType::Directory
    } else if is_audio_name(name) {
        FileType::AudioFile
    } else {
        FileType::Other
    }
}

/// The key by which names are ordered: the bytes of the lower-cased name.
pub open spec fn sort_key(name: Seq<char>) -> Seq<u8> {
    vstd::utf8::encode_utf8(lowercase_of(name))
}

/// Decides whether a lower-cased extension is that of an audio format.
pub fn has_audio_extension(ext: &str) -> (r: bool)
    ensures
        r == is_audio_extension(ext@),
{
    same_text(ext, "mp3") || same_text(ext, "wav") || same_text(ext, "flac") || same_text(
        ext,
        "ogg",
    )
}

/// Decides whether a file name has an audio extension.
pub fn has_audio_name(name: &str) -> (r: bool)
    ensures
        r == is_audio_name(name@),
{
    match extension(name) {
        Some(ext) => {
            let lower = to_lowercase(ext);
            has_audio_extension(lower.as_str())
        },
        None => false,
    }
}

/// Classifies one directory entry.
pub fn classify(name: &str, is_dir: bool) -> (file_type: FileType)
    ensures
        file_type == file_type_of(name@, is_dir),
{
    if is_dir {
        FileType::Directory
    } else if has_audio_name(name) {
        FileType::AudioFile
    } else {
        FileType::Other
    }
}

impl Ranked for BrowserItem {
    /// Directories come before everything else; within each group the
    /// lower-cased names decide.
    open spec fn rank_le(&self, other: &Self) -> bool {
        let a_dir = self.file_type == FileType::Directory;
        let b_dir = other.file_type == FileType::Directory;
        if a_dir != b_dir {
            a_dir
        } else {
            bytes_le(sort_key(self.name@), sort_key(other.name@))
        }
    }

    proof fn lemma_rank_total(a: &Self, b: &Self) {
        lemma_bytes_le_total(sort_key(a.name@), sort_key(b.name@));
    }

    proof fn lemma_rank_transitive(a: &Self, b: &Self, c: &Self) {
        let a_dir = a.file_type == FileType::Directory;
        let b_dir = b.file_type == FileType::Directory;
        let c_dir = c.file_type == FileType::Directory;
        if a_dir == b_dir && b_dir == c_dir {
            lemma_bytes_le_transitive(sort_key(a.name@), sort_key(b.name@), sort_key(c.name@));
        }
    }

    fn precedes(&self, other: &Self) -> (r: bool) {
        let a_dir = self.file_type == FileType::Directory;
        let b_dir = other.file_type == FileType::Directory;
        if a_dir != b_dir {
            a_dir
        } else {
            let a = to_lowercase(self.name.as_str());
            let b = to_lowercase(other.name.as_str());
            bytes_precede(a.as_str().as_bytes(), b.as_str().as_bytes())
        }
    }
}

impl Ranked for String {
    /// Paths are ordered as strings are: byte by byte.
    open spec fn rank_le(&self, other: &Self) -> bool {
        bytes_le(vstd::utf8::encode_utf8(self@), vstd::utf8::encode_utf8(other@))
    }

    proof fn lemma_rank_total(a: &Self, b: &Self) {
        lemma_bytes_le_total(vstd::utf8::encode_utf8(a@), vstd::utf8::encode_utf8(b@));
    }

    proof fn lemma_rank_transitive(a: &Self, b: &Self, c: &Self) {
        lemma_bytes_le_transitive(
            vstd::utf8::encode_utf8(a@),
            vstd::utf8::encode_utf8(b@),
            vstd::utf8::encode_utf8(c@),
        );
    }

    fn precedes(&self, other: &Self) -> (r: bool) {
        bytes_precede(self.as_str().as_bytes(), other.as_str().as_bytes())
    }
}

/// The browser item that stands for a directory entry.
pub open spec fn item_of(e: Entry) -> BrowserItem {
    BrowserItem { path: e.path, name: e.name, file_type: file_type_of(e.name@, e.is_dir) }
}

/// The entries that the browser shows, as items, in the order in which the
/// directory was read.
pub open spec fn shown(entries: Seq<Entry>) -> Seq<BrowserItem> {
    entries.map_values(|e: Entry| item_of(e)).filter(
        |i: BrowserItem| i.file_type != FileType::Other,
    )
}

/// Two items stand in display order: a directory is not behind a file, and
/// of two directories, as of two files, the one whose lower-cased name comes
/// first is in front.
pub open spec fn in_display_order(front: BrowserItem, behind: BrowserItem) -> bool {
    &&& behind.file_type == FileType::Directory ==> front.file_type == FileType::Directory
    &&& front.file_type == behind.file_type ==> bytes_le(
        sort_key(front.name@),
        sort_key(behind.name@),
    )
}

/// What every listing of the browser satisfies: it holds no `Other` entry,
/// and its items stand in display order.
pub open spec fn is_listing(items: Seq<BrowserItem>) -> bool {
    &&& forall|i: int| 0 <= i < items.len() ==> (#[trigger] items[i]).file_type != FileType::Other
    &&& forall|i: int, j: int|
        0 <= i < j < items.len() ==> #[trigger] in_display_order(items[i], items[j])
}

/// A sorted sequence of items without `Other` entries is a listing.
pub proof fn lemma_sorted_is_listing(items: Seq<BrowserItem>)
    requires
        sorted(items),
        forall|i: int| 0 <= i < items.len() ==> (#[trigger] items[i]).file_type != FileType::Other,
    ensures
        is_listing(items),
{
    assert forall|i: int, j: int| 0 <= i < j < items.len() implies #[trigger] in_display_order(
        items[i],
        items[j],
    ) by {
        assert(items[i].rank_le(&items[j]));
    }
}

/// Turns the entries of a directory into the browser's listing: `Other`
/// entries are dropped, directories come first, names ascend without regard
/// to case, and entries that the order holds equal stay as they were read.
pub fn scan(entries: &Vec<Entry>) -> (items: Vec<BrowserItem>)
    ensures
        is_listing(items@),
        is_stable_sort(items@, shown(entries@)),
{
    let mut kept: Vec<BrowserItem> = Vec::new();
    let mut i: usize = 0;
    proof {
        assert(entries@.take(0) =~= Seq::<Entry>::empty());
        reveal(Seq::filter);
        assert(shown(entries@.take(0)) =~= kept@);
    }
    while i < entries.len()
        invariant
            i <= entries@.len(),
            kept@ == shown(entries@.take(i as int)),
        decreases entries@.len() - i,
    {
        let e = &entries[i];
        let file_type = classify(e.name.as_str(), e.is_dir);
        proof {
            let before = entries@.take(i as int);
            assert(entries@.take(i + 1) =~= before.push(*e));
            let f = |e: Entry| item_of(e);
            assert(before.push(*e).map_values(f) =~= before.map_values(f).push(item_of(*e)));
            before.map_values(f).lemma_filter_push(
                item_of(*e),
                |i: BrowserItem| i.file_type != FileType::Other,
            );
        }
        if file_type != FileType::Other {
            kept.push(BrowserItem { path: e.path.clone(), name: e.name.clone(), file_type });
        }
        i = i + 1;
    }
    proof {
        assert(entries@.take(entries@.len() as int) =~= entries@);
    }
    let ghost unsorted = kept@;
    let items = stable_sort(kept);
    proof {
        let mapped = entries@.map_values(|e: Entry| item_of(e));
        let keep = |i: BrowserItem| i.file_type != FileType::Other;
        assert forall|i: int| 0 <= i < items@.len() implies (#[trigger] items@[i]).file_type
            != FileType::Other by {
            vstd::seq_lib::to_multiset_contains(items@, items@[i]);
            vstd::seq_lib::to_multiset_contains(unsorted, items@[i]);
            assert(items@.contains(items@[i]));
            let j = choose|j: int| 0 <= j < unsorted.len() && unsorted[j] == items@[i];
            mapped.lemma_filter_pred(keep, j);
        }
        lemma_sorted_is_listing(items@);
    }
    items
}

/// An entry that is an audio file: no directory, and with an audio name.
pub open spec fn is_audio_file(e: Entry) -> bool {
    !e.is_dir && is_audio_name(e.name@)
}

/// The paths of the audio files among the entries, in the order in which
/// the directory was read. Directories are left out whatever their name.
pub open spec fn audio_paths(entries: Seq<Entry>) -> Seq<String> {
    entries.filter(|e: Entry| is_audio_file(e)).map_values(|e: Entry| e.path)
}

/// The audio files among the entries of a folder, by path, in the order of
/// their paths. Subdirectories are ignored, also those with an audio name.
pub fn audio_files(entries: &Vec<Entry>) -> (paths: Vec<String>)
    ensures
        is_stable_sort(paths@, audio_paths(entries@)),
{
    let mut kept: Vec<String> = Vec::new();
    let mut i: usize = 0;
    proof {
        assert(entries@.take(0) =~= Seq::<Entry>::empty());
        reveal(Seq::filter);
        assert(audio_paths(entries@.take(0)) =~= kept@);
    }
    while i < entries.len()
        invariant
            i <= entries@.len(),
            kept@ == audio_paths(entries@.take(i as int)),
        decreases entries@.len() - i,
    {
        let e = &entries[i];
        let audio = !e.is_dir && has_audio_name(e.name.as_str());
        proof {
            let before = entries@.take(i as int);
            let p = |e: Entry| is_audio_file(e);
            let f = |e: Entry| e.path;
            assert(entries@.take(i + 1) =~= before.push(*e));
            before.lemma_filter_push(*e, p);
            assert(before.filter(p).push(*e).map_values(f) =~= before.filter(p).map_values(
                f,
            ).push(e.path));
        }
        if audio {
            kept.push(e.path.clone());
        }
        i = i + 1;
    }
    proof {
        assert(entries@.take(entries@.len() as int) =~= entries@);
    }
    stable_sort(kept)
}

} // verus!
