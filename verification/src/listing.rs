//! Directory entries and listings, built from what a stat of each path gave.

use crate::platform::{opt_view, views, Platform};
use crate::sorting::{
    is_stable_order, key_before, key_views, lemma_precedes_asymmetric,
    lemma_stable_order_is_permutation, precedes, reorder, stable_order, SortKey, SortKeyView,
};
use crate::text::{
    chars_equal, chars_of, count_trailing, join, lowercase, slice_of, text_before, to_lowercase,
    trailing, CharSet,
};
use vstd::prelude::*;

verus! {

/// The attribute bit that marks a file as hidden on the Windows family.
pub const FILE_ATTRIBUTE_HIDDEN: u32 = 0x2;

/// Whether an entry is hidden. On the Windows family the hidden bit of its
/// file attributes decides, and an entry whose attributes could not be read
/// is not hidden; elsewhere an entry is hidden when its name begins with a dot.
pub open spec fn hidden(platform: Platform, name: Seq<char>, attributes: Option<u32>) -> bool {
    match platform {
        Platform::Windows => match attributes {
            Some(bits) => bits & FILE_ATTRIBUTE_HIDDEN != 0,
            None => false,
        },
        _ => name.len() > 0 && name[0] == '.',
    }
}

/// Whether an entry is hidden.
pub fn is_hidden(platform: Platform, name: &str, attributes: Option<u32>) -> (r: bool)
    ensures
        r == hidden(platform, name@, attributes),
{
    match platform {
        Platform::Windows => match attributes {
            Some(bits) => bits & FILE_ATTRIBUTE_HIDDEN != 0,
            None => false,
        },
        _ => {
            let v = chars_of(name);
            v.len() > 0 && v[0] == '.'
        },
    }
}

/// The part of a file name after its last dot. There is none where the name
/// has no dot, where its only dot is its first character, and for the
/// name `..`.
pub open spec fn raw_extension(name: Seq<char>) -> Option<Seq<char>> {
    let after = trailing(name, CharSet::Except('.'));
    if name == seq!['.', '.'] || after == name.len() || after == name.len() - 1 {
        None
    } else {
        Some(name.skip(name.len() - after))
    }
}

/// The extension of a file name, in lowercase.
pub open spec fn extension_of(name: Seq<char>) -> Option<Seq<char>> {
    match raw_extension(name) {
        Some(ext) => Some(lowercase(ext)),
        None => None,
    }
}

/// The part of a file name after its last dot, as it is written.
pub fn raw_extension_of(name: &str) -> (r: Option<String>)
    ensures
        opt_view(r) == raw_extension(name@),
{
    let v = chars_of(name);
    let after = count_trailing(&v, CharSet::Except('.'));
    if (v.len() == 2 && v[0] == '.' && v[1] == '.') || after == v.len() || after == v.len() - 1 {
        assert((v.len() == 2 && v[0] == '.' && v[1] == '.') <==> name@ =~= seq!['.', '.']);
        None
    } else {
        assert(!(name@ =~= seq!['.', '.']));
        Some(slice_of(name, v.len() - after, v.len()))
    }
}

/// The extension of a file name, in lowercase: the part after its last dot.
pub fn get_extension(name: &str) -> (r: Option<String>)
    ensures
        opt_view(r) == extension_of(name@),
{
    match raw_extension_of(name) {
        Some(ext) => Some(to_lowercase(ext.as_str())),
        None => None,
    }
}

/// The media type that stands for an extension; extensions that the table
/// does not know are binary data.
pub open spec fn mime_for(ext: Seq<char>) -> Seq<char> {
    if ext == "txt"@ || ext == "text"@ {
        "text/plain"@
    } else if ext == "html"@ || ext == "htm"@ {
        "text/html"@
    } else if ext == "css"@ {
        "text/css"@
    } else if ext == "js"@ || ext == "mjs"@ {
        "text/javascript"@
    } else if ext == "json"@ {
        "application/json"@
    } else if ext == "xml"@ {
        "application/xml"@
    } else if ext == "pdf"@ {
        "application/pdf"@
    } else if ext == "zip"@ {
        "application/zip"@
    } else if ext == "tar"@ {
        "application/x-tar"@
    } else if ext == "gz"@ || ext == "gzip"@ {
        "application/gzip"@
    } else if ext == "rar"@ {
        "application/vnd.rar"@
    } else if ext == "7z"@ {
        "application/x-7z-compressed"@
    } else if ext == "png"@ {
        "image/png"@
    } else if ext == "jpg"@ || ext == "jpeg"@ {
        "image/jpeg"@
    } else if ext == "gif"@ {
        "image/gif"@
    } else if ext == "webp"@ {
        "image/webp"@
    } else if ext == "svg"@ {
        "image/svg+xml"@
    } else if ext == "ico"@ {
        "image/x-icon"@
    } else if ext == "mp3"@ {
        "audio/mpeg"@
    } else if ext == "wav"@ {
        "audio/wav"@
    } else if ext == "ogg"@ {
        "audio/ogg"@
    } else if ext == "flac"@ {
        "audio/flac"@
    } else if ext == "mp4"@ {
        "video/mp4"@
    } else if ext == "webm"@ {
        "video/webm"@
    } else if ext == "avi"@ {
        "video/x-msvideo"@
    } else if ext == "mkv"@ {
        "video/x-matroska"@
    } else if ext == "mov"@ {
        "video/quicktime"@
    } else if ext == "doc"@ {
        "application/msword"@
    } else if ext == "docx"@ {
        "application/vnd.openxmlformats-officedocument.wordprocessingml.document"@
    } else if ext == "xls"@ {
        "application/vnd.ms-excel"@
    } else if ext == "xlsx"@ {
        "application/vnd.openxmlformats-officedocument.spreadsheetml.sheet"@
    } else if ext == "ppt"@ {
        "application/vnd.ms-powerpoint"@
    } else if ext == "pptx"@ {
        "application/vnd.openxmlformats-officedocument.presentationml.presentation"@
    } else if ext == "rs"@ {
        "text/x-rust"@
    } else if ext == "ts"@ || ext == "tsx"@ {
        "text/typescript"@
    } else if ext == "vue"@ {
        "text/x-vue"@
    } else if ext == "py"@ {
        "text/x-python"@
    } else if ext == "rb"@ {
        "text/x-ruby"@
    } else if ext == "go"@ {
        "text/x-go"@
    } else if ext == "java"@ {
        "text/x-java"@
    } else if ext == "c"@ || ext == "h"@ {
        "text/x-c"@
    } else if ext == "cpp"@ || ext == "hpp"@ || ext == "cc"@ {
        "text/x-c++"@
    } else if ext == "md"@ || ext == "markdown"@ {
        "text/markdown"@
    } else if ext == "yaml"@ || ext == "yml"@ {
        "text/yaml"@
    } else if ext == "toml"@ {
        "text/x-toml"@
    } else if ext == "exe"@ || ext == "dll"@ {
        "application/x-msdownload"@
    } else if ext == "so"@ {
        "application/x-sharedlib"@
    } else {
        "application/octet-stream"@
    }
}

/// Whether `v` holds the characters of `t`.
fn is_text(v: &Vec<char>, t: &str) -> (r: bool)
    ensures
        r == (v@ == t@),
{
    let w = chars_of(t);
    chars_equal(v, &w)
}

/// The media type that stands for an extension.
fn mime_text(ext: &str) -> (r: &'static str)
    ensures
        r@ == mime_for(ext@),
{
    let ext = chars_of(ext);
    if is_text(&ext, "txt") || is_text(&ext, "text") {
        "text/plain"
    } else if is_text(&ext, "html") || is_text(&ext, "htm") {
        "text/html"
    } else if is_text(&ext, "css") {
        "text/css"
    } else if is_text(&ext, "js") || is_text(&ext, "mjs") {
        "text/javascript"
    } else if is_text(&ext, "json") {
        "application/json"
    } else if is_text(&ext, "xml") {
        "application/xml"
    } else if is_text(&ext, "pdf") {
        "application/pdf"
    } else if is_text(&ext, "zip") {
        "application/zip"
    } else if is_text(&ext, "tar") {
        "application/x-tar"
    } else if is_text(&ext, "gz") || is_text(&ext, "gzip") {
        "application/gzip"
    } else if is_text(&ext, "rar") {
        "application/vnd.rar"
    } else if is_text(&ext, "7z") {
        "application/x-7z-compressed"
    } else if is_text(&ext, "png") {
        "image/png"
    } else if is_text(&ext, "jpg") || is_text(&ext, "jpeg") {
        "image/jpeg"
    } else if is_text(&ext, "gif") {
        "image/gif"
    } else if is_text(&ext, "webp") {
        "image/webp"
    } else if is_text(&ext, "svg") {
        "image/svg+xml"
    } else if is_text(&ext, "ico") {
        "image/x-icon"
    } else if is_text(&ext, "mp3") {
        "audio/mpeg"
    } else if is_text(&ext, "wav") {
        "audio/wav"
    } else if is_text(&ext, "ogg") {
        "audio/ogg"
    } else if is_text(&ext, "flac") {
        "audio/flac"
    } else if is_text(&ext, "mp4") {
        "video/mp4"
    } else if is_text(&ext, "webm") {
        "video/webm"
    } else if is_text(&ext, "avi") {
        "video/x-msvideo"
    } else if is_text(&ext, "mkv") {
        "video/x-matroska"
    } else if is_text(&ext, "mov") {
        "video/quicktime"
    } else if is_text(&ext, "doc") {
        "application/msword"
    } else if is_text(&ext, "docx") {
        "application/vnd.openxmlformats-officedocument.wordprocessingml.document"
    } else if is_text(&ext, "xls") {
        "application/vnd.ms-excel"
    } else if is_text(&ext, "xlsx") {
        "application/vnd.openxmlformats-officedocument.spreadsheetml.sheet"
    } else if is_text(&ext, "ppt") {
        "application/vnd.ms-powerpoint"
    } else if is_text(&ext, "pptx") {
        "application/vnd.openxmlformats-officedocument.presentationml.presentation"
    } else if is_text(&ext, "rs") {
        "text/x-rust"
    } else if is_text(&ext, "ts") || is_text(&ext, "tsx") {
        "text/typescript"
    } else if is_text(&ext, "vue") {
        "text/x-vue"
    } else if is_text(&ext, "py") {
        "text/x-python"
    } else if is_text(&ext, "rb") {
        "text/x-ruby"
    } else if is_text(&ext, "go") {
        "text/x-go"
    } else if is_text(&ext, "java") {
        "text/x-java"
    } else if is_text(&ext, "c") || is_text(&ext, "h") {
        "text/x-c"
    } else if is_text(&ext, "cpp") || is_text(&ext, "hpp") || is_text(&ext, "cc") {
        "text/x-c++"
    } else if is_text(&ext, "md") || is_text(&ext, "markdown") {
        "text/markdown"
    } else if is_text(&ext, "yaml") || is_text(&ext, "yml") {
        "text/yaml"
    } else if is_text(&ext, "toml") {
        "text/x-toml"
    } else if is_text(&ext, "exe") || is_text(&ext, "dll") {
        "application/x-msdownload"
    } else if is_text(&ext, "so") {
        "application/x-sharedlib"
    } else {
        "application/octet-stream"
    }
}

/// The media type of a file with the extension given, in lowercase; none for
/// a file without extension.
pub open spec fn mime_of(extension: Option<Seq<char>>) -> Option<Seq<char>> {
    match extension {
        Some(ext) => Some(mime_for(ext)),
        None => None,
    }
}

/// The media type of a file with the extension given, in lowercase.
pub fn get_mime_type(extension: &Option<String>) -> (r: Option<String>)
    ensures
        opt_view(r) == mime_of(opt_view(*extension)),
{
    match extension {
        Some(ext) => Some(mime_text(ext.as_str()).to_owned()),
        None => None,
    }
}

/// What kind of file a path leads to, links followed.
#[derive(Clone, Copy, Debug, PartialEq, Eq, Structural)]
pub enum EntryKind {
    File,
    Directory,
    /// Neither of the two: a device, a socket, a pipe.
    Other,
}

/// What a stat of a path gave: its kind, its length in bytes and its three
/// timestamps in milliseconds since the epoch, each absent where the file
/// system does not keep it.
#[derive(Clone, Copy, Debug, PartialEq, Eq)]
pub struct EntryMetadata {
    pub kind: EntryKind,
    pub len: u64,
    pub modified: Option<u64>,
    pub accessed: Option<u64>,
    pub created: Option<u64>,
}

/// Everything that was read about one path. A part that could not be read
/// is absent.
#[derive(Clone, Debug, PartialEq, Eq)]
pub struct EntryProbe {
    /// The last component of the path, where it has one that is valid text.
    pub name: Option<String>,
    /// The normalized path, where the path is valid text.
    pub path: Option<String>,
    /// The stat of the path, links followed.
    pub metadata: Option<EntryMetadata>,
    /// Whether the path itself is a symbolic link.
    pub is_symlink: bool,
    /// The file attributes, on the Windows family.
    pub attributes: Option<u32>,
    /// For a directory that could be read, the number of its entries.
    pub child_count: Option<u32>,
}

/// The mathematical form of an `EntryProbe`.
pub struct EntryProbeView {
    pub name: Option<Seq<char>>,
    pub path: Option<Seq<char>>,
    pub metadata: Option<EntryMetadata>,
    pub is_symlink: bool,
    pub attributes: Option<u32>,
    pub child_count: Option<u32>,
}

impl View for EntryProbe {
    type V = EntryProbeView;

    open spec fn view(&self) -> EntryProbeView {
        EntryProbeView {
            name: opt_view(self.name),
            path: opt_view(self.path),
            metadata: self.metadata,
            is_symlink: self.is_symlink,
            attributes: self.attributes,
            child_count: self.child_count,
        }
    }
}

/// One entry of a directory, as it was when it was read.
#[derive(Clone, Debug, PartialEq, Eq)]
pub struct DirEntry {
    pub name: String,
    pub ext: Option<String>,
    pub path: String,
    pub size: u64,
    pub item_count: Option<u32>,
    pub modified_time: u64,
    pub accessed_time: u64,
    pub created_time: u64,
    pub mime: Option<String>,
    pub is_file: bool,
    pub is_dir: bool,
    pub is_symlink: bool,
    pub is_hidden: bool,
}

/// The mathematical form of a `DirEntry`.
pub struct DirEntryView {
    pub name: Seq<char>,
    pub ext: Option<Seq<char>>,
    pub path: Seq<char>,
    pub size: u64,
    pub item_count: Option<u32>,
    pub modified_time: u64,
    pub accessed_time: u64,
    pub created_time: u64,
    pub mime: Option<Seq<char>>,
    pub is_file: bool,
    pub is_dir: bool,
    pub is_symlink: bool,
    pub is_hidden: bool,
}

impl View for DirEntry {
    type V = DirEntryView;

    open spec fn view(&self) -> DirEntryView {
        DirEntryView {
            name: self.name@,
            ext: opt_view(self.ext),
            path: self.path@,
            size: self.size,
            item_count: self.item_count,
            modified_time: self.modified_time,
            accessed_time: self.accessed_time,
            created_time: self.created_time,
            mime: opt_view(self.mime),
            is_file: self.is_file,
            is_dir: self.is_dir,
            is_symlink: self.is_symlink,
            is_hidden: self.is_hidden,
        }
    }
}

impl DirEntryView {
    /// What holds of every entry that `read_entry` builds: it is not both a
    /// file and a directory; only a file has a size and a media type, and
    /// its media type is that of its extension; only a directory has a
    /// count of items; the extension is that of the name.
    pub open spec fn wf(self) -> bool {
        &&& !(self.is_file && self.is_dir)
        &&& !self.is_file ==> self.size == 0 && self.mime is None
        &&& self.is_file ==> self.mime == mime_of(self.ext)
        &&& !self.is_dir ==> self.item_count is None
        &&& self.ext == extension_of(self.name)
    }
}

/// A timestamp, or zero where there is none.
pub open spec fn time_or_zero(t: Option<u64>) -> u64 {
    match t {
        Some(ms) => ms,
        None => 0,
    }
}

/// The entry that a probe describes. There is none where the path could not
/// be stat'd, has no name, or is not valid text.
pub open spec fn entry_of(platform: Platform, probe: EntryProbeView) -> Option<DirEntryView> {
    if probe.metadata is None || probe.name is None || probe.path is None {
        None
    } else {
        let metadata = probe.metadata->0;
        let name = probe.name->0;
        let is_dir = metadata.kind == EntryKind::Directory;
        let is_file = metadata.kind == EntryKind::File;
        let ext = extension_of(name);
        Some(
            DirEntryView {
                name,
                ext,
                path: probe.path->0,
                size: if is_file {
                    metadata.len
                } else {
                    0
                },
                item_count: if is_dir {
                    probe.child_count
                } else {
                    None
                },
                modified_time: time_or_zero(metadata.modified),
                accessed_time: time_or_zero(metadata.accessed),
                created_time: time_or_zero(metadata.created),
                mime: if is_file {
                    mime_of(ext)
                } else {
                    None
                },
                is_file,
                is_dir,
                is_symlink: probe.is_symlink,
                is_hidden: hidden(platform, name, probe.attributes),
            },
        )
    }
}

/// A timestamp, or zero where there is none.
fn time_value(t: Option<u64>) -> (r: u64)
    ensures
        r == time_or_zero(t),
{
    match t {
        Some(ms) => ms,
        None => 0,
    }
}

/// The entry that a probe describes. A path that could not be stat'd, has no
/// name or is not valid text gives none: the caller leaves it out.
pub fn read_entry(platform: Platform, probe: EntryProbe) -> (r: Option<DirEntry>)
    ensures
        r is Some <==> probe.metadata is Some && probe.name is Some && probe.path is Some,
        r matches Some(entry) ==> entry_of(platform, probe@) == Some(entry@) && entry@.wf(),
        r is None ==> entry_of(platform, probe@) is None,
{
    let metadata = match probe.metadata {
        Some(metadata) => metadata,
        None => {
            return None;
        },
    };
    let name = match probe.name {
        Some(name) => name,
        None => {
            return None;
        },
    };
    let path = match probe.path {
        Some(path) => path,
        None => {
            return None;
        },
    };
    let is_dir = metadata.kind == EntryKind::Directory;
    let is_file = metadata.kind == EntryKind::File;
    let ext = get_extension(name.as_str());
    let mime = if is_file {
        get_mime_type(&ext)
    } else {
        None
    };
    let is_hidden = is_hidden(platform, name.as_str(), probe.attributes);
    Some(
        DirEntry {
            name,
            ext,
            path,
            size: if is_file {
                metadata.len
            } else {
                0
            },
            item_count: if is_dir {
                probe.child_count
            } else {
                None
            },
            modified_time: time_value(metadata.modified),
            accessed_time: time_value(metadata.accessed),
            created_time: time_value(metadata.created),
            mime,
            is_file,
            is_dir,
            is_symlink: probe.is_symlink,
            is_hidden,
        },
    )
}

/// For every probe, an entry that is a file or a directory is exactly one of
/// the two, and an entry of another kind is neither.
pub proof fn lemma_entry_kind(platform: Platform, probe: EntryProbeView)
    requires
        entry_of(platform, probe) is Some,
    ensures
        ({
            let entry = entry_of(platform, probe)->0;
            &&& !(entry.is_file && entry.is_dir)
            &&& probe.metadata->0.kind != EntryKind::Other ==> entry.is_file != entry.is_dir
            &&& probe.metadata->0.kind == EntryKind::Other ==> !entry.is_file && !entry.is_dir
        }),
{
}

/// Everything that was read about a directory and its immediate children.
#[derive(Clone, Debug, PartialEq, Eq)]
pub struct DirProbe {
    /// The path as the caller gave it.
    pub path: String,
    /// The same path, normalized.
    pub normalized_path: String,
    /// Whether the path exists.
    pub exists: bool,
    /// Whether it leads to a directory.
    pub is_dir: bool,
    /// The error's text, where the directory could not be opened for reading.
    pub read_error: Option<String>,
    /// One probe for each child, in the order in which they were read.
    pub children: Vec<EntryProbe>,
}

/// The mathematical form of a `DirProbe`.
pub struct DirProbeView {
    pub path: Seq<char>,
    pub normalized_path: Seq<char>,
    pub exists: bool,
    pub is_dir: bool,
    pub read_error: Option<Seq<char>>,
    pub children: Seq<EntryProbeView>,
}

impl View for DirProbe {
    type V = DirProbeView;

    open spec fn view(&self) -> DirProbeView {
        DirProbeView {
            path: self.path@,
            normalized_path: self.normalized_path@,
            exists: self.exists,
            is_dir: self.is_dir,
            read_error: opt_view(self.read_error),
            children: views(self.children@),
        }
    }
}

/// A directory's entries, directories first and each group by name without
/// regard to case, with their counts.
#[derive(Clone, Debug, PartialEq, Eq)]
pub struct DirContents {
    pub path: String,
    pub entries: Vec<DirEntry>,
    pub total_count: usize,
    pub dir_count: usize,
    pub file_count: usize,
}

/// The mathematical form of a `DirContents`.
pub struct DirContentsView {
    pub path: Seq<char>,
    pub entries: Seq<DirEntryView>,
    pub total_count: usize,
    pub dir_count: usize,
    pub file_count: usize,
}

impl View for DirContents {
    type V = DirContentsView;

    open spec fn view(&self) -> DirContentsView {
        DirContentsView {
            path: self.path@,
            entries: views(self.entries@),
            total_count: self.total_count,
            dir_count: self.dir_count,
            file_count: self.file_count,
        }
    }
}

/// The number of directories among `entries`.
pub open spec fn count_dirs(entries: Seq<DirEntryView>) -> nat
    decreases entries.len(),
{
    if entries.len() == 0 {
        0
    } else {
        count_dirs(entries.drop_last()) + if entries.last().is_dir {
            1nat
        } else {
            0nat
        }
    }
}

/// The number of files among `entries`.
pub open spec fn count_files(entries: Seq<DirEntryView>) -> nat
    decreases entries.len(),
{
    if entries.len() == 0 {
        0
    } else {
        count_files(entries.drop_last()) + if entries.last().is_file {
            1nat
        } else {
            0nat
        }
    }
}

/// What an entry is ordered by: directories come first, then the name in
/// lowercase decides.
pub open spec fn entry_key(entry: DirEntryView) -> SortKeyView {
    SortKeyView {
        rank: if entry.is_dir {
            0
        } else {
            1
        },
        text: lowercase(entry.name),
    }
}

/// Whether entry `a` must stand before entry `b`: `a` is a directory and `b`
/// is none, or both are of one group and the name of `a`, in lowercase,
/// comes first.
pub open spec fn entry_before(a: DirEntryView, b: DirEntryView) -> bool {
    key_before(entry_key(a), entry_key(b))
}

/// Whether no entry stands behind one that it must stand before.
pub open spec fn entries_in_order(entries: Seq<DirEntryView>) -> bool {
    forall|i: int, j: int|
        0 <= i < j < entries.len() ==> !entry_before(#[trigger] entries[j], #[trigger] entries[i])
}

/// Whether `order` is the stable sorting order of `unsorted` and `sorted`
/// holds its entries in that order.
pub open spec fn sorts_entries(
    order: Seq<usize>,
    sorted: Seq<DirEntryView>,
    unsorted: Seq<DirEntryView>,
) -> bool {
    &&& is_stable_order(unsorted.map_values(|e: DirEntryView| entry_key(e)), order)
    &&& sorted.len() == unsorted.len()
    &&& forall|i: int| 0 <= i < sorted.len() ==> sorted[i] == unsorted[#[trigger] order[i] as int]
}

/// Whether `sorted` holds the entries of `unsorted` in their stable sorting
/// order: the same entries, ordered by `entry_before`, those that neither
/// must stand before the other in the order they had.
pub open spec fn is_stable_sort(sorted: Seq<DirEntryView>, unsorted: Seq<DirEntryView>) -> bool {
    exists|order: Seq<usize>| sorts_entries(order, sorted, unsorted)
}

impl DirContentsView {
    /// What holds of every listing: the counts are those of its entries,
    /// the total is their sum, the entries are in order and each is
    /// well formed.
    pub open spec fn wf(self) -> bool {
        &&& self.total_count == self.dir_count + self.file_count
        &&& self.dir_count == count_dirs(self.entries)
        &&& self.file_count == count_files(self.entries)
        &&& entries_in_order(self.entries)
        &&& forall|i: int| 0 <= i < self.entries.len() ==> (#[trigger] self.entries[i]).wf()
    }
}

/// The entries that the probes describe, in the order of the probes; a probe
/// that describes none is left out.
pub open spec fn listed_entries(platform: Platform, probes: Seq<EntryProbeView>) -> Seq<
    DirEntryView,
>
    decreases probes.len(),
{
    if probes.len() == 0 {
        Seq::empty()
    } else {
        let before = listed_entries(platform, probes.drop_last());
        match entry_of(platform, probes.last()) {
            Some(entry) => before.push(entry),
            None => before,
        }
    }
}

/// Why a directory cannot be listed, if it cannot: it does not exist, it is
/// no directory, or it could not be opened.
pub open spec fn listing_error(dir: DirProbeView) -> Option<Seq<char>> {
    if !dir.exists {
        Some("Path does not exist: "@ + dir.path)
    } else if !dir.is_dir {
        Some("Path is not a directory: "@ + dir.path)
    } else {
        dir.read_error
    }
}

/// Files and directories together are no more than all entries.
proof fn lemma_counts_bounded(entries: Seq<DirEntryView>)
    requires
        forall|i: int| 0 <= i < entries.len() ==> (#[trigger] entries[i]).wf(),
    ensures
        count_dirs(entries) + count_files(entries) <= entries.len(),
    decreases entries.len(),
{
    if entries.len() > 0 {
        let rest = entries.drop_last();
        assert forall|i: int| 0 <= i < rest.len() implies (#[trigger] rest[i]).wf() by {
            assert(rest[i] == entries[i]);
        }
        lemma_counts_bounded(rest);
        assert(entries.last() == entries[entries.len() - 1]);
    }
}

/// The keys by which the entries are ordered.
fn keys_of(entries: &Vec<DirEntry>) -> (keys: Vec<SortKey>)
    ensures
        key_views(keys@) == views(entries@).map_values(|e: DirEntryView| entry_key(e)),
{
    let mut keys: Vec<SortKey> = Vec::new();
    let mut i: usize = 0;
    while i < entries.len()
        invariant
            i <= entries.len(),
            keys@.len() == i,
            forall|k: int| 0 <= k < i ==> (#[trigger] keys@[k])@ == entry_key(entries@[k]@),
        decreases entries.len() - i,
    {
        let lower = to_lowercase(entries[i].name.as_str());
        let rank: u8 = if entries[i].is_dir {
            0
        } else {
            1
        };
        keys.push(SortKey { rank, text: chars_of(lower.as_str()) });
        i += 1;
    }
    assert(key_views(keys@) =~= views(entries@).map_values(|e: DirEntryView| entry_key(e)));
    keys
}

/// The entries in their stable sorting order.
fn sort_entries(entries: Vec<DirEntry>) -> (sorted: Vec<DirEntry>)
    ensures
        is_stable_sort(views(sorted@), views(entries@)),
        entries_in_order(views(sorted@)),
{
    let keys = keys_of(&entries);
    let order = stable_order(&keys);
    let ghost unsorted = views(entries@);
    let ghost ks = unsorted.map_values(|e: DirEntryView| entry_key(e));
    proof {
        lemma_stable_order_is_permutation(ks, order@);
    }
    let ghost items = entries@;
    let sorted = reorder(entries, &order);
    proof {
        let result = views(sorted@);
        assert forall|i: int| 0 <= i < result.len() implies result[i] == unsorted[#[trigger] order@[i] as int] by {
            assert(sorted@[i] == items[order@[i] as int]);
        }
        assert(sorts_entries(order@, result, unsorted));
        assert forall|i: int, j: int| 0 <= i < j < result.len() implies !entry_before(
            #[trigger] result[j],
            #[trigger] result[i],
        ) by {
            let x = order@[i] as int;
            let y = order@[j] as int;
            assert(precedes(ks, x, y));
            lemma_precedes_asymmetric(ks, x, y);
            assert(ks[x] == entry_key(unsorted[x]));
            assert(ks[y] == entry_key(unsorted[y]));
            assert(result[i] == unsorted[x]);
            assert(result[j] == unsorted[y]);
        }
    }
    sorted
}

/// Lists a directory from what was read about it and its children.
///
/// Fails where the path does not exist, is no directory, or could not be
/// opened. Otherwise every child that could be stat'd is listed, the others
/// are left out, and the entries stand in their stable sorting order:
/// directories first, each group by name without regard to case.
pub fn read_dir(platform: Platform, dir: DirProbe) -> (r: Result<DirContents, String>)
    ensures
        match r {
            Ok(listing) => {
                &&& listing_error(dir@) is None
                &&& listing@.path == dir@.normalized_path
                &&& is_stable_sort(listing@.entries, listed_entries(platform, dir@.children))
                &&& listing@.wf()
            },
            Err(message) => listing_error(dir@) == Some(message@),
        },
{
    let ghost probes = dir@.children;
    if !dir.exists {
        return Err(join("Path does not exist: ", dir.path.as_str()));
    }
    if !dir.is_dir {
        return Err(join("Path is not a directory: ", dir.path.as_str()));
    }
    let DirProbe { path: _, normalized_path, exists: _, is_dir: _, read_error, children } = dir;
    if let Some(message) = read_error {
        return Err(message);
    }
    let ghost given = children@;
    let mut entries: Vec<DirEntry> = Vec::new();
    assert(probes.take(0) =~= Seq::empty());
    for probe in it: children
        invariant
            it.seq() == given,
            probes == views(given),
            views(entries@) == listed_entries(platform, probes.take(it.index() as int)),
            forall|i: int| 0 <= i < entries@.len() ==> (#[trigger] entries@[i])@.wf(),
    {
        let ghost k = it.index() as int;
        let ghost before = views(entries@);
        assert(probes.take(k + 1).drop_last() == probes.take(k));
        assert(probes.take(k + 1).last() == probe@);
        match read_entry(platform, probe) {
            Some(entry) => {
                entries.push(entry);
                assert(views(entries@) =~= before.push(entry@));
            },
            None => {},
        }
    }
    assert(probes.take(given.len() as int) == probes);
    let ghost listed = views(entries@);
    let ghost unsorted = entries@;
    let entries = sort_entries(entries);
    let mut dir_count: usize = 0;
    let mut file_count: usize = 0;
    let mut i: usize = 0;
    assert(views(entries@).take(0) =~= Seq::empty());
    assert forall|i: int| 0 <= i < entries@.len() implies (#[trigger] views(entries@)[i]).wf() by {
        let order = choose|order: Seq<usize>| sorts_entries(order, views(entries@), listed);
        let k = order[i] as int;
        assert(views(entries@)[i] == listed[k]);
        assert(listed[k] == unsorted[k]@);
    }
    while i < entries.len()
        invariant
            i <= entries.len(),
            dir_count == count_dirs(views(entries@).take(i as int)),
            file_count == count_files(views(entries@).take(i as int)),
            dir_count + file_count <= i,
            forall|k: int| 0 <= k < entries@.len() ==> (#[trigger] views(entries@)[k]).wf(),
        decreases entries.len() - i,
    {
        let ghost all = views(entries@);
        assert(all.take(i + 1).drop_last() == all.take(i as int));
        assert(all.take(i + 1).last() == entries@[i as int]@);
        assert(all[i as int].wf());
        if entries[i].is_dir {
            dir_count += 1;
        } else if entries[i].is_file {
            file_count += 1;
        }
        i += 1;
    }
    assert(views(entries@).take(entries@.len() as int) == views(entries@));
    Ok(
        DirContents {
            path: normalized_path,
            entries,
            total_count: dir_count + file_count,
            dir_count,
            file_count,
        },
    )
}

/// In every well-formed listing the total is the sum of directories and
/// files, which together are no more than the entries, and no entry is both
/// a file and a directory.
pub proof fn lemma_listing_counts(listing: DirContentsView)
    requires
        listing.wf(),
    ensures
        listing.total_count == listing.dir_count + listing.file_count,
        listing.dir_count + listing.file_count <= listing.entries.len(),
        forall|i: int|
            0 <= i < listing.entries.len() ==> !((#[trigger] listing.entries[i]).is_file
                && listing.entries[i].is_dir),
{
    lemma_counts_bounded(listing.entries);
    assert forall|i: int| 0 <= i < listing.entries.len() implies !((#[trigger] listing.entries[i]).is_file
        && listing.entries[i].is_dir) by {
        assert(listing.entries[i].wf());
    }
}

/// In every well-formed listing a directory stands before every entry that
/// is no directory.
pub proof fn lemma_directories_first(listing: DirContentsView, i: int, j: int)
    requires
        listing.wf(),
        0 <= i < listing.entries.len(),
        0 <= j < listing.entries.len(),
        listing.entries[i].is_dir,
        !listing.entries[j].is_dir,
    ensures
        i < j,
{
    if j < i {
        assert(!entry_before(listing.entries[i], listing.entries[j]));
    }
}

/// In every well-formed listing the names of two entries of one group, taken
/// in lowercase, do not descend.
pub proof fn lemma_names_ascend(listing: DirContentsView, i: int, j: int)
    requires
        listing.wf(),
        0 <= i < j < listing.entries.len(),
        listing.entries[i].is_dir == listing.entries[j].is_dir,
    ensures
        !text_before(lowercase(listing.entries[j].name), lowercase(listing.entries[i].name)),
{
    assert(!entry_before(listing.entries[j], listing.entries[i]));
}

} // verus!
