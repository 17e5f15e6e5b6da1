//! The worker's side of a snapshot: what it is asked to do, how much
//! there is to move, which file holds the archive, and where the entries
//! of an archive may be restored to.

use vstd::prelude::*;
use crate::text::{chars_of, push_str, string_of};

verus! {

/// The file that holds a plain archive, in the snapshot's directory.
pub const SNAPSHOT_TAR: &'static str = "snapshot.tar";

/// The file that holds a compressed archive, in the snapshot's
/// directory. Its presence marks the snapshot as compressed.
pub const SNAPSHOT_TAR_ZST: &'static str = "snapshot.tar.zst";

/// What the worker is asked to do.
#[derive(Debug)]
pub enum Commands {
    /// Archive the tree under `source_path` into the directory
    /// `snapshot_path`.
    Snapshot { compress: bool, source_path: String, snapshot_path: String },
    /// Restore the archive in the directory `snapshot_path` under
    /// `restore_path`.
    Restore { snapshot_path: String, restore_path: String },
}

/// The worker's command line, parsed.
#[derive(Debug)]
pub struct Cli {
    pub command: Commands,
}

/// The form of an archive.
#[derive(Clone, Copy, PartialEq, Eq, Structural, Debug)]
pub enum ArchiveFormat {
    /// A plain archive.
    Tar,
    /// An archive compressed as a whole.
    TarZst,
}

/// What the walk of the source tree tells of one entry.
#[derive(Clone, Copy, PartialEq, Eq, Structural, Debug)]
pub struct Entry {
    /// Whether the entry is a regular file: not a directory, and not a
    /// link, which is never followed.
    pub is_file: bool,
    /// The length of the entry in bytes.
    pub len: u64,
}

/// The bytes in the regular files among `entries`.
pub open spec fn total_size(entries: Seq<Entry>) -> int
    decreases entries.len(),
{
    if entries.len() == 0 {
        0
    } else if entries.last().is_file {
        total_size(entries.drop_last()) + entries.last().len
    } else {
        total_size(entries.drop_last())
    }
}

/// The total never shrinks as entries are added, and is not negative.
pub proof fn lemma_total_size_grows(entries: Seq<Entry>, k: int)
    requires
        0 <= k <= entries.len(),
    ensures
        0 <= total_size(entries.take(k)) <= total_size(entries),
    decreases entries.len() - k,
{
    if k < entries.len() {
        lemma_total_size_grows(entries, k + 1);
        assert(entries.take(k + 1).drop_last() == entries.take(k));
    } else {
        assert(entries.take(k) == entries);
    }
    lemma_total_size_is_natural(entries.take(k));
}

proof fn lemma_total_size_is_natural(entries: Seq<Entry>)
    ensures
        total_size(entries) >= 0,
    decreases entries.len(),
{
    if entries.len() > 0 {
        lemma_total_size_is_natural(entries.drop_last());
    }
}

/// The bytes in the regular files among `entries`: what there is to
/// move, and so the total of the progress. `None` when the number does
/// not fit.
pub fn calculate_total_size(entries: &Vec<Entry>) -> (total: Option<u64>)
    ensures
        match total {
            Some(n) => n == total_size(entries@),
            None => total_size(entries@) > u64::MAX,
        },
{
    let mut total: u64 = 0;
    let mut i: usize = 0;
    while i < entries.len()
        invariant
            i <= entries.len(),
            total == total_size(entries@.take(i as int)),
        decreases entries.len() - i,
    {
        proof {
            assert(entries@.take(i + 1).drop_last() == entries@.take(i as int));
            lemma_total_size_grows(entries@, i + 1);
        }
        if entries[i].is_file {
            if entries[i].len > u64::MAX - total {
                return None;
            }
            total = total + entries[i].len;
        }
        i += 1;
    }
    proof {
        assert(entries@.take(entries.len() as int) == entries@);
    }
    Some(total)
}

/// The file that holds an archive of this form.
pub fn archive_file(format: ArchiveFormat) -> (name: &'static str)
    ensures
        name@ == match format {
            ArchiveFormat::Tar => SNAPSHOT_TAR@,
            ArchiveFormat::TarZst => SNAPSHOT_TAR_ZST@,
        },
{
    match format {
        ArchiveFormat::Tar => SNAPSHOT_TAR,
        ArchiveFormat::TarZst => SNAPSHOT_TAR_ZST,
    }
}

/// The form of a snapshot that is, or is not, compressed.
pub open spec fn format_of(compressed: bool) -> ArchiveFormat {
    if compressed {
        ArchiveFormat::TarZst
    } else {
        ArchiveFormat::Tar
    }
}

/// The form in which a snapshot is written.
pub fn format_for(compress: bool) -> (format: ArchiveFormat)
    ensures
        format == format_of(compress),
{
    if compress {
        ArchiveFormat::TarZst
    } else {
        ArchiveFormat::Tar
    }
}

/// The form of the snapshot in a directory, told by whether the file of
/// a compressed archive is there.
pub fn probe_format(compressed_archive_exists: bool) -> (format: ArchiveFormat)
    ensures
        format == format_of(compressed_archive_exists),
{
    format_for(compressed_archive_exists)
}

/// The byte that parts the components of a path.
pub const SLASH: u8 = 0x2f;

/// The byte of which two make the component that names the parent.
pub const DOT: u8 = 0x2e;

/// Whether the path component `..` starts at `i` in `path`: two dots,
/// with the start of the path or a slash before them and the end of the
/// path or a slash after them.
pub open spec fn parent_at(path: Seq<u8>, i: int) -> bool {
    &&& 0 <= i
    &&& i + 2 <= path.len()
    &&& path[i] == DOT
    &&& path[i + 1] == DOT
    &&& (i == 0 || path[i - 1] == SLASH)
    &&& (i + 2 == path.len() || path[i + 2] == SLASH)
}

/// Whether the path of an archive entry, as bytes, could lead out of the
/// directory that it is restored under: whether it starts at the root or
/// has `..` among its components.
pub open spec fn escapes(path: Seq<u8>) -> bool {
    (path.len() > 0 && path[0] == SLASH) || exists|i: int| parent_at(path, i)
}

/// Whether the path of an archive entry stays within the directory that
/// it is restored under. The path is taken as bytes, whatever they
/// spell.
pub fn is_contained(entry_path: &[u8]) -> (contained: bool)
    ensures
        contained == !escapes(entry_path@),
{
    let path = entry_path;
    if path.len() > 0 && path[0] == SLASH {
        return false;
    }
    let mut i: usize = 0;
    while i < path.len()
        invariant
            i <= path.len(),
            path@ == entry_path@,
            forall|j: int| 0 <= j < i ==> !parent_at(path@, j),
        decreases path.len() - i,
    {
        if path.len() - i >= 2 && path[i] == DOT && path[i + 1] == DOT && (i == 0 || path[i - 1] == SLASH)
            && (path.len() - i == 2 || path[i + 2] == SLASH) {
            assert(parent_at(path@, i as int));
            return false;
        }
        i += 1;
    }
    true
}

/// The path, as bytes, of the entry `name` in the directory `directory`.
pub open spec fn entry_in(directory: Seq<u8>, name: Seq<u8>) -> Seq<u8> {
    if directory.len() == 0 {
        name
    } else if directory.last() == SLASH {
        directory + name
    } else {
        directory + seq![SLASH] + name
    }
}

/// Where to restore the entry at `entry_path`: in the directory
/// `restore_path`, or nowhere when its path could lead out of there.
/// Both paths are bytes, and the entry's are kept as they are.
pub fn restore_target(restore_path: &[u8], entry_path: &[u8]) -> (target: Option<Vec<u8>>)
    ensures
        match target {
            Some(path) => !escapes(entry_path@) && path@ == entry_in(restore_path@, entry_path@),
            None => escapes(entry_path@),
        },
{
    if !is_contained(entry_path) {
        return None;
    }
    let mut out: Vec<u8> = Vec::new();
    let mut i: usize = 0;
    while i < restore_path.len()
        invariant
            i <= restore_path.len(),
            out@ == restore_path@.take(i as int),
        decreases restore_path.len() - i,
    {
        out.push(restore_path[i]);
        i += 1;
    }
    if out.len() > 0 && out[out.len() - 1] != SLASH {
        out.push(SLASH);
    }
    let ghost before = out@;
    let mut j: usize = 0;
    while j < entry_path.len()
        invariant
            j <= entry_path.len(),
            out@ == before + entry_path@.take(j as int),
        decreases entry_path.len() - j,
    {
        out.push(entry_path[j]);
        j += 1;
    }
    Some(out)
}

/// The path of `name` in the directory `directory`.
pub open spec fn path_in(directory: Seq<char>, name: Seq<char>) -> Seq<char> {
    if directory.len() == 0 {
        name
    } else if directory.last() == '/' {
        directory + name
    } else {
        directory + seq!['/'] + name
    }
}

/// The path of `name` in the directory `directory`.
pub fn join_path(directory: &str, name: &str) -> (path: String)
    ensures
        path@ == path_in(directory@, name@),
{
    let mut out = chars_of(directory);
    if out.len() > 0 && out[out.len() - 1] != '/' {
        out.push('/');
    }
    push_str(&mut out, name);
    string_of(&out)
}

} // verus!
