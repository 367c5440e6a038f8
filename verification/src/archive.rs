//! Archive formats, archive entries and manifests, format detection from an
//! archive's first bytes, and the rules that keep entry paths inside the
//! output directory.

use vstd::prelude::*;

use crate::errors::{EngineError, EngineResult};
use crate::paths::{
    is_absolute_path, join_path, extension_of, parts_of, path_has_prefix, path_extension,
    path_is_absolute, path_join, path_parts, path_starts_with, PathPart,
};
use crate::storage::DiskSpaceInfo;
use crate::text::{ascii_lowercase, chars_of, lowercase_chars, seq_eq, string_from_chars};

verus! {

broadcast use {vstd::string::group_string_axioms, vstd::slice::group_slice_axioms};

/// The archive formats the engine recognises.
#[derive(Clone, Copy, Debug, PartialEq, Eq, Structural)]
pub enum ArchiveFormat {
    Zip,
    Rar,
    SevenZip,
    Tar,
    TarGz,
    TarBz2,
    TarXz,
}

/// The display label of a format.
pub open spec fn format_label(f: ArchiveFormat) -> Seq<char> {
    match f {
        ArchiveFormat::Zip => "ZIP"@,
        ArchiveFormat::Rar => "RAR"@,
        ArchiveFormat::SevenZip => "7Z"@,
        ArchiveFormat::Tar => "TAR"@,
        ArchiveFormat::TarGz => "TAR.GZ"@,
        ArchiveFormat::TarBz2 => "TAR.BZ2"@,
        ArchiveFormat::TarXz => "TAR.XZ"@,
    }
}

impl ArchiveFormat {
    /// The display label of this format, such as `TAR.GZ`.
    pub fn label(self) -> (r: &'static str)
        ensures
            r@ == format_label(self),
    {
        match self {
            ArchiveFormat::Zip => "ZIP",
            ArchiveFormat::Rar => "RAR",
            ArchiveFormat::SevenZip => "7Z",
            ArchiveFormat::Tar => "TAR",
            ArchiveFormat::TarGz => "TAR.GZ",
            ArchiveFormat::TarBz2 => "TAR.BZ2",
            ArchiveFormat::TarXz => "TAR.XZ",
        }
    }
}

/// What an archive entry holds.
#[derive(Clone, Copy, Debug, PartialEq, Eq, Structural)]
pub enum EntryKind {
    File,
    Directory,
    Symlink,
    Other,
}

impl EntryKind {
    /// Files and directories are extracted; links and other entries are not.
    pub open spec fn spec_is_extractable(self) -> bool {
        self == EntryKind::File || self == EntryKind::Directory
    }

    /// Whether entries of this kind are extracted.
    pub fn is_extractable(self) -> (r: bool)
        ensures
            r == self.spec_is_extractable(),
    {
        match self {
            EntryKind::File | EntryKind::Directory => true,
            _ => false,
        }
    }
}

/// One entry of an archive.
#[derive(Debug)]
pub struct ArchiveEntry {
    pub path: String,
    pub compressed_size: u64,
    pub uncompressed_size: u64,
    pub kind: EntryKind,
}

/// An archive entry with its path as a character sequence.
pub struct ArchiveEntryView {
    pub path: Seq<char>,
    pub compressed_size: u64,
    pub uncompressed_size: u64,
    pub kind: EntryKind,
}

impl View for ArchiveEntry {
    type V = ArchiveEntryView;

    open spec fn view(&self) -> ArchiveEntryView {
        ArchiveEntryView {
            path: self.path@,
            compressed_size: self.compressed_size,
            uncompressed_size: self.uncompressed_size,
            kind: self.kind,
        }
    }
}

impl Clone for ArchiveEntry {
    fn clone(&self) -> (r: Self)
        ensures
            r == *self,
    {
        ArchiveEntry {
            path: self.path.clone(),
            compressed_size: self.compressed_size,
            uncompressed_size: self.uncompressed_size,
            kind: self.kind,
        }
    }
}

/// A copy of every entry of `entries`, in order.
pub fn clone_entries(entries: &[ArchiveEntry]) -> (r: Vec<ArchiveEntry>)
    ensures
        r@ == entries@,
{
    let mut r: Vec<ArchiveEntry> = Vec::new();
    let mut i: usize = 0;
    while i < entries.len()
        invariant
            i <= entries.len(),
            r@ == entries@.take(i as int),
        decreases entries.len() - i,
    {
        r.push(entries[i].clone());
        i += 1;
        assert(r@ =~= entries@.take(i as int));
    }
    assert(entries@.take(entries.len() as int) =~= entries@);
    r
}

/// What the inspection of an archive found, and the session it opened.
#[derive(Debug)]
pub struct ArchiveManifest {
    pub session_id: String,
    pub archive_path: String,
    pub output_dir: String,
    pub format: ArchiveFormat,
    pub file_count: usize,
    pub directory_count: usize,
    pub compressed_size: u64,
    pub total_uncompressed_size: u64,
    pub disk: DiskSpaceInfo,
    pub recommended_space_saver: bool,
    pub tight_space: bool,
    pub entries: Vec<ArchiveEntry>,
}

/// A manifest with its entries as a sequence.
pub struct ManifestView {
    pub session_id: String,
    pub archive_path: String,
    pub output_dir: String,
    pub format: ArchiveFormat,
    pub file_count: usize,
    pub directory_count: usize,
    pub compressed_size: u64,
    pub total_uncompressed_size: u64,
    pub disk: DiskSpaceInfo,
    pub recommended_space_saver: bool,
    pub tight_space: bool,
    pub entries: Seq<ArchiveEntry>,
}

impl View for ArchiveManifest {
    type V = ManifestView;

    open spec fn view(&self) -> ManifestView {
        ManifestView {
            session_id: self.session_id,
            archive_path: self.archive_path,
            output_dir: self.output_dir,
            format: self.format,
            file_count: self.file_count,
            directory_count: self.directory_count,
            compressed_size: self.compressed_size,
            total_uncompressed_size: self.total_uncompressed_size,
            disk: self.disk,
            recommended_space_saver: self.recommended_space_saver,
            tight_space: self.tight_space,
            entries: self.entries@,
        }
    }
}

impl Clone for ArchiveManifest {
    fn clone(&self) -> (r: Self)
        ensures
            r@ == self@,
    {
        ArchiveManifest {
            session_id: self.session_id.clone(),
            archive_path: self.archive_path.clone(),
            output_dir: self.output_dir.clone(),
            format: self.format,
            file_count: self.file_count,
            directory_count: self.directory_count,
            compressed_size: self.compressed_size,
            total_uncompressed_size: self.total_uncompressed_size,
            disk: self.disk.clone(),
            recommended_space_saver: self.recommended_space_saver,
            tight_space: self.tight_space,
            entries: clone_entries(self.entries.as_slice()),
        }
    }
}

// ---------------------------------------------------------------------------
// Format detection
// ---------------------------------------------------------------------------

/// `h` begins with the bytes `p`.
pub open spec fn bytes_start_with(h: Seq<u8>, p: Seq<u8>) -> bool {
    p.len() <= h.len() && h.take(p.len() as int) == p
}

/// The format that the first bytes `h` of an archive announce, if any.
pub open spec fn format_from_header(h: Seq<u8>) -> Option<ArchiveFormat> {
    if bytes_start_with(h, seq![0x50u8, 0x4b, 0x03, 0x04]) || bytes_start_with(h, seq![0x50u8, 0x4b, 0x05, 0x06]) {
        Some(ArchiveFormat::Zip)
    } else if bytes_start_with(h, seq![0x52u8, 0x61, 0x72, 0x21, 0x1a, 0x07, 0x00])
        || bytes_start_with(h, seq![0x52u8, 0x61, 0x72, 0x21, 0x1a, 0x07, 0x01, 0x00]) {
        Some(ArchiveFormat::Rar)
    } else if bytes_start_with(h, seq![0x37u8, 0x7a, 0xbc, 0xaf, 0x27, 0x1c]) {
        Some(ArchiveFormat::SevenZip)
    } else if bytes_start_with(h, seq![0x1fu8, 0x8b]) {
        Some(ArchiveFormat::TarGz)
    } else if bytes_start_with(h, seq![0x42u8, 0x5a, 0x68]) {
        Some(ArchiveFormat::TarBz2)
    } else if bytes_start_with(h, seq![0xfdu8, 0x37, 0x7a, 0x58, 0x5a, 0x00]) {
        Some(ArchiveFormat::TarXz)
    } else if h.len() > 262 && h.subrange(257, 262) == seq![0x75u8, 0x73, 0x74, 0x61, 0x72] {
        Some(ArchiveFormat::Tar)
    } else {
        None
    }
}

/// The magic bytes name the format: a header opening with a ZIP local-file
/// or end-of-directory signature (`PK 03 04`, `PK 05 06`) is a ZIP; one
/// opening with the RAR4 (`Rar! 1A 07 00`) or RAR5 (`Rar! 1A 07 01 00`)
/// signature is a RAR; `37 7A BC AF 27 1C` is a 7z; `1F 8B` a gzip-compressed
/// TAR; `BZh` a bzip2-compressed TAR; `FD 37 7A 58 5A 00` an xz-compressed
/// TAR; and a header of more than 262 bytes with `ustar` at offset 257, and
/// none of the first bytes above, a TAR.
pub proof fn lemma_magic_bytes_name_the_format(h: Seq<u8>)
    ensures
        h.len() >= 4 && h[0] == 0x50 && h[1] == 0x4b && ((h[2] == 0x03 && h[3] == 0x04) || (h[2]
            == 0x05 && h[3] == 0x06)) ==> format_from_header(h) == Some(ArchiveFormat::Zip),
        h.len() >= 7 && h[0] == 0x52 && h[1] == 0x61 && h[2] == 0x72 && h[3] == 0x21 && h[4]
            == 0x1a && h[5] == 0x07 && h[6] == 0x00 ==> format_from_header(h) == Some(
            ArchiveFormat::Rar,
        ),
        h.len() >= 8 && h[0] == 0x52 && h[1] == 0x61 && h[2] == 0x72 && h[3] == 0x21 && h[4]
            == 0x1a && h[5] == 0x07 && h[6] == 0x01 && h[7] == 0x00 ==> format_from_header(h)
            == Some(ArchiveFormat::Rar),
        h.len() >= 6 && h[0] == 0x37 && h[1] == 0x7a && h[2] == 0xbc && h[3] == 0xaf && h[4]
            == 0x27 && h[5] == 0x1c ==> format_from_header(h) == Some(ArchiveFormat::SevenZip),
        h.len() >= 2 && h[0] == 0x1f && h[1] == 0x8b ==> format_from_header(h) == Some(
            ArchiveFormat::TarGz,
        ),
        h.len() >= 3 && h[0] == 0x42 && h[1] == 0x5a && h[2] == 0x68 ==> format_from_header(h)
            == Some(ArchiveFormat::TarBz2),
        h.len() >= 6 && h[0] == 0xfd && h[1] == 0x37 && h[2] == 0x7a && h[3] == 0x58 && h[4]
            == 0x5a && h[5] == 0x00 ==> format_from_header(h) == Some(ArchiveFormat::TarXz),
        h.len() > 262 && h[0] != 0x50 && h[0] != 0x52 && h[0] != 0x37 && h[0] != 0x1f && h[0]
            != 0x42 && h[0] != 0xfd && h[257] == 0x75 && h[258] == 0x73 && h[259] == 0x74 && h[260]
            == 0x61 && h[261] == 0x72 ==> format_from_header(h) == Some(ArchiveFormat::Tar),
        h.len() > 0 && h[0] != 0x50 && h[0] != 0x52 && h[0] != 0x37 && h[0] != 0x1f && h[0]
            != 0x42 && h[0] != 0xfd && (h.len() <= 262 || h[257] != 0x75) ==> format_from_header(h)
            is None,
{
    if h.len() >= 2 {
        assert(h.take(2)[0] == h[0]);
    }
    if h.len() >= 3 {
        assert(h.take(3)[0] == h[0]);
    }
    if h.len() >= 4 {
        assert(h.take(4)[0] == h[0]);
        assert(h.take(4)[2] == h[2]);
        assert(h.take(4)[3] == h[3]);
        if h[0] == 0x50 && h[1] == 0x4b && h[2] == 0x03 && h[3] == 0x04 {
            assert(h.take(4) =~= seq![0x50u8, 0x4b, 0x03, 0x04]);
        }
        if h[0] == 0x50 && h[1] == 0x4b && h[2] == 0x05 && h[3] == 0x06 {
            assert(h.take(4) =~= seq![0x50u8, 0x4b, 0x05, 0x06]);
        }
    }
    if h.len() >= 6 {
        assert(h.take(6)[0] == h[0]);
        if h[0] == 0x37 && h[1] == 0x7a && h[2] == 0xbc && h[3] == 0xaf && h[4] == 0x27 && h[5]
            == 0x1c {
            assert(h.take(6) =~= seq![0x37u8, 0x7a, 0xbc, 0xaf, 0x27, 0x1c]);
        }
        if h[0] == 0xfd && h[1] == 0x37 && h[2] == 0x7a && h[3] == 0x58 && h[4] == 0x5a && h[5]
            == 0x00 {
            assert(h.take(6) =~= seq![0xfdu8, 0x37, 0x7a, 0x58, 0x5a, 0x00]);
        }
    }
    if h.len() >= 7 {
        assert(h.take(7)[0] == h[0]);
        assert(h.take(7)[6] == h[6]);
        if h[0] == 0x52 && h[1] == 0x61 && h[2] == 0x72 && h[3] == 0x21 && h[4] == 0x1a && h[5]
            == 0x07 && h[6] == 0x00 {
            assert(h.take(7) =~= seq![0x52u8, 0x61, 0x72, 0x21, 0x1a, 0x07, 0x00]);
        }
    }
    if h.len() >= 8 {
        assert(h.take(8)[0] == h[0]);
        if h[0] == 0x52 && h[1] == 0x61 && h[2] == 0x72 && h[3] == 0x21 && h[4] == 0x1a && h[5]
            == 0x07 && h[6] == 0x01 && h[7] == 0x00 {
            assert(h.take(8) =~= seq![0x52u8, 0x61, 0x72, 0x21, 0x1a, 0x07, 0x01, 0x00]);
        }
    }
    if h.len() >= 2 && h[0] == 0x1f && h[1] == 0x8b {
        assert(h.take(2) =~= seq![0x1fu8, 0x8b]);
    }
    if h.len() >= 3 && h[0] == 0x42 && h[1] == 0x5a && h[2] == 0x68 {
        assert(h.take(3) =~= seq![0x42u8, 0x5a, 0x68]);
    }
    if h.len() > 262 {
        assert(h.subrange(257, 262)[0] == h[257]);
        if h[257] == 0x75 && h[258] == 0x73 && h[259] == 0x74 && h[260] == 0x61 && h[261] == 0x72 {
            assert(h.subrange(257, 262) =~= seq![0x75u8, 0x73, 0x74, 0x61, 0x72]);
        }
    }
}

/// The lower-cased extension of `path`, empty when it has none.
pub open spec fn lowercase_extension(path: Seq<char>) -> Seq<char> {
    match path_extension(path) {
        Some(e) => ascii_lowercase(e),
        None => ascii_lowercase(Seq::empty()),
    }
}

/// Whether `h` begins with the bytes `p`.
fn header_starts_with(h: &[u8], p: &[u8]) -> (r: bool)
    ensures
        r == bytes_start_with(h@, p@),
{
    if p.len() > h.len() {
        return false;
    }
    let mut i: usize = 0;
    while i < p.len()
        invariant
            p.len() <= h.len(),
            i <= p.len(),
            forall|k: int| 0 <= k < i ==> h@[k] == p@[k],
        decreases p.len() - i,
    {
        if h[i] != p[i] {
            assert(h@.take(p.len() as int)[i as int] != p@[i as int]);
            return false;
        }
        i += 1;
    }
    assert(h@.take(p.len() as int) =~= p@);
    true
}

/// The format announced by the first bytes `header` of an archive.
pub fn format_from_header_bytes(header: &[u8]) -> (r: Option<ArchiveFormat>)
    ensures
        r == format_from_header(header@),
{
    let zip_local: [u8; 4] = [0x50, 0x4b, 0x03, 0x04];
    let zip_end: [u8; 4] = [0x50, 0x4b, 0x05, 0x06];
    let rar4: [u8; 7] = [0x52, 0x61, 0x72, 0x21, 0x1a, 0x07, 0x00];
    let rar5: [u8; 8] = [0x52, 0x61, 0x72, 0x21, 0x1a, 0x07, 0x01, 0x00];
    let seven: [u8; 6] = [0x37, 0x7a, 0xbc, 0xaf, 0x27, 0x1c];
    let gzip: [u8; 2] = [0x1f, 0x8b];
    let bzip: [u8; 3] = [0x42, 0x5a, 0x68];
    let xz: [u8; 6] = [0xfd, 0x37, 0x7a, 0x58, 0x5a, 0x00];
    let ustar: [u8; 5] = [0x75, 0x73, 0x74, 0x61, 0x72];
    assert(zip_local@ =~= seq![0x50u8, 0x4b, 0x03, 0x04]);
    assert(zip_end@ =~= seq![0x50u8, 0x4b, 0x05, 0x06]);
    assert(rar4@ =~= seq![0x52u8, 0x61, 0x72, 0x21, 0x1a, 0x07, 0x00]);
    assert(rar5@ =~= seq![0x52u8, 0x61, 0x72, 0x21, 0x1a, 0x07, 0x01, 0x00]);
    assert(seven@ =~= seq![0x37u8, 0x7a, 0xbc, 0xaf, 0x27, 0x1c]);
    assert(gzip@ =~= seq![0x1fu8, 0x8b]);
    assert(bzip@ =~= seq![0x42u8, 0x5a, 0x68]);
    assert(xz@ =~= seq![0xfdu8, 0x37, 0x7a, 0x58, 0x5a, 0x00]);
    assert(ustar@ =~= seq![0x75u8, 0x73, 0x74, 0x61, 0x72]);
    if header_starts_with(header, zip_local.as_slice()) || header_starts_with(header, zip_end.as_slice()) {
        Some(ArchiveFormat::Zip)
    } else if header_starts_with(header, rar4.as_slice()) || header_starts_with(header, rar5.as_slice()) {
        Some(ArchiveFormat::Rar)
    } else if header_starts_with(header, seven.as_slice()) {
        Some(ArchiveFormat::SevenZip)
    } else if header_starts_with(header, gzip.as_slice()) {
        Some(ArchiveFormat::TarGz)
    } else if header_starts_with(header, bzip.as_slice()) {
        Some(ArchiveFormat::TarBz2)
    } else if header_starts_with(header, xz.as_slice()) {
        Some(ArchiveFormat::TarXz)
    } else if header.len() > 262 && header_starts_with(
        vstd::slice::slice_subrange(header, 257, 262),
        ustar.as_slice(),
    ) {
        assert(header@.subrange(257, 262).take(5) =~= header@.subrange(257, 262));
        Some(ArchiveFormat::Tar)
    } else {
        proof {
            if header@.len() > 262 {
                assert(header@.subrange(257, 262).take(5) =~= header@.subrange(257, 262));
            }
        }
        None
    }
}

/// The format of the archive at `path` whose first bytes, as one read of up
/// to 560 bytes returned them, are `header`.
///
/// The magic bytes decide first; an archive they do not identify is a TAR
/// when its extension is `tar` in any letter case, and is otherwise refused
/// as unsupported, naming its lower-cased extension.
pub fn detect_archive_format(path: &str, header: &[u8]) -> (r: EngineResult<ArchiveFormat>)
    ensures
        match format_from_header(header@) {
            Some(f) => r == Ok::<ArchiveFormat, EngineError>(f),
            None => if lowercase_extension(path@) == "tar"@ {
                r == Ok::<ArchiveFormat, EngineError>(ArchiveFormat::Tar)
            } else {
                r matches Err(EngineError::UnsupportedFormat(e)) && e@ == lowercase_extension(path@)
            },
        },
{
    if let Some(f) = format_from_header_bytes(header) {
        return Ok(f);
    }
    let ext = match extension_of(path) {
        Some(e) => chars_of(e.as_str()),
        None => Vec::new(),
    };
    let lowered = lowercase_chars(ext.as_slice());
    let tar = chars_of("tar");
    if seq_eq(lowered.as_slice(), tar.as_slice()) {
        Ok(ArchiveFormat::Tar)
    } else {
        Err(EngineError::UnsupportedFormat(string_from_chars(lowered.as_slice())))
    }
}

// ---------------------------------------------------------------------------
// Entry paths
// ---------------------------------------------------------------------------

/// An entry path is unsafe to extract when it is absolute or holds a root,
/// a drive prefix or a `..` component.
pub open spec fn entry_path_is_unsafe(entry_path: Seq<char>) -> bool {
    path_is_absolute(entry_path) || exists|i: int|
        0 <= i < path_parts(entry_path).len() && {
            let p = #[trigger] path_parts(entry_path)[i];
            p == PathPart::ParentDir || p == PathPart::RootDir || p == PathPart::Prefix
        }
}

/// An entry path is unsafe when it is absolute or when any of its
/// components is `..`, a root or a drive prefix; a relative path made only
/// of plain names and `.` components is safe.
pub proof fn lemma_unsafe_entry_paths(p: Seq<char>, k: int)
    ensures
        path_is_absolute(p) ==> entry_path_is_unsafe(p),
        0 <= k < path_parts(p).len() && (path_parts(p)[k] == PathPart::ParentDir || path_parts(
            p,
        )[k] == PathPart::RootDir || path_parts(p)[k] == PathPart::Prefix)
            ==> entry_path_is_unsafe(p),
        !path_is_absolute(p) && (forall|m: int|
            0 <= m < path_parts(p).len() ==> #[trigger] path_parts(p)[m] == PathPart::Normal
                || path_parts(p)[m] == PathPart::CurDir) ==> !entry_path_is_unsafe(p),
{
}

/// Refuses an entry path that could escape the output directory.
pub fn validate_entry_path(entry_path: &str) -> (r: EngineResult<()>)
    ensures
        entry_path_is_unsafe(entry_path@) ==> (r matches Err(EngineError::InvalidArchivePath(p))
            && p@ == entry_path@),
        !entry_path_is_unsafe(entry_path@) ==> r is Ok,
{
    let unsafe_path = if is_absolute_path(entry_path) {
        true
    } else {
        let parts = parts_of(entry_path);
        let mut found = false;
        let mut i: usize = 0;
        while i < parts.len()
            invariant
                i <= parts.len(),
                parts@ == path_parts(entry_path@),
                found == exists|k: int|
                    0 <= k < i && {
                        let p = #[trigger] parts@[k];
                        p == PathPart::ParentDir || p == PathPart::RootDir || p == PathPart::Prefix
                    },
            decreases parts.len() - i,
        {
            let p = parts[i];
            if p == PathPart::ParentDir || p == PathPart::RootDir || p == PathPart::Prefix {
                found = true;
            }
            i += 1;
        }
        found
    };
    if unsafe_path {
        Err(EngineError::InvalidArchivePath(String::from_str(entry_path)))
    } else {
        Ok(())
    }
}

/// Where the entry `entry_path` is written under the canonical output
/// directory `base`.
///
/// Refuses, as `InvalidArchivePath`, an entry path that is absolute or holds
/// a root, a drive prefix or a `..` component; otherwise the target is
/// `base` joined with the entry path.
pub fn safe_output_path(base: &str, entry_path: &str) -> (r: EngineResult<String>)
    ensures
        entry_path_is_unsafe(entry_path@) ==> (r matches Err(EngineError::InvalidArchivePath(p))
            && p@ == entry_path@),
        !entry_path_is_unsafe(entry_path@) ==> (r matches Ok(t) && t@ == path_join(
            base@,
            entry_path@,
        )),
{
    match validate_entry_path(entry_path) {
        Err(e) => Err(e),
        Ok(()) => Ok(join_path(base, entry_path)),
    }
}

/// Confirms that the canonical parent of an entry's target lies inside the
/// canonical output directory `base`; refuses the entry otherwise.
pub fn confirm_inside_output(canonical_parent: &str, base: &str, entry_path: &str) -> (r:
    EngineResult<()>)
    ensures
        path_starts_with(canonical_parent@, base@) ==> r is Ok,
        !path_starts_with(canonical_parent@, base@) ==> (r matches Err(
            EngineError::InvalidArchivePath(p),
        ) && p@ == entry_path@),
{
    if path_has_prefix(canonical_parent, base) {
        Ok(())
    } else {
        Err(EngineError::InvalidArchivePath(String::from_str(entry_path)))
    }
}

} // verus!
