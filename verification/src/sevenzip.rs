//! The bundled 7-Zip command-line helper: where it lives, what it is asked
//! to do, and how its answers are read.

use vstd::prelude::*;
use vstd::utf8::{decode_utf8, valid_utf8};

use crate::archive::{ArchiveEntry, ArchiveEntryView, EntryKind};
use crate::errors::{EngineError, EngineResult};
use crate::paths::{join_path, path_join};
use crate::text::{
    chars_are_blank, chars_of, concat2, concat3, contains_char, contains_seq, is_blank, lines_of,
    lowercase_chars, ascii_lowercase, line_views, parse_u64, parse_u64_chars, seq_eq, split_lines, split_once,
    split_once_chars, string_from_chars, trim, trim_chars, contains_chars, lemma_split_key_value,
    is_white_space,
};

verus! {

broadcast use {vstd::string::group_string_axioms, vstd::slice::group_slice_axioms};

// ---------------------------------------------------------------------------
// Reading the technical listing (`7za l -slt -ba`)
// ---------------------------------------------------------------------------

/// What the listing reader has gathered after some lines.
pub struct ListingState {
    /// The entries completed so far.
    pub entries: Seq<ArchiveEntryView>,
    /// The `Path` of the block being read.
    pub path: Option<Seq<char>>,
    /// The `Size` of the block being read.
    pub size: u64,
    /// The `Packed Size` of the block being read.
    pub packed_size: u64,
    /// The `Attributes` of the block being read.
    pub attributes: Seq<char>,
}

/// The reader's state before any line.
pub open spec fn listing_start() -> ListingState {
    ListingState {
        entries: Seq::empty(),
        path: None,
        size: 0,
        packed_size: 0,
        attributes: Seq::empty(),
    }
}

/// A `Size`-like value: the number it holds, 0 when it holds none.
pub open spec fn size_value(value: Seq<char>) -> u64 {
    match parse_u64(value) {
        Some(n) => n,
        None => 0,
    }
}

/// The entry that a block with path `p` and the given fields describes;
/// attributes holding `D` mark a directory.
pub open spec fn listed_entry(p: Seq<char>, size: u64, packed_size: u64, attributes: Seq<char>) -> ArchiveEntryView {
    ArchiveEntryView {
        path: p,
        compressed_size: packed_size,
        uncompressed_size: size,
        kind: if attributes.contains('D') {
            EntryKind::Directory
        } else {
            EntryKind::File
        },
    }
}

/// The reader's state after one more line.
///
/// A blank line closes the current block: a block with a non-empty `Path`
/// becomes an entry, and the fields start over. Any other line of the form
/// `key = value` sets the field its key names; other lines change nothing.
pub open spec fn listing_step(st: ListingState, line: Seq<char>) -> ListingState {
    if is_blank(line) {
        ListingState {
            entries: match st.path {
                Some(p) => if p.len() > 0 {
                    st.entries.push(listed_entry(p, st.size, st.packed_size, st.attributes))
                } else {
                    st.entries
                },
                None => st.entries,
            },
            path: None,
            size: 0,
            packed_size: 0,
            attributes: Seq::empty(),
        }
    } else {
        match split_once(line, " = "@) {
            Some((key, value)) => if key == "Path"@ {
                ListingState { path: Some(value), ..st }
            } else if key == "Size"@ {
                ListingState { size: size_value(value), ..st }
            } else if key == "Packed Size"@ {
                ListingState { packed_size: size_value(value), ..st }
            } else if key == "Attributes"@ {
                ListingState { attributes: value, ..st }
            } else {
                st
            },
            None => st,
        }
    }
}

/// The reader's state after the given lines.
pub open spec fn listing_after(lines: Seq<Seq<char>>) -> ListingState
    decreases lines.len(),
{
    if lines.len() == 0 {
        listing_start()
    } else {
        listing_step(listing_after(lines.drop_last()), lines.last())
    }
}

/// The entries that a technical listing describes: its lines are read in
/// order, followed by one blank line that closes the last block.
pub open spec fn listed_entries(output: Seq<char>) -> Seq<ArchiveEntryView> {
    listing_after(lines_of(output).push(Seq::empty())).entries
}

/// Each field line of a block sets its own field and nothing else:
/// `Path = v` sets the path to `v`, `Attributes = v` the attributes to `v`,
/// and `Size = v` and `Packed Size = v` set the size and the packed size
/// to the number `v` holds, or to 0 when it holds none.
pub proof fn lemma_field_lines_set_their_fields(st: ListingState, value: Seq<char>)
    ensures
        listing_step(st, "Path = "@ + value) == (ListingState { path: Some(value), ..st }),
        listing_step(st, "Attributes = "@ + value) == (ListingState { attributes: value, ..st }),
        parse_u64(value) is Some ==> listing_step(st, "Size = "@ + value) == (ListingState {
            size: parse_u64(value).unwrap(),
            ..st
        }),
        parse_u64(value) is Some ==> listing_step(st, "Packed Size = "@ + value) == (ListingState {
            packed_size: parse_u64(value).unwrap(),
            ..st
        }),
        parse_u64(value) is None ==> listing_step(st, "Size = "@ + value) == (ListingState {
            size: 0,
            ..st
        }),
        parse_u64(value) is None ==> listing_step(st, "Packed Size = "@ + value) == (ListingState {
            packed_size: 0,
            ..st
        }),
{
    lemma_path_line(st, value);
    lemma_attributes_line(st, value);
    lemma_size_line(st, value);
    lemma_packed_size_line(st, value);
}

/// The line `key = value`, for a non-empty key without `=` that does not
/// begin with white space, is no blank line and splits into key and value.
proof fn lemma_key_line(key: Seq<char>, line: Seq<char>, value: Seq<char>)
    requires
        line == key + " = "@ + value,
        key.len() > 0,
        !is_white_space(key[0]),
        forall|j: int| 0 <= j < key.len() ==> key[j] != '=',
    ensures
        !is_blank(line),
        split_once(line, " = "@) == Some((key, value)),
{
    assert(line[0] == key[0]);
    assert(!key.contains('='));
    lemma_split_key_value(key, value);
}

proof fn lemma_path_line(st: ListingState, value: Seq<char>)
    ensures
        listing_step(st, "Path = "@ + value) == (ListingState { path: Some(value), ..st }),
{
    reveal_strlit("Path");
    reveal_strlit(" = ");
    reveal_strlit("Path = ");
    let line = "Path = "@ + value;
    assert(line =~= "Path"@ + " = "@ + value);
    lemma_key_line("Path"@, line, value);
}

proof fn lemma_attributes_line(st: ListingState, value: Seq<char>)
    ensures
        listing_step(st, "Attributes = "@ + value) == (ListingState { attributes: value, ..st }),
{
    reveal_strlit("Path");
    reveal_strlit("Size");
    reveal_strlit("Packed Size");
    reveal_strlit("Attributes");
    reveal_strlit(" = ");
    reveal_strlit("Attributes = ");
    let line = "Attributes = "@ + value;
    assert(line =~= "Attributes"@ + " = "@ + value);
    lemma_key_line("Attributes"@, line, value);
    assert("Attributes"@ != "Path"@ && "Attributes"@ != "Packed Size"@);
    assert("Attributes"@[0] != "Size"@[0]);
}

proof fn lemma_size_line(st: ListingState, value: Seq<char>)
    ensures
        listing_step(st, "Size = "@ + value) == (ListingState { size: size_value(value), ..st }),
{
    reveal_strlit("Path");
    reveal_strlit("Size");
    reveal_strlit(" = ");
    reveal_strlit("Size = ");
    let line = "Size = "@ + value;
    assert(line =~= "Size"@ + " = "@ + value);
    lemma_key_line("Size"@, line, value);
    assert("Size"@[0] != "Path"@[0]);
}

proof fn lemma_packed_size_line(st: ListingState, value: Seq<char>)
    ensures
        listing_step(st, "Packed Size = "@ + value) == (ListingState {
            packed_size: size_value(value),
            ..st
        }),
{
    reveal_strlit("Path");
    reveal_strlit("Size");
    reveal_strlit("Packed Size");
    reveal_strlit(" = ");
    reveal_strlit("Packed Size = ");
    let line = "Packed Size = "@ + value;
    assert(line =~= "Packed Size"@ + " = "@ + value);
    lemma_key_line("Packed Size"@, line, value);
    assert("Packed Size"@.len() != "Path"@.len());
    assert("Packed Size"@.len() != "Size"@.len());
}

/// A blank line closes the block being read. A block with a non-empty path
/// becomes an entry with that path, the block's `Size` as its size, its
/// `Packed Size` as its compressed size, and the directory kind exactly
/// when its attributes hold `D`; a block without one adds no entry. Every
/// field then starts over.
pub proof fn lemma_blank_line_closes_block(st: ListingState, line: Seq<char>)
    requires
        is_blank(line),
    ensures
        listing_step(st, line).path is None,
        listing_step(st, line).size == 0,
        listing_step(st, line).packed_size == 0,
        listing_step(st, line).attributes.len() == 0,
        st.path is Some && st.path.unwrap().len() > 0 ==> listing_step(st, line).entries
            == st.entries.push(
            (ArchiveEntryView {
                path: st.path.unwrap(),
                compressed_size: st.packed_size,
                uncompressed_size: st.size,
                kind: (if st.attributes.contains('D') {
                    EntryKind::Directory
                } else {
                    EntryKind::File
                }),
            }),
        ),
        !(st.path is Some && st.path.unwrap().len() > 0) ==> listing_step(st, line).entries
            == st.entries,
{
}

/// An entry read from a block holding the line `Packed Size = v`, with `v`
/// the decimal number `n`, has compressed size `n`; its path and size are
/// the block's.
pub proof fn lemma_packed_size_becomes_compressed_size(
    st: ListingState,
    value: Seq<char>,
    n: u64,
    blank: Seq<char>,
)
    requires
        st.path is Some,
        st.path.unwrap().len() > 0,
        parse_u64(value) == Some(n),
        is_blank(blank),
    ensures
        ({
            let after = listing_step(listing_step(st, "Packed Size = "@ + value), blank);
            &&& after.entries.len() == st.entries.len() + 1
            &&& after.entries.last().compressed_size == n
            &&& after.entries.last().path == st.path.unwrap()
            &&& after.entries.last().uncompressed_size == st.size
            &&& after.entries.drop_last() == st.entries
        }),
{
    lemma_field_lines_set_their_fields(st, value);
    let mid = listing_step(st, "Packed Size = "@ + value);
    lemma_blank_line_closes_block(mid, blank);
    assert(listing_step(mid, blank).entries.drop_last() =~= st.entries);
}

/// The view of an optional character vector.
pub open spec fn opt_chars(o: Option<Vec<char>>) -> Option<Seq<char>> {
    match o {
        Some(v) => Some(v@),
        None => None,
    }
}

/// The views of a vector of entries.
pub open spec fn entry_views(v: Seq<ArchiveEntry>) -> Seq<ArchiveEntryView> {
    v.map_values(|e: ArchiveEntry| e@)
}

/// Reads the entries out of a 7-Zip technical listing.
///
/// Fails with an archive error when the listing describes no entry.
pub fn parse_list_output(output: &str) -> (r: EngineResult<Vec<ArchiveEntry>>)
    ensures
        listed_entries(output@).len() == 0 ==> (r matches Err(EngineError::Archive(m)) && m@
            == "RAR inspection did not return any extractable entries."@),
        listed_entries(output@).len() > 0 ==> (r matches Ok(v) && entry_views(v@) == listed_entries(
            output@,
        )),
{
    let text = chars_of(output);
    let mut lines = split_lines(text.as_slice());
    let ghost first = line_views(lines@);
    lines.push(Vec::new());
    let ghost all = line_views(lines@);
    assert(all =~= first.push(Seq::empty()));
    let sep = chars_of(" = ");
    let key_path = chars_of("Path");
    let key_size = chars_of("Size");
    let key_packed = chars_of("Packed Size");
    let key_attributes = chars_of("Attributes");
    let mut entries: Vec<ArchiveEntry> = Vec::new();
    let mut path: Option<Vec<char>> = None;
    let mut size: u64 = 0;
    let mut packed_size: u64 = 0;
    let mut attributes: Vec<char> = Vec::new();
    let mut i: usize = 0;
    assert(all.take(0) =~= Seq::<Seq<char>>::empty());
    assert(entry_views(entries@) =~= Seq::<ArchiveEntryView>::empty());
    assert(attributes@ =~= Seq::<char>::empty());
    while i < lines.len()
        invariant
            i <= lines.len(),
            all == line_views(lines@),
            all == lines_of(output@).push(Seq::empty()),
            sep@ == " = "@,
            key_path@ == "Path"@,
            key_size@ == "Size"@,
            key_packed@ == "Packed Size"@,
            key_attributes@ == "Attributes"@,
            listing_after(all.take(i as int)) == (ListingState {
                entries: entry_views(entries@),
                path: opt_chars(path),
                size,
                packed_size,
                attributes: attributes@,
            }),
        decreases lines.len() - i,
    {
        let line = &lines[i];
        let ghost st = listing_after(all.take(i as int));
        assert(all.take(i + 1).drop_last() =~= all.take(i as int));
        assert(all.take(i + 1).last() == line@);
        if chars_are_blank(line.as_slice()) {
            match &path {
                Some(p) => {
                    if p.len() > 0 {
                        let kind = if contains_char(attributes.as_slice(), 'D') {
                            EntryKind::Directory
                        } else {
                            EntryKind::File
                        };
                        let e = ArchiveEntry {
                            path: string_from_chars(p.as_slice()),
                            compressed_size: packed_size,
                            uncompressed_size: size,
                            kind,
                        };
                        let ghost before = entries@;
                        entries.push(e);
                        assert(entry_views(entries@) =~= entry_views(before).push(
                            listed_entry(p@, size, packed_size, attributes@),
                        ));
                    }
                },
                None => {},
            }
            path = None;
            size = 0;
            packed_size = 0;
            attributes = Vec::new();
            assert(attributes@ =~= Seq::<char>::empty());
        } else {
            match split_once_chars(line.as_slice(), sep.as_slice()) {
                Some((key, value)) => {
                    if seq_eq(key.as_slice(), key_path.as_slice()) {
                        path = Some(value);
                    } else if seq_eq(key.as_slice(), key_size.as_slice()) {
                        size = match parse_u64_chars(value.as_slice()) {
                            Some(n) => n,
                            None => 0,
                        };
                    } else if seq_eq(key.as_slice(), key_packed.as_slice()) {
                        packed_size = match parse_u64_chars(value.as_slice()) {
                            Some(n) => n,
                            None => 0,
                        };
                    } else if seq_eq(key.as_slice(), key_attributes.as_slice()) {
                        attributes = value;
                    }
                },
                None => {},
            }
        }
        i += 1;
    }
    assert(all.take(lines.len() as int) =~= all);
    if entries.len() == 0 {
        Err(EngineError::Archive(String::from_str(
            "RAR inspection did not return any extractable entries.",
        )))
    } else {
        Ok(entries)
    }
}

// ---------------------------------------------------------------------------
// Helper location, arguments and failures
// ---------------------------------------------------------------------------

/// The helper bundled with a development checkout whose crate manifest lies
/// in `manifest_dir`: `../node_modules/7zip-bin/win/x64/7za.exe` from there.
pub fn bundled_helper_from_workspace(manifest_dir: &str) -> (r: String)
    ensures
        r@ == path_join(
            path_join(
                path_join(
                    path_join(path_join(path_join(manifest_dir@, ".."@), "node_modules"@), "7zip-bin"@),
                    "win"@,
                ),
                "x64"@,
            ),
            "7za.exe"@,
        ),
{
    let p = join_path(manifest_dir, "..");
    let p = join_path(p.as_str(), "node_modules");
    let p = join_path(p.as_str(), "7zip-bin");
    let p = join_path(p.as_str(), "win");
    let p = join_path(p.as_str(), "x64");
    join_path(p.as_str(), "7za.exe")
}

/// The characters that `String::from_utf8_lossy` makes of `bytes`.
pub uninterp spec fn utf8_lossy(bytes: Seq<u8>) -> Seq<char>;

/// Calls `String::from_utf8_lossy`. The contract claims that the result is
/// the named `utf8_lossy` of the bytes and, as the documentation says, that
/// valid UTF-8 is decoded unchanged; how invalid sequences are replaced is
/// left unsaid.
#[verifier::external_body]
fn lossy_text(bytes: &[u8]) -> (r: String)
    ensures
        r@ == utf8_lossy(bytes@),
        valid_utf8(bytes@) ==> r@ == decode_utf8(bytes@),
{
    String::from_utf8_lossy(bytes).into_owned()
}

/// The message for a failed helper run whose error stream reads `text`:
/// `context`, then that text, trimmed; a text that mentions a wrong
/// password or encryption is reported as a password problem, and an empty
/// one as a bare failure.
pub open spec fn helper_message_text(context: Seq<char>, text: Seq<char>) -> Seq<char> {
    let trimmed = trim(text);
    if trimmed.len() == 0 {
        context + ": 7-Zip helper exited with an error"@
    } else if contains_seq(ascii_lowercase(trimmed), "wrong password"@) || contains_seq(
        ascii_lowercase(trimmed),
        "encrypted"@,
    ) {
        context + ": password required or password is incorrect"@
    } else {
        context + ": "@ + trimmed
    }
}

/// The message for a failed helper run whose error stream holds the bytes
/// `stderr`, read as UTF-8 with invalid sequences replaced.
pub open spec fn helper_error_text(context: Seq<char>, stderr: Seq<u8>) -> Seq<char> {
    helper_message_text(context, utf8_lossy(stderr))
}

/// The message for a failed helper run whose error stream reads `text`.
pub fn helper_message(context: &str, text: &str) -> (r: String)
    ensures
        r@ == helper_message_text(context@, text@),
{
    let chars = chars_of(text);
    let trimmed = trim_chars(chars.as_slice());
    if trimmed.len() == 0 {
        return concat2(context, ": 7-Zip helper exited with an error");
    }
    let lowered = lowercase_chars(trimmed.as_slice());
    let wrong = chars_of("wrong password");
    let encrypted = chars_of("encrypted");
    if contains_chars(lowered.as_slice(), wrong.as_slice()) || contains_chars(
        lowered.as_slice(),
        encrypted.as_slice(),
    ) {
        concat2(context, ": password required or password is incorrect")
    } else {
        let text = string_from_chars(trimmed.as_slice());
        concat3(context, ": ", text.as_str())
    }
}

/// The message for a failed helper run whose error stream holds the bytes
/// `stderr`; valid UTF-8 is read as it stands.
pub fn helper_error(context: &str, stderr: &[u8]) -> (r: String)
    ensures
        r@ == helper_error_text(context@, stderr@),
        valid_utf8(stderr@) ==> r@ == helper_message_text(context@, decode_utf8(stderr@)),
{
    let message = lossy_text(stderr);
    helper_message(context, message.as_str())
}

/// The strings of a vector of strings.
pub open spec fn string_views(v: Seq<String>) -> Seq<Seq<char>> {
    v.map_values(|s: String| s@)
}

/// The arguments that ask the helper for a technical listing of
/// `archive_path`: `l -slt -ba -sccUTF-8 <archive>`.
pub fn list_arguments(archive_path: &str) -> (r: Vec<String>)
    ensures
        string_views(r@) == seq!["l"@, "-slt"@, "-ba"@, "-sccUTF-8"@, archive_path@],
{
    let mut r: Vec<String> = Vec::new();
    r.push(String::from_str("l"));
    r.push(String::from_str("-slt"));
    r.push(String::from_str("-ba"));
    r.push(String::from_str("-sccUTF-8"));
    r.push(String::from_str(archive_path));
    assert(string_views(r@) =~= seq!["l"@, "-slt"@, "-ba"@, "-sccUTF-8"@, archive_path@]);
    r
}

/// The arguments that ask the helper to extract one entry into
/// `output_dir`, overwriting, keeping the entry's own path:
/// `x -y -bd -bb0 -aoa -sccUTF-8 -spd -o<dir> <archive> -- <entry>`.
pub fn extract_arguments(output_dir: &str, archive_path: &str, entry_path: &str) -> (r: Vec<String>)
    ensures
        string_views(r@) == seq![
            "x"@,
            "-y"@,
            "-bd"@,
            "-bb0"@,
            "-aoa"@,
            "-sccUTF-8"@,
            "-spd"@,
            "-o"@ + output_dir@,
            archive_path@,
            "--"@,
            entry_path@,
        ],
{
    let mut r: Vec<String> = Vec::new();
    r.push(String::from_str("x"));
    r.push(String::from_str("-y"));
    r.push(String::from_str("-bd"));
    r.push(String::from_str("-bb0"));
    r.push(String::from_str("-aoa"));
    r.push(String::from_str("-sccUTF-8"));
    r.push(String::from_str("-spd"));
    r.push(concat2("-o", output_dir));
    r.push(String::from_str(archive_path));
    r.push(String::from_str("--"));
    r.push(String::from_str(entry_path));
    assert(string_views(r@) =~= seq![
        "x"@,
        "-y"@,
        "-bd"@,
        "-bb0"@,
        "-aoa"@,
        "-sccUTF-8"@,
        "-spd"@,
        "-o"@ + output_dir@,
        archive_path@,
        "--"@,
        entry_path@,
    ]);
    r
}

/// The entries of an archive from a finished listing run: a run that
/// failed reports the helper's error, one that succeeded is read as a
/// technical listing.
pub fn listing_result(success: bool, stdout: &[u8], stderr: &[u8]) -> (r: EngineResult<Vec<ArchiveEntry>>)
    ensures
        !success ==> (r matches Err(EngineError::Archive(m)) && m@ == helper_error_text(
            "RAR inspection"@,
            stderr@,
        )),
        success && listed_entries(utf8_lossy(stdout@)).len() == 0 ==> (r matches Err(
            EngineError::Archive(m),
        ) && m@ == "RAR inspection did not return any extractable entries."@),
        success && listed_entries(utf8_lossy(stdout@)).len() > 0 ==> (r matches Ok(v) && entry_views(
            v@,
        ) == listed_entries(utf8_lossy(stdout@))),
{
    if !success {
        return Err(EngineError::Archive(helper_error("RAR inspection", stderr)));
    }
    let text = lossy_text(stdout);
    parse_list_output(text.as_str())
}

/// The outcome of a finished run that extracted the entry `entry_path`.
pub fn extraction_result(success: bool, entry_path: &str, stderr: &[u8]) -> (r: EngineResult<()>)
    ensures
        success ==> r is Ok,
        !success ==> (r matches Err(EngineError::Archive(m)) && m@ == helper_error_text(
            "RAR extraction failed for "@ + entry_path@,
            stderr@,
        )),
{
    if success {
        return Ok(());
    }
    let context = concat2("RAR extraction failed for ", entry_path);
    Err(EngineError::Archive(helper_error(context.as_str(), stderr)))
}

/// Every entry the reader completes has a non-empty path.
pub proof fn lemma_listed_paths_nonempty(lines: Seq<Seq<char>>)
    ensures
        forall|k: int|
            0 <= k < listing_after(lines).entries.len() ==> (#[trigger] listing_after(
                lines,
            ).entries[k]).path.len() > 0,
    decreases lines.len(),
{
    if lines.len() > 0 {
        lemma_listed_paths_nonempty(lines.drop_last());
    }
}

} // verus!
