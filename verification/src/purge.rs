//! Extract & Purge: the checks that must pass before a ZIP entry's
//! compressed bytes are released from the archive, and the decisions the
//! purge makes while it waits for space.

use vstd::prelude::*;

use crate::archive::{ArchiveEntry, EntryKind};
use crate::engine::ExtractionRoute;
use crate::errors::{EngineError, EngineResult};
use crate::session::ExtractionMode;
use crate::text::{decimal_string, decimal_text, hex8_string, hex_text};

verus! {

broadcast use vstd::string::group_string_axioms;

// ---------------------------------------------------------------------------
// CRC-32 of an extracted entry (crc32fast)
// ---------------------------------------------------------------------------

#[verifier::external_type_specification]
#[verifier::external_body]
pub struct ExHasher(crc32fast::Hasher);

/// The bytes a `crc32fast::Hasher` has been fed since it was created.
pub uninterp spec fn hasher_input(h: crc32fast::Hasher) -> Seq<u8>;

/// The reflected CRC-32 (IEEE 802.3) register after `n` more bits: each bit
/// shifts the register right, adding the polynomial `0xEDB88320` when the
/// bit shifted out is set.
pub open spec fn crc32_shift(c: u32, n: nat) -> u32
    decreases n,
{
    if n == 0 {
        c
    } else {
        let next = if c & 1u32 == 1u32 {
            (c >> 1u32) ^ 0xEDB8_8320u32
        } else {
            c >> 1u32
        };
        crc32_shift(next, (n - 1) as nat)
    }
}

/// The CRC-32 register after `data`, starting from all ones.
pub open spec fn crc32_register(data: Seq<u8>) -> u32
    decreases data.len(),
{
    if data.len() == 0 {
        0xFFFF_FFFFu32
    } else {
        crc32_shift(crc32_register(data.drop_last()) ^ (data.last() as u32), 8)
    }
}

/// The CRC-32 (IEEE) checksum of `data`: the final register, inverted.
pub open spec fn crc32_of(data: Seq<u8>) -> u32 {
    crc32_register(data) ^ 0xFFFF_FFFFu32
}

/// Calls `crc32fast::Hasher::new`; the contract claims that the new hasher
/// has been fed nothing.
#[verifier::external_body]
fn hasher_new() -> (h: crc32fast::Hasher)
    ensures
        hasher_input(h) == Seq::<u8>::empty(),
{
    crc32fast::Hasher::new()
}

/// Calls `crc32fast::Hasher::update`; the contract claims that the hasher
/// has then been fed `data` after what it was fed before.
#[verifier::external_body]
fn hasher_update(h: &mut crc32fast::Hasher, data: &[u8])
    ensures
        hasher_input(*final(h)) == hasher_input(*old(h)) + data@,
{
    h.update(data);
}

/// Calls `crc32fast::Hasher::finalize`; the contract claims that the result
/// is the CRC-32 (IEEE) checksum of everything the hasher was fed.
#[verifier::external_body]
fn hasher_finalize(h: crc32fast::Hasher) -> (r: u32)
    ensures
        r == crc32_of(hasher_input(h)),
{
    h.finalize()
}

/// The running CRC-32 of an entry being written.
pub struct EntryChecksum {
    hasher: crc32fast::Hasher,
}

impl EntryChecksum {
    /// The bytes counted so far.
    pub closed spec fn bytes(&self) -> Seq<u8> {
        hasher_input(self.hasher)
    }

    /// A checksum over no bytes yet.
    pub fn new() -> (r: Self)
        ensures
            r.bytes() == Seq::<u8>::empty(),
    {
        EntryChecksum { hasher: hasher_new() }
    }

    /// Counts `data` after the bytes counted so far.
    pub fn update(&mut self, data: &[u8])
        ensures
            final(self).bytes() == old(self).bytes() + data@,
    {
        hasher_update(&mut self.hasher, data);
    }

    /// The CRC-32 of every byte counted.
    pub fn finalize(self) -> (r: u32)
        ensures
            r == crc32_of(self.bytes()),
    {
        hasher_finalize(self.hasher)
    }
}

// ---------------------------------------------------------------------------
// Verifying an extracted entry
// ---------------------------------------------------------------------------

/// The detail of a size mismatch.
pub open spec fn size_mismatch_detail(expected: u64, got: u64) -> Seq<char> {
    "Size mismatch: expected "@ + decimal_text(expected as nat) + " bytes, got "@ + decimal_text(
        got as nat,
    )
}

/// The detail of a checksum mismatch.
pub open spec fn crc_mismatch_detail(expected: u32, got: u32) -> Seq<char> {
    "CRC32 mismatch: expected "@ + hex_text(expected as nat, 8) + ", got "@ + hex_text(got as nat, 8)
}

/// An entry's size is confirmed when it wrote as many bytes as the archive
/// declares, or the archive declares none.
pub open spec fn size_confirmed(declared: u64, written: u64) -> bool {
    written == declared || declared == 0
}

/// An entry's checksum is confirmed when it matches the one the archive
/// declares, or the archive declares none.
pub open spec fn crc_confirmed(declared: u32, computed: u32) -> bool {
    declared == 0 || computed == declared
}

/// Checks an entry that was written before its compressed bytes are
/// released: `written_len` bytes with checksum `computed_crc32`, against
/// the size the manifest records and the checksum `expected_crc32` the
/// archive declares. The size is checked first.
pub fn verify_extracted_entry(
    entry: &ArchiveEntry,
    written_len: u64,
    expected_crc32: u32,
    computed_crc32: u32,
) -> (r: EngineResult<()>)
    ensures
        !size_confirmed(entry.uncompressed_size, written_len) ==> (r matches Err(
            EngineError::CorruptEntry { path, detail },
        ) && path@ == entry.path@ && detail@ == size_mismatch_detail(
            entry.uncompressed_size,
            written_len,
        )),
        size_confirmed(entry.uncompressed_size, written_len) && !crc_confirmed(
            expected_crc32,
            computed_crc32,
        ) ==> (r matches Err(EngineError::CorruptEntry { path, detail }) && path@ == entry.path@
            && detail@ == crc_mismatch_detail(expected_crc32, computed_crc32)),
        size_confirmed(entry.uncompressed_size, written_len) && crc_confirmed(
            expected_crc32,
            computed_crc32,
        ) ==> r is Ok,
{
    if written_len != entry.uncompressed_size && entry.uncompressed_size > 0 {
        let mut detail = String::from_str("Size mismatch: expected ");
        let expected = decimal_string(entry.uncompressed_size);
        detail.append(expected.as_str());
        detail.append(" bytes, got ");
        let got = decimal_string(written_len);
        detail.append(got.as_str());
        return Err(EngineError::CorruptEntry { path: entry.path.clone(), detail });
    }
    if expected_crc32 != 0 && computed_crc32 != expected_crc32 {
        let mut detail = String::from_str("CRC32 mismatch: expected ");
        let expected = hex8_string(expected_crc32);
        detail.append(expected.as_str());
        detail.append(", got ");
        let got = hex8_string(computed_crc32);
        detail.append(got.as_str());
        return Err(EngineError::CorruptEntry { path: entry.path.clone(), detail });
    }
    Ok(())
}

// ---------------------------------------------------------------------------
// Purge decisions
// ---------------------------------------------------------------------------

/// The files of `entries`, in order: the entries a ZIP purge extracts.
pub fn file_entries(entries: &[ArchiveEntry]) -> (r: Vec<ArchiveEntry>)
    ensures
        r@ == entries@.filter(|e: ArchiveEntry| e.kind == EntryKind::File),
{
    let mut kept: Vec<ArchiveEntry> = Vec::new();
    let mut i: usize = 0;
    while i < entries.len()
        invariant
            i <= entries.len(),
            kept@ == entries@.take(i as int).filter(|e: ArchiveEntry| e.kind == EntryKind::File),
        decreases entries.len() - i,
    {
        assert(entries@.take(i + 1).drop_last() =~= entries@.take(i as int));
        proof {
            reveal(Seq::filter);
        }
        if entries[i].kind == EntryKind::File {
            kept.push(entries[i].clone());
        }
        i += 1;
    }
    assert(entries@.take(entries.len() as int) =~= entries@);
    kept
}

/// What a purge paused for low space does on finding its session in a mode.
#[derive(Debug)]
pub enum LowSpaceWait {
    /// The user resumed: go on with the entry.
    Resume,
    /// Stop with this error.
    Stop(EngineError),
    /// Wait and look again.
    KeepWaiting,
}

/// What a purge paused for low space does on finding its session in
/// `mode`: it goes on once running again, stops when cancelled, and keeps
/// waiting otherwise.
pub fn low_space_wait(mode: ExtractionMode) -> (r: LowSpaceWait)
    ensures
        mode == ExtractionMode::Running ==> r is Resume,
        mode == ExtractionMode::Cancelled ==> (r matches LowSpaceWait::Stop(e) && e matches EngineError::Archive(m) && m@ == "Extraction cancelled."@),
        mode != ExtractionMode::Running && mode != ExtractionMode::Cancelled ==> r is KeepWaiting,
{
    match mode {
        ExtractionMode::Running => LowSpaceWait::Resume,
        ExtractionMode::Cancelled => LowSpaceWait::Stop(
            EngineError::Archive(String::from_str("Extraction cancelled.")),
        ),
        _ => LowSpaceWait::KeepWaiting,
    }
}

/// Whether the compressed bytes of an entry are to be released from the
/// archive: an entry with no compressed bytes counts as released already.
pub fn needs_hole_punch(compressed_size: u64) -> (r: bool)
    ensures
        r == (compressed_size > 0),
{
    compressed_size > 0
}

/// What becomes of an entry of a ZIP purge once it has been written to its
/// partial file.
#[derive(Debug)]
pub enum PurgeAction {
    /// The entry failed its checks: its partial file is discarded, the
    /// error is reported, and nothing is released from the archive.
    Discard(EngineError),
    /// The entry is moved into place, then its `length` compressed bytes at
    /// `offset` in the archive are released.
    Release { offset: u64, length: u64 },
    /// The entry is moved into place; it has no compressed bytes to release.
    AlreadyReleased,
}

/// Decides the fate of a written ZIP entry: `written_len` bytes with
/// checksum `computed_crc32`, against the size the manifest records and the
/// checksum `expected_crc32` the archive declares; `data_start` and
/// `compressed_size` are where the entry's compressed bytes begin in the
/// archive and how many there are, as the ZIP reader reports them for the
/// entry it extracted.
///
/// Compressed bytes are released only for an entry that passed both checks,
/// and then exactly the entry's own compressed bytes.
pub fn purge_entry_step(
    entry: &ArchiveEntry,
    written_len: u64,
    expected_crc32: u32,
    computed_crc32: u32,
    data_start: u64,
    compressed_size: u64,
) -> (r: PurgeAction)
    ensures
        !size_confirmed(entry.uncompressed_size, written_len) ==> (r matches PurgeAction::Discard(
            EngineError::CorruptEntry { path, detail },
        ) && path@ == entry.path@ && detail@ == size_mismatch_detail(
            entry.uncompressed_size,
            written_len,
        )),
        size_confirmed(entry.uncompressed_size, written_len) && !crc_confirmed(
            expected_crc32,
            computed_crc32,
        ) ==> (r matches PurgeAction::Discard(EngineError::CorruptEntry { path, detail })
            && path@ == entry.path@ && detail@ == crc_mismatch_detail(expected_crc32, computed_crc32)),
        size_confirmed(entry.uncompressed_size, written_len) && crc_confirmed(
            expected_crc32,
            computed_crc32,
        ) && compressed_size > 0 ==> r == (PurgeAction::Release {
            offset: data_start,
            length: compressed_size,
        }),
        size_confirmed(entry.uncompressed_size, written_len) && crc_confirmed(
            expected_crc32,
            computed_crc32,
        ) && compressed_size == 0 ==> r is AlreadyReleased,
{
    match verify_extracted_entry(entry, written_len, expected_crc32, computed_crc32) {
        Err(e) => PurgeAction::Discard(e),
        Ok(()) => {
            if needs_hole_punch(compressed_size) {
                PurgeAction::Release { offset: data_start, length: compressed_size }
            } else {
                PurgeAction::AlreadyReleased
            }
        },
    }
}

/// What follows the extraction of a session.
#[derive(Debug)]
pub enum FinishAction {
    /// The extraction failed with this error; the archive stays.
    Fail(EngineError),
    /// The extraction succeeded and the archive stays.
    KeepArchive,
    /// The extraction succeeded and the archive is deleted.
    DeleteArchive,
}

/// What follows an extraction along `route` that ended with `outcome`: the
/// archive is deleted only after a purge whose extraction succeeded.
pub fn finish_extraction(route: ExtractionRoute, outcome: EngineResult<()>) -> (r: FinishAction)
    ensures
        outcome matches Err(e) ==> (r matches FinishAction::Fail(f) && f == e),
        outcome is Ok && route == ExtractionRoute::Standard ==> r is KeepArchive,
        outcome is Ok && route != ExtractionRoute::Standard ==> r is DeleteArchive,
{
    match outcome {
        Err(e) => FinishAction::Fail(e),
        Ok(()) => match route {
            ExtractionRoute::Standard => FinishAction::KeepArchive,
            _ => FinishAction::DeleteArchive,
        },
    }
}

/// An entry passes the size check exactly when it wrote as many bytes as
/// the archive declares for it, or the archive declares no size: any other
/// length, larger or smaller, is a size mismatch. Likewise it passes the
/// checksum check exactly when the computed CRC-32 equals the declared one,
/// or none is declared.
pub proof fn lemma_entry_checks_are_exact(
    declared_size: u64,
    written_len: u64,
    declared_crc32: u32,
    computed_crc32: u32,
)
    ensures
        declared_size != 0 && written_len != declared_size ==> !size_confirmed(
            declared_size,
            written_len,
        ),
        written_len == declared_size ==> size_confirmed(declared_size, written_len),
        declared_size == 0 ==> size_confirmed(declared_size, written_len),
        declared_crc32 != 0 && computed_crc32 != declared_crc32 ==> !crc_confirmed(
            declared_crc32,
            computed_crc32,
        ),
        computed_crc32 == declared_crc32 ==> crc_confirmed(declared_crc32, computed_crc32),
        declared_crc32 == 0 ==> crc_confirmed(declared_crc32, computed_crc32),
{
}

} // verus!
