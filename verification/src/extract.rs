//! The decisions an extraction makes between its reads and writes: when to
//! measure free space, when to pause for it, what the user's control of
//! the session asks for, and how much has been extracted.

use vstd::prelude::*;

use crate::constants::{DISK_CHECK_INTERVAL_BYTES, DISK_CHECK_INTERVAL_FILES, LOW_SPACE_FLOOR_BYTES};
use crate::archive::{entry_path_is_unsafe, safe_output_path, EntryKind};
use crate::errors::EngineError;
use crate::paths::{path_join, path_with_extension, with_extension};
use crate::session::ExtractionMode;

verus! {

broadcast use vstd::string::group_string_axioms;

/// `a + b`, or `u64::MAX` when that does not fit.
pub open spec fn sat_add(a: u64, b: u64) -> u64 {
    if a + b > u64::MAX {
        u64::MAX
    } else {
        (a + b) as u64
    }
}

/// `available` bytes leave room for `needed` more bytes and the low-space
/// floor.
pub open spec fn has_room(available: u64, needed: u64) -> bool {
    available >= sat_add(needed, LOW_SPACE_FLOOR_BYTES)
}

/// Whether `available` bytes leave room for `needed` more bytes and the
/// low-space floor.
pub fn room_for(available: u64, needed: u64) -> (r: bool)
    ensures
        r == has_room(available, needed),
{
    available >= needed.saturating_add(LOW_SPACE_FLOOR_BYTES)
}

/// A file of `needed` bytes fits when, after it, at least 32 MiB would be
/// left free; a need so large that this sum passes the largest `u64` fits
/// only a drive reporting the largest `u64` free.
pub proof fn lemma_room_leaves_the_floor(available: u64, needed: u64)
    ensures
        needed + 33_554_432 <= u64::MAX ==> (has_room(available, needed) <==> available >= needed
            + 33_554_432),
        needed + 33_554_432 > u64::MAX ==> (has_room(available, needed) <==> available == u64::MAX),
{
}

// ---------------------------------------------------------------------------
// Free-space checks
// ---------------------------------------------------------------------------

/// What a `DiskThrottle` holds: the bytes and files requested since the
/// free space was last measured, and what was last measured less what has
/// been reserved since.
pub struct ThrottleView {
    pub bytes_since_last_check: u64,
    pub files_since_last_check: usize,
    pub last_known_free: u64,
}

/// How often the free space is measured during an extraction, and what
/// was last measured.
///
/// The free space is measured again once the bytes or the files requested
/// since the last measurement reach their intervals; between measurements
/// each reserved file is subtracted from the last measurement.
#[derive(Clone, Copy, Debug)]
pub struct DiskThrottle {
    bytes_since_last_check: u64,
    files_since_last_check: usize,
    last_known_free: u64,
}

impl View for DiskThrottle {
    type V = ThrottleView;

    closed spec fn view(&self) -> ThrottleView {
        ThrottleView {
            bytes_since_last_check: self.bytes_since_last_check,
            files_since_last_check: self.files_since_last_check,
            last_known_free: self.last_known_free,
        }
    }
}

impl DiskThrottle {
    /// The file counter never passes its interval between requests.
    #[verifier::type_invariant]
    spec fn files_within_interval(self) -> bool {
        self.files_since_last_check <= DISK_CHECK_INTERVAL_FILES
    }

    /// A throttle whose first request measures the free space.
    pub fn new() -> (r: Self)
        ensures
            r@ == (ThrottleView {
                bytes_since_last_check: DISK_CHECK_INTERVAL_BYTES,
                files_since_last_check: DISK_CHECK_INTERVAL_FILES,
                last_known_free: 0,
            }),
    {
        DiskThrottle {
            bytes_since_last_check: DISK_CHECK_INTERVAL_BYTES,
            files_since_last_check: DISK_CHECK_INTERVAL_FILES,
            last_known_free: 0,
        }
    }

    /// The bytes requested since the free space was last measured.
    pub fn bytes_since_last_check(&self) -> (r: u64)
        ensures
            r == self@.bytes_since_last_check,
    {
        self.bytes_since_last_check
    }

    /// The files requested since the free space was last measured.
    pub fn files_since_last_check(&self) -> (r: usize)
        ensures
            r == self@.files_since_last_check,
    {
        self.files_since_last_check
    }

    /// The free space last measured, less what has been reserved since.
    pub fn last_known_free(&self) -> (r: u64)
        ensures
            r == self@.last_known_free,
    {
        self.last_known_free
    }

    /// Counts a request for `needed` bytes and says whether the free space
    /// must be measured now (then the counters start over, and the
    /// measurement is passed to `record_free_space`).
    pub fn begin_attempt(&mut self, needed: u64) -> (due: bool)
        ensures
            final(self)@.last_known_free == old(self)@.last_known_free,
            due == (sat_add(old(self)@.bytes_since_last_check, needed) >= DISK_CHECK_INTERVAL_BYTES
                || old(self)@.files_since_last_check + 1 >= DISK_CHECK_INTERVAL_FILES),
            due ==> final(self)@.bytes_since_last_check == 0,
            due ==> final(self)@.files_since_last_check == 0,
            !due ==> final(self)@.bytes_since_last_check == sat_add(
                old(self)@.bytes_since_last_check,
                needed,
            ) && final(self)@.files_since_last_check == old(self)@.files_since_last_check + 1,
    {
        proof {
            use_type_invariant(&*self);
        }
        let bytes = self.bytes_since_last_check.saturating_add(needed);
        let files = self.files_since_last_check + 1;
        if bytes >= DISK_CHECK_INTERVAL_BYTES || files >= DISK_CHECK_INTERVAL_FILES {
            self.bytes_since_last_check = 0;
            self.files_since_last_check = 0;
            true
        } else {
            self.bytes_since_last_check = bytes;
            self.files_since_last_check = files;
            false
        }
    }

    /// Records a measurement of the free space.
    pub fn record_free_space(&mut self, available: u64)
        ensures
            final(self)@ == (ThrottleView { last_known_free: available, ..old(self)@ }),
    {
        proof {
            use_type_invariant(&*self);
        }
        self.last_known_free = available;
    }

    /// Reserves room for a file of `needed` bytes when the last measurement leaves room
    /// for it and the low-space floor, counting it off that measurement.
    /// Otherwise the extraction pauses, and the next request measures again.
    pub fn try_reserve(&mut self, needed: u64) -> (reserved: bool)
        ensures
            reserved == has_room(old(self)@.last_known_free, needed),
            reserved ==> final(self)@ == (ThrottleView {
                last_known_free: (old(self)@.last_known_free - needed) as u64,
                ..old(self)@
            }),
            !reserved ==> final(self)@ == (ThrottleView {
                bytes_since_last_check: DISK_CHECK_INTERVAL_BYTES,
                ..old(self)@
            }),
    {
        proof {
            use_type_invariant(&*self);
        }
        if room_for(self.last_known_free, needed) {
            self.last_known_free = self.last_known_free - needed;
            true
        } else {
            self.bytes_since_last_check = DISK_CHECK_INTERVAL_BYTES;
            false
        }
    }
}

// ---------------------------------------------------------------------------
// The user's control
// ---------------------------------------------------------------------------

/// What an extraction does on finding its session in a mode.
#[derive(Debug)]
pub enum ControlDecision {
    /// Go on extracting.
    Proceed,
    /// Wait and look again; `user_paused` tells whether to report that the
    /// user paused the extraction.
    Wait { user_paused: bool },
    /// Stop with this error.
    Stop(EngineError),
}

/// The error an extraction stops with when the user cancels it.
pub open spec fn is_cancellation(e: EngineError) -> bool {
    e matches EngineError::Archive(m) && m@ == "Extraction cancelled."@
}

/// What an extraction does on finding its session in `mode`: it goes on
/// when running or complete, waits while paused, and stops when cancelled.
pub fn control_decision(mode: ExtractionMode) -> (r: ControlDecision)
    ensures
        (mode == ExtractionMode::Running || mode == ExtractionMode::Complete) ==> r is Proceed,
        mode == ExtractionMode::PausedByUser ==> r matches ControlDecision::Wait { user_paused: true },
        mode == ExtractionMode::PausedByLowSpace ==> r matches ControlDecision::Wait {
            user_paused: false,
        },
        mode == ExtractionMode::Cancelled ==> (r matches ControlDecision::Stop(e) && is_cancellation(
            e,
        )),
{
    match mode {
        ExtractionMode::Running => ControlDecision::Proceed,
        ExtractionMode::PausedByUser => ControlDecision::Wait { user_paused: true },
        ExtractionMode::PausedByLowSpace => ControlDecision::Wait { user_paused: false },
        ExtractionMode::Cancelled => ControlDecision::Stop(
            EngineError::Archive(String::from_str("Extraction cancelled.")),
        ),
        ExtractionMode::Complete => ControlDecision::Proceed,
    }
}

// ---------------------------------------------------------------------------
// Progress
// ---------------------------------------------------------------------------

/// How much an extraction has written so far.
#[derive(Clone, Copy, Debug, PartialEq, Eq, Structural)]
pub struct ExtractionTally {
    pub extracted_bytes: u64,
    pub extracted_files: usize,
}

impl ExtractionTally {
    /// Nothing extracted yet.
    pub fn new() -> (r: Self)
        ensures
            r == (ExtractionTally { extracted_bytes: 0, extracted_files: 0 }),
    {
        ExtractionTally { extracted_bytes: 0, extracted_files: 0 }
    }

    /// Counts one more file of `size` bytes; the byte count saturates.
    pub fn record_file(&mut self, size: u64)
        requires
            old(self).extracted_files < usize::MAX,
        ensures
            final(self).extracted_bytes == sat_add(old(self).extracted_bytes, size),
            final(self).extracted_files == old(self).extracted_files + 1,
    {
        self.extracted_bytes = self.extracted_bytes.saturating_add(size);
        self.extracted_files = self.extracted_files + 1;
    }
}

/// The temporary file an entry is written to before it is renamed into
/// place: the target with the extension `ghostzip-partial`.
pub fn partial_output_path(output: &str) -> (r: String)
    ensures
        r@ == path_with_extension(output@, "ghostzip-partial"@),
{
    proof {
        reveal_strlit("ghostzip-partial");
    }
    with_extension(output, "ghostzip-partial")
}

/// After a request is turned down for lack of room, the next request
/// measures the free space again, whatever its size.
pub proof fn lemma_refusal_forces_measurement(t: ThrottleView, next: u64)
    ensures
        ({
            let after = ThrottleView { bytes_since_last_check: DISK_CHECK_INTERVAL_BYTES, ..t };
            sat_add(after.bytes_since_last_check, next) >= DISK_CHECK_INTERVAL_BYTES
        }),
{
}

// ---------------------------------------------------------------------------
// TAR entries
// ---------------------------------------------------------------------------

/// What a TAR extraction does with an entry.
#[derive(Debug)]
pub enum TarEntryAction {
    /// Leave the entry out.
    Skip,
    /// Create the directory at this target.
    CreateDirectory(String),
    /// Copy the entry's contents to a file at this target.
    ExtractFile(String),
}

/// What a TAR extraction does with the entry `entry_path` of kind `kind`,
/// under the canonical output directory `output_dir`: symbolic links are
/// skipped, as are entries whose path could escape the output directory;
/// a directory is created; every other entry is copied as a file.
pub fn tar_entry_action(kind: EntryKind, output_dir: &str, entry_path: &str) -> (r: TarEntryAction)
    ensures
        kind == EntryKind::Symlink ==> r is Skip,
        kind != EntryKind::Symlink && entry_path_is_unsafe(entry_path@) ==> r is Skip,
        kind == EntryKind::Directory && !entry_path_is_unsafe(entry_path@) ==> (r matches TarEntryAction::CreateDirectory(t)
            && t@ == path_join(output_dir@, entry_path@)),
        kind != EntryKind::Symlink && kind != EntryKind::Directory && !entry_path_is_unsafe(
            entry_path@,
        ) ==> (r matches TarEntryAction::ExtractFile(t) && t@ == path_join(output_dir@, entry_path@)),
{
    if kind == EntryKind::Symlink {
        return TarEntryAction::Skip;
    }
    match safe_output_path(output_dir, entry_path) {
        Err(_) => TarEntryAction::Skip,
        Ok(target) => {
            if kind == EntryKind::Directory {
                TarEntryAction::CreateDirectory(target)
            } else {
                TarEntryAction::ExtractFile(target)
            }
        },
    }
}

} // verus!
