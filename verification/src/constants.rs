//! Names of the events the extractor reports, and the sizes that govern
//! buffering and free-space checks.

use vstd::prelude::*;

verus! {

pub const EVENT_PROGRESS: &'static str = "extraction-progress";
pub const EVENT_COMPLETE: &'static str = "extraction-complete";
pub const EVENT_PAUSED: &'static str = "extraction-paused";
pub const EVENT_ERROR: &'static str = "extraction-error";
pub const EVENT_PURGE_PROGRESS: &'static str = "purge-progress";

/// The size of the buffer that entries are copied through.
pub const BUFFER_SIZE: usize = 64 * 1024;

/// The free space that must remain on the drive besides the current file.
pub const LOW_SPACE_FLOOR_BYTES: u64 = 32 * 1024 * 1024;

/// After this many bytes requested the free space is measured again.
pub const DISK_CHECK_INTERVAL_BYTES: u64 = 10 * 1024 * 1024;

/// After this many files requested the free space is measured again.
pub const DISK_CHECK_INTERVAL_FILES: usize = 50;

} // verus!
