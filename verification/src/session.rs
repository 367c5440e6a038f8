//! Extraction modes and sessions.

use vstd::prelude::*;

use crate::archive::{ArchiveManifest, ManifestView};

verus! {

/// The mode the user picks when starting an extraction.
#[derive(Clone, Copy, Debug, PartialEq, Eq, Structural)]
pub enum UserExtractionMode {
    /// Follow the recommendation made when the archive was inspected.
    Auto,
    /// Extract in archive order, leaving the archive in place.
    Normal,
    /// Extract, reclaim the archive's space, and delete the archive.
    ExtractAndPurge,
}

/// The state of a running extraction, as the user and the engine set it.
#[derive(Clone, Copy, Debug, PartialEq, Eq, Structural)]
pub enum ExtractionMode {
    Running,
    PausedByUser,
    PausedByLowSpace,
    Cancelled,
    Complete,
}

/// An inspected archive waiting for, or going through, extraction.
#[derive(Debug)]
pub struct ExtractionSession {
    pub manifest: ArchiveManifest,
    pub mode: ExtractionMode,
    pub space_saver: bool,
}

/// A session with its manifest as a view.
pub struct SessionView {
    pub manifest: ManifestView,
    pub mode: ExtractionMode,
    pub space_saver: bool,
}

impl View for ExtractionSession {
    type V = SessionView;

    open spec fn view(&self) -> SessionView {
        SessionView { manifest: self.manifest@, mode: self.mode, space_saver: self.space_saver }
    }
}

impl Clone for ExtractionSession {
    fn clone(&self) -> (r: Self)
        ensures
            r@ == self@,
    {
        ExtractionSession {
            manifest: self.manifest.clone(),
            mode: self.mode,
            space_saver: self.space_saver,
        }
    }
}

impl ExtractionSession {
    /// A new session for `manifest`, running.
    pub fn new(manifest: ArchiveManifest, space_saver: bool) -> (r: Self)
        ensures
            r@ == (SessionView { manifest: manifest@, mode: ExtractionMode::Running, space_saver }),
    {
        ExtractionSession { manifest, mode: ExtractionMode::Running, space_saver }
    }
}

} // verus!
