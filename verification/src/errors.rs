//! The engine's errors and the messages shown to the user for them.

use vstd::prelude::*;

use crate::text::concat2;
use crate::text::concat3;

verus! {

/// Why an engine operation failed.
#[derive(Debug)]
pub enum EngineError {
    /// An I/O operation failed; `source` is the operating system's message.
    Io { context: String, source: String },
    UnsupportedFormat(String),
    InvalidArchivePath(String),
    SessionNotFound(String),
    InsufficientSpace,
    Archive(String),
    PasswordRequired,
    EmptyArchive,
    DiskFull,
    CorruptEntry { path: String, detail: String },
}

/// The result of an engine operation.
pub type EngineResult<T> = Result<T, EngineError>;

/// The message shown to the user for `e`.
pub open spec fn user_message_text(e: EngineError) -> Seq<char> {
    match e {
        EngineError::Io { context, source } => context@ + ": "@ + source@,
        EngineError::UnsupportedFormat(format) => format@
            + " archives are detected but are not yet extractable in this build."@,
        EngineError::InvalidArchivePath(path) => "The archive entry path is not safe to extract: "@
            + path@,
        EngineError::SessionNotFound(_) => "This extraction session expired. Analyze the archive again."@,
        EngineError::InsufficientSpace => "The target drive does not have enough free space for the current file."@,
        EngineError::Archive(message) => message@,
        EngineError::PasswordRequired => "This archive requires a password to extract."@,
        EngineError::EmptyArchive => "The archive does not contain any extractable files."@,
        EngineError::DiskFull => "The target drive is full."@,
        EngineError::CorruptEntry { path, detail } => "Corrupt entry "@ + path@ + ": "@ + detail@,
    }
}

impl EngineError {
    /// The message shown to the user for this error.
    pub fn user_message(&self) -> (r: String)
        ensures
            r@ == user_message_text(*self),
    {
        match self {
            EngineError::Io { context, source } => concat3(context.as_str(), ": ", source.as_str()),
            EngineError::UnsupportedFormat(format) => concat2(
                format.as_str(),
                " archives are detected but are not yet extractable in this build.",
            ),
            EngineError::InvalidArchivePath(path) => concat2(
                "The archive entry path is not safe to extract: ",
                path.as_str(),
            ),
            EngineError::SessionNotFound(_) => String::from_str(
                "This extraction session expired. Analyze the archive again.",
            ),
            EngineError::InsufficientSpace => String::from_str(
                "The target drive does not have enough free space for the current file.",
            ),
            EngineError::Archive(message) => message.clone(),
            EngineError::PasswordRequired => String::from_str(
                "This archive requires a password to extract.",
            ),
            EngineError::EmptyArchive => String::from_str(
                "The archive does not contain any extractable files.",
            ),
            EngineError::DiskFull => String::from_str("The target drive is full."),
            EngineError::CorruptEntry { path, detail } => {
                let mut r = concat3("Corrupt entry ", path.as_str(), ": ");
                r.append(detail.as_str());
                r
            },
        }
    }
}

} // verus!
