//! Space-aware archive extraction engine: format detection, entry
//! scheduling, extraction-session bookkeeping and the rules that decide when
//! an extraction pauses, proceeds or fails.

pub mod paths;
pub mod text;
pub mod errors;
pub mod archive;
pub mod storage;
pub mod sevenzip;
pub mod scheduler;
pub mod session;
pub mod engine;
pub mod constants;
pub mod extract;
pub mod purge;
pub mod commands;
