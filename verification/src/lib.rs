//! Verified core of a sound-pack import pipeline: archive-format detection,
//! path sanitization against traversal, manifest parsing, identifier
//! derivation, and the orchestration state machine that sequences an import
//! with atomic commit or rollback.
pub mod archive;
pub mod errors;
pub mod format;
pub mod import;
pub mod listing;
pub mod manifest;
pub mod models;
pub mod paths;
pub mod slug;
pub mod text;
