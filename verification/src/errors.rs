//! Error taxonomy of the import pipeline.
use vstd::prelude::*;
use vstd::string::StringExecFns;

verus! {

/// Everything that can go wrong while listing, importing or deleting packs.
/// Failures coming out of outside code are carried as their message text.
#[derive(Debug)]
pub enum AppError {
    /// Underlying filesystem or process I/O failure.
    Io(String),
    /// The zip container could not be opened or decoded.
    Zip(String),
    /// Manifest or settings text was not well-formed JSON.
    Json(String),
    /// The persisted settings were unusable.
    InvalidConfig(String),
    /// An archive entry path would escape the extraction root.
    InvalidArchiveEntry(String),
    /// The archive filename suffix is not recognized.
    UnsupportedFormat(String),
    /// Structural problem with the pack: missing manifest, empty identifier,
    /// validator rejection, or identifier collision.
    InvalidPack(String),
    /// The external validator binary is absent.
    WayvibesMissing,
    /// An invocation of the external player failed.
    WayvibesCommand(String),
}

/// The human-readable text for an error value.
pub open spec fn message_spec(e: AppError) -> Seq<char> {
    match e {
        AppError::Io(m) => "file access failed: "@ + m@,
        AppError::Zip(m) => "zip processing failed: "@ + m@,
        AppError::Json(m) => "json parsing failed: "@ + m@,
        AppError::InvalidConfig(m) => "invalid settings: "@ + m@,
        AppError::InvalidArchiveEntry(m) => "invalid archive entry: "@ + m@,
        AppError::UnsupportedFormat(m) => "unsupported archive format: "@ + m@,
        AppError::InvalidPack(m) => "invalid pack: "@ + m@,
        AppError::WayvibesMissing => "wayvibes not found"@,
        AppError::WayvibesCommand(m) => "wayvibes command failed: "@ + m@,
    }
}

impl AppError {
    /// Human-readable description, used by the surrounding application.
    pub fn message(&self) -> (r: String)
        ensures
            r@ == message_spec(*self),
    {
        match self {
            AppError::Io(m) => {
                let mut r = String::from_str("file access failed: ");
                r.append(m.as_str());
                r
            },
            AppError::Zip(m) => {
                let mut r = String::from_str("zip processing failed: ");
                r.append(m.as_str());
                r
            },
            AppError::Json(m) => {
                let mut r = String::from_str("json parsing failed: ");
                r.append(m.as_str());
                r
            },
            AppError::InvalidConfig(m) => {
                let mut r = String::from_str("invalid settings: ");
                r.append(m.as_str());
                r
            },
            AppError::InvalidArchiveEntry(m) => {
                let mut r = String::from_str("invalid archive entry: ");
                r.append(m.as_str());
                r
            },
            AppError::UnsupportedFormat(m) => {
                let mut r = String::from_str("unsupported archive format: ");
                r.append(m.as_str());
                r
            },
            AppError::InvalidPack(m) => {
                let mut r = String::from_str("invalid pack: ");
                r.append(m.as_str());
                r
            },
            AppError::WayvibesMissing => String::from_str("wayvibes not found"),
            AppError::WayvibesCommand(m) => {
                let mut r = String::from_str("wayvibes command failed: ");
                r.append(m.as_str());
                r
            },
        }
    }
}

} // verus!
