//! Name-based archive format detection: the filename suffix alone decides
//! the format, checked from the most specific suffix to the least, so that
//! `.tar.gz` is never taken for plain `.gz`.
use vstd::prelude::*;

use crate::text::{ends_with_ignore_case, ends_with_lower, str_to_chars};

verus! {

/// Kinds of archive container recognized by the importer.
#[derive(Clone, Copy, PartialEq, Eq, Structural, Debug)]
pub enum ArchiveFormat {
    Zip,
    Tar,
    TarGz,
    Gz,
    Rar,
    SevenZ,
}

/// The format a filename is classified as: case-insensitive suffix match,
/// most specific suffix first.
pub open spec fn detect_spec(name: Seq<char>) -> Option<ArchiveFormat> {
    if ends_with_lower(name, ".zip"@) {
        Some(ArchiveFormat::Zip)
    } else if ends_with_lower(name, ".tar.gz"@) || ends_with_lower(name, ".tgz"@) {
        Some(ArchiveFormat::TarGz)
    } else if ends_with_lower(name, ".tar"@) {
        Some(ArchiveFormat::Tar)
    } else if ends_with_lower(name, ".gz"@) {
        Some(ArchiveFormat::Gz)
    } else if ends_with_lower(name, ".rar"@) {
        Some(ArchiveFormat::Rar)
    } else if ends_with_lower(name, ".7z"@) {
        Some(ArchiveFormat::SevenZ)
    } else {
        None
    }
}

/// Classify an archive's file name by its suffix; `None` when no supported
/// suffix matches.
pub fn detect_archive_type(name: &str) -> (r: Option<ArchiveFormat>)
    ensures
        r == detect_spec(name@),
{
    let chars = str_to_chars(name);
    if ends_with_ignore_case(&chars, &str_to_chars(".zip")) {
        Some(ArchiveFormat::Zip)
    } else if ends_with_ignore_case(&chars, &str_to_chars(".tar.gz"))
        || ends_with_ignore_case(&chars, &str_to_chars(".tgz")) {
        Some(ArchiveFormat::TarGz)
    } else if ends_with_ignore_case(&chars, &str_to_chars(".tar")) {
        Some(ArchiveFormat::Tar)
    } else if ends_with_ignore_case(&chars, &str_to_chars(".gz")) {
        Some(ArchiveFormat::Gz)
    } else if ends_with_ignore_case(&chars, &str_to_chars(".rar")) {
        Some(ArchiveFormat::Rar)
    } else if ends_with_ignore_case(&chars, &str_to_chars(".7z")) {
        Some(ArchiveFormat::SevenZ)
    } else {
        None
    }
}

/// A filename that ends in `.tar.gz` or `.tgz` (case-insensitively) is
/// always classified as `TarGz`, never as `Gz`, `Tar` or anything else.
pub proof fn lemma_targz_wins(name: Seq<char>)
    requires
        ends_with_lower(name, ".tar.gz"@) || ends_with_lower(name, ".tgz"@),
    ensures
        detect_spec(name) == Some(ArchiveFormat::TarGz),
{
    reveal_strlit(".zip");
    reveal_strlit(".tar.gz");
    reveal_strlit(".tgz");
    let low = crate::text::lower_chars(name);
    let n = low.len() as int;
    if ends_with_lower(name, ".zip"@) {
        assert(low.skip(n - 4) =~= ".zip"@);
        assert(low[n - 1] == low.skip(n - 4)[3]);
        assert(low[n - 1] == 'p');
        if ends_with_lower(name, ".tar.gz"@) {
            assert(low.skip(n - 7) =~= ".tar.gz"@);
            assert(low[n - 1] == low.skip(n - 7)[6]);
            assert(low[n - 1] == 'z');
        }
        if ends_with_lower(name, ".tgz"@) {
            assert(low.skip(n - 4) =~= ".tgz"@);
            assert(low[n - 1] == 'z');
        }
    }
}

} // verus!
