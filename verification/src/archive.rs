//! Extraction: each archive format is decoded by its own library into a
//! list of (entry name, bytes) pairs, and the verified planner turns that
//! list into a write plan whose every path went through the sanitizer.
//! Directory entries (names ending in `/`) carry no bytes and are skipped:
//! directories are implied by the files beneath them.
//!
//! The 7z decoder is the one exception: it can abort on malformed input,
//! which the library's no-abort contracts exclude, so the surrounding
//! application decodes 7z archives itself and hands the entry list to the
//! same verified planner ([`build_plan`]).
use vstd::prelude::*;
use vstd::string::StringExecFns;

use crate::errors::AppError;
use crate::format::ArchiveFormat;
use crate::paths::{sanitize_archive_path, sanitize_spec};

verus! {

/// One file the extractor will write: a confined relative path and the
/// entry's bytes.
pub struct FileEntry {
    pub path: String,
    pub data: Vec<u8>,
}

/// The (name, bytes) pairs of an entry list, as mathematical values.
pub open spec fn entries_view(es: Seq<(String, Vec<u8>)>) -> Seq<(Seq<char>, Seq<u8>)> {
    es.map_values(|e: (String, Vec<u8>)| (e.0@, e.1@))
}

/// A write plan, as mathematical values.
pub open spec fn plan_view(plan: Seq<FileEntry>) -> Seq<(Seq<char>, Seq<u8>)> {
    plan.map_values(|f: FileEntry| (f.path@, f.data@))
}

/// The entries a zip byte stream decodes to, or `None` when the stream is
/// not a readable zip: a function of the bytes alone.
pub uninterp spec fn zip_entries(bytes: Seq<u8>) -> Option<Seq<(Seq<char>, Seq<u8>)>>;

/// The entries a tar byte stream decodes to, or `None` when the stream is
/// not a readable tar: a function of the bytes alone.
pub uninterp spec fn tar_entries(bytes: Seq<u8>) -> Option<Seq<(Seq<char>, Seq<u8>)>>;

/// The payload a gzip byte stream inflates to, or `None` when it is not a
/// readable gzip stream: a function of the bytes alone.
pub uninterp spec fn gzip_plain(bytes: Seq<u8>) -> Option<Seq<u8>>;

/// Relies on `zip::ZipArchive` over an in-memory cursor: which entries a
/// zip byte stream holds depends on the bytes alone; directory entries are
/// named with a trailing `/` in the zip format itself.
#[verifier::external_body]
fn read_zip_entries(bytes: &Vec<u8>) -> (r: Result<Vec<(String, Vec<u8>)>, String>)
    ensures
        r is Ok <==> zip_entries(bytes@) is Some,
        r matches Ok(es) ==> zip_entries(bytes@) == Some(entries_view(es@)),
{
    let cursor = std::io::Cursor::new(bytes.as_slice());
    let mut archive = zip::ZipArchive::new(cursor).map_err(|e| e.to_string())?;
    let mut out: Vec<(String, Vec<u8>)> = Vec::new();
    for i in 0..archive.len() {
        let mut entry = archive.by_index(i).map_err(|e| e.to_string())?;
        let name = entry.name().to_string();
        let mut data = Vec::new();
        std::io::Read::read_to_end(&mut entry, &mut data).map_err(|e| e.to_string())?;
        out.push((name, data));
    }
    Ok(out)
}

/// Relies on `tar::Archive` over an in-memory cursor: which entries a tar
/// byte stream holds depends on the bytes alone. Directory entries are
/// marked with a trailing `/` (the path itself drops it).
#[verifier::external_body]
fn read_tar_entries(bytes: &Vec<u8>) -> (r: Result<Vec<(String, Vec<u8>)>, String>)
    ensures
        r is Ok <==> tar_entries(bytes@) is Some,
        r matches Ok(es) ==> tar_entries(bytes@) == Some(entries_view(es@)),
{
    let mut archive = tar::Archive::new(std::io::Cursor::new(bytes.as_slice()));
    let mut out: Vec<(String, Vec<u8>)> = Vec::new();
    for entry in archive.entries().map_err(|e| e.to_string())? {
        let mut entry = entry.map_err(|e| e.to_string())?;
        let mut name = entry.path().map_err(|e| e.to_string())?.to_string_lossy().into_owned();
        if entry.header().entry_type().is_dir() {
            name.push('/');
        }
        let mut data = Vec::new();
        std::io::Read::read_to_end(&mut entry, &mut data).map_err(|e| e.to_string())?;
        out.push((name, data));
    }
    Ok(out)
}

/// Relies on `flate2::read::GzDecoder`: the inflated payload depends on the
/// input bytes alone.
#[verifier::external_body]
fn gunzip(bytes: &Vec<u8>) -> (r: Result<Vec<u8>, String>)
    ensures
        r is Ok <==> gzip_plain(bytes@) is Some,
        r matches Ok(d) ==> gzip_plain(bytes@) == Some(d@),
{
    let mut decoder = flate2::read::GzDecoder::new(bytes.as_slice());
    let mut out = Vec::new();
    std::io::Read::read_to_end(&mut decoder, &mut out).map_err(|e| e.to_string())?;
    Ok(out)
}

/// Relies on `unrar::Archive`: opens the archive file at the given path and
/// reads every entry's bytes into memory. The result also depends on what
/// is on disk, so nothing more is assumed of it; the caller sanitizes every
/// name that comes back. Directory entries are marked with a trailing `/`.
/// The path must hold no NUL byte: the library builds a C string from it
/// and does not return on one.
#[verifier::external_body]
fn read_rar_entries(path: &str) -> (r: Result<Vec<(String, Vec<u8>)>, String>)
    requires
        forall|i: int| 0 <= i < path@.len() ==> path@[i] != '\0',
{
    let mut archive = unrar::Archive::new(path).open_for_processing().map_err(|e| e.to_string())?;
    let mut out: Vec<(String, Vec<u8>)> = Vec::new();
    while let Some(entry) = archive.read_header().map_err(|e| e.to_string())? {
        let mut name = entry.entry().filename.to_string_lossy().into_owned();
        if entry.entry().is_directory() {
            name.push('/');
        }
        let (data, rest) = entry.read().map_err(|e| e.to_string())?;
        out.push((name, data));
        archive = rest;
    }
    Ok(out)
}

/// What planning does to a decoded entry list: directory entries (trailing
/// `/`) are dropped, every other name must sanitize, and entries whose
/// sanitized path is empty are dropped; the first rejected name rejects the
/// whole archive.
pub open spec fn plan_spec(entries: Seq<(Seq<char>, Seq<u8>)>) -> Option<Seq<(Seq<char>, Seq<u8>)>>
    decreases entries.len(),
{
    if entries.len() == 0 {
        Some(Seq::empty())
    } else {
        match plan_spec(entries.drop_last()) {
            None => None,
            Some(pre) => {
                let e = entries.last();
                if e.0.len() > 0 && e.0.last() == '/' {
                    Some(pre)
                } else {
                    match sanitize_spec(e.0) {
                        None => None,
                        Some(p) => if p.len() == 0 {
                            Some(pre)
                        } else {
                            Some(pre.push((p, e.1)))
                        },
                    }
                }
            },
        }
    }
}

/// Element-wise copy of an entry's bytes.
fn clone_bytes(data: &Vec<u8>) -> (r: Vec<u8>)
    ensures
        r@ == data@,
{
    let mut r: Vec<u8> = Vec::new();
    let mut j: usize = 0;
    while j < data.len()
        invariant
            j <= data@.len(),
            r@ == data@.take(j as int),
        decreases data@.len() - j,
    {
        r.push(data[j]);
        proof {
            assert(r@ =~= data@.take(j as int + 1));
        }
        j = j + 1;
    }
    proof {
        assert(data@.take(data@.len() as int) =~= data@);
    }
    r
}

/// Turn a decoded entry list into the write plan, sanitizing every name.
pub fn build_plan(entries: &Vec<(String, Vec<u8>)>) -> (r: Result<Vec<FileEntry>, AppError>)
    ensures
        match r {
            Ok(plan) => plan_spec(entries_view(entries@)) == Some(plan_view(plan@)),
            Err(e) => plan_spec(entries_view(entries@)) is None && e matches AppError::InvalidArchiveEntry(_),
        },
{
    let mut plan: Vec<FileEntry> = Vec::new();
    let mut i: usize = 0;
    proof {
        assert(entries_view(entries@.take(0)) =~= Seq::<(Seq<char>, Seq<u8>)>::empty());
        assert(plan_view(plan@) =~= Seq::<(Seq<char>, Seq<u8>)>::empty());
    }
    while i < entries.len()
        invariant
            i <= entries@.len(),
            plan_spec(entries_view(entries@.take(i as int))) == Some(plan_view(plan@)),
        decreases entries@.len() - i,
    {
        proof {
            assert(entries_view(entries@.take(i as int + 1)).drop_last() =~= entries_view(
                entries@.take(i as int),
            ));
            assert(entries_view(entries@.take(i as int + 1)).last() == (
                entries@[i as int].0@,
                entries@[i as int].1@,
            ));
        }
        let name: &String = &entries[i].0;
        let name_chars = crate::text::str_to_chars(name.as_str());
        let is_dir = name_chars.len() > 0 && name_chars[name_chars.len() - 1] == '/';
        if !is_dir {
            match sanitize_archive_path(name.as_str()) {
                Err(e) => {
                    proof {
                        assert(plan_spec(entries_view(entries@.take(i as int + 1))) is None);
                        lemma_plan_prefix_none(entries_view(entries@), i as int + 1);
                    }
                    return Err(e);
                },
                Ok(p) => {
                    if p.as_str().unicode_len() > 0 {
                        let data = clone_bytes(&entries[i].1);
                        let ghost old_plan = plan_view(plan@);
                        plan.push(FileEntry { path: p, data });
                        proof {
                            assert(plan_view(plan@) =~= old_plan.push(
                                (plan@.last().path@, plan@.last().data@),
                            ));
                        }
                    }
                },
            }
        }
        i = i + 1;
    }
    proof {
        assert(entries@.take(entries@.len() as int) =~= entries@);
    }
    Ok(plan)
}

/// If planning rejects some prefix of the entries, it rejects the whole
/// list.
proof fn lemma_plan_prefix_none(entries: Seq<(Seq<char>, Seq<u8>)>, i: int)
    requires
        0 <= i <= entries.len(),
        plan_spec(entries.take(i)) is None,
    ensures
        plan_spec(entries) is None,
    decreases entries.len() - i,
{
    if i < entries.len() {
        assert(entries.take(i + 1).drop_last() =~= entries.take(i));
        lemma_plan_prefix_none(entries, i + 1);
    } else {
        assert(entries.take(i) =~= entries);
    }
}

/// Every path of a successful plan is the sanitizer's output for one of the
/// archive's entries, and is nonempty; together with
/// [`crate::paths::lemma_sanitized_path_confined`] this says that every
/// write an extraction performs stays inside the extraction root.
pub proof fn lemma_plan_confined(
    entries: Seq<(Seq<char>, Seq<u8>)>,
    plan: Seq<(Seq<char>, Seq<u8>)>,
)
    requires
        plan_spec(entries) == Some(plan),
    ensures
        forall|i: int|
            0 <= i < plan.len() ==> #[trigger] plan[i].0.len() > 0 && exists|orig: Seq<char>|
                sanitize_spec(orig) == Some(plan[i].0),
    decreases entries.len(),
{
    if entries.len() > 0 {
        let pre = plan_spec(entries.drop_last())->Some_0;
        lemma_plan_confined(entries.drop_last(), pre);
        let e = entries.last();
        if !(e.0.len() > 0 && e.0.last() == '/') {
            let p = sanitize_spec(e.0)->Some_0;
            if p.len() > 0 {
                assert(plan == pre.push((p, e.1)));
                assert forall|i: int| 0 <= i < plan.len() implies #[trigger] plan[i].0.len() > 0
                    && exists|orig: Seq<char>| sanitize_spec(orig) == Some(plan[i].0) by {
                    if i < plan.len() - 1 {
                        assert(plan[i] == pre[i]);
                    } else {
                        assert(plan[i] == (p, e.1));
                        assert(sanitize_spec(e.0) == Some(plan[i].0));
                    }
                }
            }
        }
    }
}

/// The error text for a bare gzip payload that holds no tar stream: such
/// files are unsupported.
fn gz_not_tar_message() -> (r: String)
    ensures
        r@ == "not a tar stream inside gzip (expected tar.gz)"@,
{
    String::from_str("not a tar stream inside gzip (expected tar.gz)")
}

/// Extract a whole archive into a write plan. Zip, tar, tar.gz and gz are
/// decoded from the archive bytes; rar is decoded from the file at
/// `archive_path` (its library reads from disk itself). Every path in the
/// returned plan is the sanitizer's output for some entry of the archive.
/// 7z is not decoded here — see the module description — so the caller
/// routes 7z entry lists through [`build_plan`] instead.
pub fn extract_archive(format: ArchiveFormat, archive_path: &str, bytes: &Vec<u8>) -> (r: Result<
    Vec<FileEntry>,
    AppError,
>)
    requires
        format != ArchiveFormat::SevenZ,
    ensures
        format == ArchiveFormat::Zip ==> match r {
            Ok(plan) => zip_entries(bytes@) matches Some(es) && plan_spec(es) == Some(
                plan_view(plan@),
            ),
            Err(e) => match e {
                AppError::Zip(_) => zip_entries(bytes@) is None,
                AppError::InvalidArchiveEntry(_) => zip_entries(bytes@) matches Some(es)
                    && plan_spec(es) is None,
                _ => false,
            },
        },
        format == ArchiveFormat::Tar ==> match r {
            Ok(plan) => tar_entries(bytes@) matches Some(es) && plan_spec(es) == Some(
                plan_view(plan@),
            ),
            Err(e) => match e {
                AppError::Io(_) => tar_entries(bytes@) is None,
                AppError::InvalidArchiveEntry(_) => tar_entries(bytes@) matches Some(es)
                    && plan_spec(es) is None,
                _ => false,
            },
        },
        format == ArchiveFormat::TarGz ==> match r {
            Ok(plan) => gzip_plain(bytes@) matches Some(payload) && tar_entries(payload)
                matches Some(es) && plan_spec(es) == Some(plan_view(plan@)),
            Err(e) => match e {
                AppError::Io(_) => gzip_plain(bytes@) is None || tar_entries(
                    gzip_plain(bytes@)->Some_0,
                ) is None,
                AppError::InvalidArchiveEntry(_) => gzip_plain(bytes@) matches Some(payload)
                    && tar_entries(payload) matches Some(es) && plan_spec(es) is None,
                _ => false,
            },
        },
        format == ArchiveFormat::Gz ==> match r {
            Ok(plan) => gzip_plain(bytes@) matches Some(payload) && tar_entries(payload)
                matches Some(es) && plan_spec(es) == Some(plan_view(plan@)),
            Err(e) => e matches AppError::InvalidPack(_) && (gzip_plain(bytes@) is None
                || tar_entries(gzip_plain(bytes@)->Some_0) is None || plan_spec(
                tar_entries(gzip_plain(bytes@)->Some_0)->Some_0,
            ) is None),
        },
        format == ArchiveFormat::Rar ==> match r {
            Ok(plan) => exists|es: Seq<(Seq<char>, Seq<u8>)>| plan_spec(es) == Some(
                plan_view(plan@),
            ),
            Err(e) => e matches AppError::InvalidPack(_) || e matches AppError::InvalidArchiveEntry(
                _,
            ),
        },
{
    match format {
        ArchiveFormat::Zip => {
            let entries = match read_zip_entries(bytes) {
                Ok(es) => es,
                Err(m) => {
                    return Err(AppError::Zip(m));
                },
            };
            build_plan(&entries)
        },
        ArchiveFormat::Tar => {
            let entries = match read_tar_entries(bytes) {
                Ok(es) => es,
                Err(m) => {
                    return Err(AppError::Io(m));
                },
            };
            build_plan(&entries)
        },
        ArchiveFormat::TarGz => {
            let payload = match gunzip(bytes) {
                Ok(d) => d,
                Err(m) => {
                    return Err(AppError::Io(m));
                },
            };
            let entries = match read_tar_entries(&payload) {
                Ok(es) => es,
                Err(m) => {
                    return Err(AppError::Io(m));
                },
            };
            build_plan(&entries)
        },
        ArchiveFormat::Gz => {
            // attempted as tar-over-gzip; a plain gzip payload that is not
            // a tar stream is unsupported
            let payload = match gunzip(bytes) {
                Ok(d) => d,
                Err(_) => {
                    return Err(AppError::InvalidPack(gz_not_tar_message()));
                },
            };
            let entries = match read_tar_entries(&payload) {
                Ok(es) => es,
                Err(_) => {
                    return Err(AppError::InvalidPack(gz_not_tar_message()));
                },
            };
            match build_plan(&entries) {
                Ok(plan) => Ok(plan),
                Err(_) => Err(AppError::InvalidPack(gz_not_tar_message())),
            }
        },
        ArchiveFormat::SevenZ => vstd::pervasive::unreached(),
        ArchiveFormat::Rar => {
            // a path with a NUL byte can never name a file; refuse it here
            // rather than hand it to the C interface
            let path_chars = crate::text::str_to_chars(archive_path);
            let mut pi: usize = 0;
            while pi < path_chars.len()
                invariant
                    format == ArchiveFormat::Rar,
                    pi <= path_chars@.len(),
                    path_chars@ == archive_path@,
                    forall|j: int| 0 <= j < pi ==> archive_path@[j] != '\0',
                decreases path_chars@.len() - pi,
            {
                if path_chars[pi] == '\0' {
                    let mut msg = String::from_str("failed to read .rar: ");
                    msg.append("invalid archive path");
                    return Err(AppError::InvalidPack(msg));
                }
                pi = pi + 1;
            }
            let entries = match read_rar_entries(archive_path) {
                Ok(es) => es,
                Err(m) => {
                    let mut msg = String::from_str("failed to read .rar: ");
                    msg.append(m.as_str());
                    return Err(AppError::InvalidPack(msg));
                },
            };
            match build_plan(&entries) {
                Ok(plan) => {
                    proof {
                        let es = entries_view(entries@);
                        assert(plan_spec(es) == Some(plan_view(plan@)));
                    }
                    Ok(plan)
                },
                Err(e) => Err(e),
            }
        },
    }
}

} // verus!
