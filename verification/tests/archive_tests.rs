use std::io::Write;

use soundpacks::archive::{build_plan, extract_archive};
use soundpacks::errors::AppError;
use soundpacks::format::ArchiveFormat;

fn zip_bytes(entries: &[(&str, &[u8])], dirs: &[&str]) -> Vec<u8> {
    let mut w = zip::ZipWriter::new(std::io::Cursor::new(Vec::new()));
    let opts: zip::write::SimpleFileOptions = Default::default();
    for d in dirs {
        w.add_directory(*d, opts).unwrap();
    }
    for (name, data) in entries {
        w.start_file(*name, opts).unwrap();
        w.write_all(data).unwrap();
    }
    w.finish().unwrap().into_inner()
}

fn tar_bytes(entries: &[(&str, &[u8])]) -> Vec<u8> {
    let mut b = tar::Builder::new(Vec::new());
    for (name, data) in entries {
        let mut h = tar::Header::new_gnu();
        h.set_size(data.len() as u64);
        h.set_mode(0o644);
        h.set_cksum();
        b.append_data(&mut h, *name, *data).unwrap();
    }
    b.into_inner().unwrap()
}

fn gzip(data: &[u8]) -> Vec<u8> {
    let mut e = flate2::write::GzEncoder::new(Vec::new(), flate2::Compression::default());
    e.write_all(data).unwrap();
    e.finish().unwrap()
}

#[test]
fn zip_extraction_plans_files_and_skips_directories() {
    let bytes = zip_bytes(
        &[
            ("pack/config.json", b"{\"name\":\"My Pack!!\"}"),
            ("pack/a.wav", b"RIFF"),
        ],
        &["pack/"],
    );
    let plan = extract_archive(ArchiveFormat::Zip, "", &bytes).unwrap();
    assert_eq!(plan.len(), 2);
    assert_eq!(plan[0].path, "pack/config.json");
    assert_eq!(plan[0].data, b"{\"name\":\"My Pack!!\"}");
    assert_eq!(plan[1].path, "pack/a.wav");
}

#[test]
fn zip_traversal_entry_rejected() {
    let bytes = zip_bytes(&[("../evil.sh", b"#!"), ("ok.txt", b"x")], &[]);
    assert!(matches!(
        extract_archive(ArchiveFormat::Zip, "", &bytes),
        Err(AppError::InvalidArchiveEntry(_))
    ));
}

#[test]
fn zip_garbage_is_a_zip_error() {
    let bytes = vec![0u8; 64];
    assert!(matches!(
        extract_archive(ArchiveFormat::Zip, "", &bytes),
        Err(AppError::Zip(_))
    ));
}

#[test]
fn tar_extraction_plans_files() {
    let bytes = tar_bytes(&[("wrap/deep/config.json", b"{}"), ("wrap/deep/s.wav", b"S")]);
    let plan = extract_archive(ArchiveFormat::Tar, "", &bytes).unwrap();
    assert_eq!(plan.len(), 2);
    assert_eq!(plan[0].path, "wrap/deep/config.json");
    assert_eq!(plan[1].path, "wrap/deep/s.wav");
}

#[test]
fn targz_extraction_round_trip() {
    let bytes = gzip(&tar_bytes(&[("config.json", b"{\"version\":\"2.0\"}")]));
    let plan = extract_archive(ArchiveFormat::TarGz, "", &bytes).unwrap();
    assert_eq!(plan.len(), 1);
    assert_eq!(plan[0].path, "config.json");
    assert_eq!(plan[0].data, b"{\"version\":\"2.0\"}");
}

#[test]
fn gz_with_tar_payload_extracts() {
    let bytes = gzip(&tar_bytes(&[("config.json", b"{}")]));
    let plan = extract_archive(ArchiveFormat::Gz, "", &bytes).unwrap();
    assert_eq!(plan.len(), 1);
}

#[test]
fn gz_without_tar_payload_is_invalid_pack() {
    let bytes = gzip(b"just some text, not a tar stream");
    assert!(matches!(
        extract_archive(ArchiveFormat::Gz, "", &bytes),
        Err(AppError::InvalidPack(_))
    ));
    let not_gzip = b"plainly not gzip".to_vec();
    assert!(matches!(
        extract_archive(ArchiveFormat::Gz, "", &not_gzip),
        Err(AppError::InvalidPack(_))
    ));
}

#[test]
fn rar_missing_file_is_invalid_pack() {
    let empty = Vec::new();
    assert!(matches!(
        extract_archive(ArchiveFormat::Rar, "/nonexistent/archive.rar", &empty),
        Err(AppError::InvalidPack(_))
    ));
}

#[test]
fn sevenz_entries_round_trip_through_planner() {
    // 7z is decoded outside the library (its decoder can abort on bad
    // input); the decoded entries go through the verified planner
    let mut w = sevenz_rust::SevenZWriter::new(std::io::Cursor::new(Vec::new())).unwrap();
    let mut entry = sevenz_rust::SevenZArchiveEntry::default();
    entry.name = "pack/config.json".to_string();
    entry.has_stream = true;
    w.push_archive_entry(entry, Some(&b"{\"name\":\"seven\"}"[..])).unwrap();
    let bytes = w.finish().unwrap().into_inner();
    let mut reader = sevenz_rust::SevenZReader::new(
        std::io::Cursor::new(bytes.as_slice()),
        bytes.len() as u64,
        sevenz_rust::Password::empty(),
    )
    .unwrap();
    let mut entries: Vec<(String, Vec<u8>)> = Vec::new();
    reader
        .for_each_entries(|e, r| {
            let mut data = Vec::new();
            std::io::Read::read_to_end(r, &mut data).unwrap();
            entries.push((e.name().to_string(), data));
            Ok(true)
        })
        .unwrap();
    let plan = build_plan(&entries).unwrap();
    assert_eq!(plan.len(), 1);
    assert_eq!(plan[0].path, "pack/config.json");
    assert_eq!(plan[0].data, b"{\"name\":\"seven\"}");
}

#[test]
fn planner_rejects_traversal_in_decoded_entries() {
    let entries: Vec<(String, Vec<u8>)> = vec![
        ("ok.txt".to_string(), b"x".to_vec()),
        ("../evil".to_string(), b"y".to_vec()),
    ];
    assert!(matches!(
        build_plan(&entries),
        Err(AppError::InvalidArchiveEntry(_))
    ));
    let fine: Vec<(String, Vec<u8>)> = vec![
        ("dir/".to_string(), Vec::new()),
        ("dir/a.wav".to_string(), b"A".to_vec()),
    ];
    let plan = build_plan(&fine).unwrap();
    assert_eq!(plan.len(), 1);
    assert_eq!(plan[0].path, "dir/a.wav");
}
