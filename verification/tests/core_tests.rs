use soundpacks::errors::AppError;
use soundpacks::format::{detect_archive_type, ArchiveFormat};
use soundpacks::import::{parse_pid_output, process_to_stop};
use soundpacks::models::make_status;
use soundpacks::paths::{base_name_of, parent_of, path_join, sanitize_archive_path, stem_of_name};
use soundpacks::slug::{slugify, temp_dir_name};

#[test]
fn sanitize_rejects_parent_component() {
    assert!(matches!(
        sanitize_archive_path("a/../b"),
        Err(AppError::InvalidArchiveEntry(_))
    ));
    assert!(matches!(
        sanitize_archive_path(".."),
        Err(AppError::InvalidArchiveEntry(_))
    ));
    assert!(matches!(
        sanitize_archive_path("../../../etc/passwd"),
        Err(AppError::InvalidArchiveEntry(_))
    ));
}

#[test]
fn sanitize_rejects_absolute_and_drive_roots() {
    assert!(matches!(
        sanitize_archive_path("/etc/passwd"),
        Err(AppError::InvalidArchiveEntry(_))
    ));
    assert!(matches!(
        sanitize_archive_path("C:/windows/system32"),
        Err(AppError::InvalidArchiveEntry(_))
    ));
    assert!(matches!(
        sanitize_archive_path("c:"),
        Err(AppError::InvalidArchiveEntry(_))
    ));
}

#[test]
fn sanitize_passes_ordinary_paths_and_drops_cur_dir() {
    assert_eq!(sanitize_archive_path("pack/config.json").unwrap(), "pack/config.json");
    assert_eq!(sanitize_archive_path("./a/./b").unwrap(), "a/b");
    assert_eq!(sanitize_archive_path("a//b/").unwrap(), "a/b");
    assert_eq!(sanitize_archive_path(".").unwrap(), "");
    assert_eq!(sanitize_archive_path("").unwrap(), "");
}

#[test]
fn detect_by_suffix_case_insensitive() {
    assert_eq!(detect_archive_type("Pack.ZIP"), Some(ArchiveFormat::Zip));
    assert_eq!(detect_archive_type("a.tar"), Some(ArchiveFormat::Tar));
    assert_eq!(detect_archive_type("d.gz"), Some(ArchiveFormat::Gz));
    assert_eq!(detect_archive_type("e.RaR"), Some(ArchiveFormat::Rar));
    assert_eq!(detect_archive_type("f.7z"), Some(ArchiveFormat::SevenZ));
    assert_eq!(detect_archive_type("notes.txt"), None);
    assert_eq!(detect_archive_type("gz"), None);
}

#[test]
fn targz_never_detected_as_gz_or_tar() {
    assert_eq!(detect_archive_type("a.tar.gz"), Some(ArchiveFormat::TarGz));
    assert_eq!(detect_archive_type("A.TAR.GZ"), Some(ArchiveFormat::TarGz));
    assert_eq!(detect_archive_type("b.tgz"), Some(ArchiveFormat::TarGz));
    assert_eq!(detect_archive_type("B.TgZ"), Some(ArchiveFormat::TarGz));
}

#[test]
fn slugify_collapses_and_trims() {
    assert_eq!(slugify("My Pack!!"), "my-pack");
    assert_eq!(slugify("ABC123"), "abc123");
    assert_eq!(slugify("  hello,  world  "), "hello-world");
    assert_eq!(slugify("!!!"), "");
    assert_eq!(slugify(""), "");
    assert_eq!(slugify("-a-"), "a");
}

#[test]
fn slugify_is_idempotent_on_its_output() {
    for name in ["My Pack!!", "  A--B  ", "ABC123", "!!!", "a-1-b"] {
        let once = slugify(name);
        assert_eq!(slugify(&once), once);
    }
}

#[test]
fn temp_dir_name_carries_timestamp() {
    assert_eq!(temp_dir_name(0), "tmp-0");
    assert_eq!(temp_dir_name(1714000123456), "tmp-1714000123456");
}

#[test]
fn path_helpers() {
    assert_eq!(parent_of("a/b/config.json"), "a/b");
    assert_eq!(parent_of("config.json"), "");
    assert_eq!(base_name_of("/x/y/pack.zip"), "pack.zip");
    assert_eq!(base_name_of("pack.zip"), "pack.zip");
    assert_eq!(stem_of_name("pack.zip"), "pack");
    assert_eq!(stem_of_name("foo.tar.gz"), "foo.tar");
    assert_eq!(stem_of_name(".bar"), ".bar");
    assert_eq!(stem_of_name("noext"), "noext");
    assert_eq!(path_join("a/b", "c"), "a/b/c");
}

#[test]
fn pid_output_parsing() {
    assert_eq!(parse_pid_output(" 1234\n").unwrap(), Some(1234));
    assert_eq!(parse_pid_output("").unwrap(), None);
    assert_eq!(parse_pid_output("  \n").unwrap(), None);
    assert!(matches!(parse_pid_output("12x"), Err(AppError::InvalidPack(_))));
    assert!(matches!(parse_pid_output("99999999999"), Err(AppError::InvalidPack(_))));
}

#[test]
fn stop_decision_only_for_fresh_process() {
    assert_eq!(process_to_stop(None, None), None);
    assert_eq!(process_to_stop(Some(10), None), None);
    assert_eq!(process_to_stop(None, Some(11)), Some(11));
    assert_eq!(process_to_stop(Some(10), Some(11)), Some(11));
    assert_eq!(process_to_stop(Some(10), Some(10)), None);
}

#[test]
fn status_combines_observations() {
    let s = make_status(false, true, Some(3));
    assert!(!s.installed && !s.running && s.pid.is_none() && s.version.is_none());
    let s = make_status(true, false, Some(3));
    assert!(s.installed && !s.running && s.pid.is_none());
    let s = make_status(true, true, Some(3));
    assert!(s.installed && s.running && s.pid == Some(3));
}

#[test]
fn error_messages() {
    assert_eq!(AppError::WayvibesMissing.message(), "wayvibes not found");
    assert_eq!(
        AppError::InvalidPack(String::from("x")).message(),
        "invalid pack: x"
    );
    assert_eq!(AppError::Io(String::from("gone")).message(), "file access failed: gone");
}
