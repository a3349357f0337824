use soundpacks::errors::AppError;
use soundpacks::listing::{build_pack_list, delete_pack_outcome};
use soundpacks::manifest::parse_manifest;

#[test]
fn deleting_a_missing_pack_is_refused() {
    assert!(matches!(
        delete_pack_outcome(false),
        Err(AppError::InvalidPack(_))
    ));
    assert!(delete_pack_outcome(true).is_ok());
}

#[test]
fn manifest_full_fields() {
    let m = parse_manifest(
        "{\"name\":\"My Pack!!\",\"version\":\"2.0\",\"author\":\"ann\",\"description\":\"d\"}",
        "fallback",
    )
    .unwrap();
    assert_eq!(m.name, "My Pack!!");
    assert_eq!(m.version, "2.0");
    assert_eq!(m.author.as_deref(), Some("ann"));
    assert_eq!(m.description.as_deref(), Some("d"));
}

#[test]
fn manifest_defaults_apply() {
    let m = parse_manifest("{}", "pack-file").unwrap();
    assert_eq!(m.name, "pack-file");
    assert_eq!(m.version, "1.0.0");
    assert!(m.author.is_none());
    assert!(m.description.is_none());
}

#[test]
fn manifest_ignores_unknown_and_nonstring_fields() {
    let m = parse_manifest(
        "{\"name\":5,\"version\":true,\"color\":\"red\"}",
        "base",
    )
    .unwrap();
    assert_eq!(m.name, "base");
    assert_eq!(m.version, "1.0.0");
}

#[test]
fn manifest_rejects_malformed_json() {
    assert!(matches!(
        parse_manifest("{not json", "f"),
        Err(AppError::Json(_))
    ));
}

#[test]
fn listing_builds_sorted_records() {
    let dirs: Vec<(String, Option<String>)> = vec![
        (
            "zulu".to_string(),
            Some("{\"name\":\"Zulu\",\"version\":\"3\"}".to_string()),
        ),
        ("no-manifest".to_string(), None),
        (
            "alpha".to_string(),
            Some("{\"name\":\"alpha\"}".to_string()),
        ),
        ("bare".to_string(), Some("{}".to_string())),
    ];
    let packs = build_pack_list(&dirs).unwrap();
    assert_eq!(packs.len(), 3);
    let names: Vec<&str> = packs.iter().map(|p| p.name.as_str()).collect();
    assert_eq!(names, vec!["alpha", "bare", "Zulu"]);
    assert_eq!(packs[0].id, "alpha");
    assert_eq!(packs[1].id, "bare");
    assert_eq!(packs[1].version, "1.0.0");
    assert_eq!(packs[2].id, "zulu");
    assert_eq!(packs[2].version, "3");
}

#[test]
fn listing_sorts_case_insensitively() {
    let dirs: Vec<(String, Option<String>)> = vec![
        ("b".to_string(), Some("{\"name\":\"bB\"}".to_string())),
        ("a".to_string(), Some("{\"name\":\"AA\"}".to_string())),
        ("c".to_string(), Some("{\"name\":\"ab\"}".to_string())),
    ];
    let packs = build_pack_list(&dirs).unwrap();
    let names: Vec<&str> = packs.iter().map(|p| p.name.as_str()).collect();
    assert_eq!(names, vec!["AA", "ab", "bB"]);
}

#[test]
fn listing_fails_on_malformed_manifest() {
    let dirs: Vec<(String, Option<String>)> = vec![
        ("good".to_string(), Some("{}".to_string())),
        ("bad".to_string(), Some("{oops".to_string())),
    ];
    assert!(matches!(build_pack_list(&dirs), Err(AppError::Json(_))));
}
