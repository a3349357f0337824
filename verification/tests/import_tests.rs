use soundpacks::errors::AppError;
use soundpacks::format::ArchiveFormat;
use soundpacks::import::{ImportAction, ImportEvent, ImportMachine};

fn drive_to_searching(m: &mut ImportMachine) {
    // validator present, staging made, archive extracted, nothing at root
    let a = m.step(ImportEvent::ValidatorPresent(true));
    assert!(matches!(a, ImportAction::CreateStaging { .. }));
    let a = m.step(ImportEvent::StagingCreated(Ok(())));
    assert!(matches!(a, ImportAction::Extract { .. }));
    let a = m.step(ImportEvent::ExtractDone(Ok(())));
    assert!(matches!(a, ImportAction::CheckRootManifest { .. }));
    let a = m.step(ImportEvent::RootManifest(false));
    assert!(matches!(a, ImportAction::SearchManifest { .. }));
}

#[test]
fn missing_validator_fails_before_any_staging() {
    let mut m = ImportMachine::new("/in/pack.zip", "/store", 7);
    let a = m.step(ImportEvent::ValidatorPresent(false));
    match a {
        ImportAction::Fail { error } => assert!(matches!(error, AppError::WayvibesMissing)),
        other => panic!("expected Fail, got {:?}", action_name(&other)),
    }
}

#[test]
fn unsupported_suffix_fails_before_any_staging() {
    let mut m = ImportMachine::new("/in/notes.txt", "/store", 7);
    let a = m.step(ImportEvent::ValidatorPresent(true));
    match a {
        ImportAction::Fail { error } => {
            assert!(matches!(error, AppError::UnsupportedFormat(_)))
        },
        other => panic!("expected Fail, got {:?}", action_name(&other)),
    }
}

#[test]
fn full_import_with_normalization_commits_my_pack() {
    let mut m = ImportMachine::new("/in/My Pack.zip", "/store", 7);
    let a = m.step(ImportEvent::ValidatorPresent(true));
    match a {
        ImportAction::CreateStaging { dir } => {
            assert_eq!(dir, "/store/.importing/tmp-7");
        },
        other => panic!("expected CreateStaging, got {:?}", action_name(&other)),
    }
    let a = m.step(ImportEvent::StagingCreated(Ok(())));
    match a {
        ImportAction::Extract { format, archive_path, staging_dir } => {
            assert_eq!(format, ArchiveFormat::Zip);
            assert_eq!(archive_path, "/in/My Pack.zip");
            assert_eq!(staging_dir, "/store/.importing/tmp-7");
        },
        other => panic!("expected Extract, got {:?}", action_name(&other)),
    }
    let a = m.step(ImportEvent::ExtractDone(Ok(())));
    match a {
        ImportAction::CheckRootManifest { path } => {
            assert_eq!(path, "/store/.importing/tmp-7/config.json");
        },
        other => panic!("expected CheckRootManifest, got {:?}", action_name(&other)),
    }
    let a = m.step(ImportEvent::RootManifest(false));
    assert!(matches!(a, ImportAction::SearchManifest { .. }));
    // manifest three directories deep: normalization is triggered
    let found = "/store/.importing/tmp-7/a/b/c/config.json".to_string();
    let a = m.step(ImportEvent::SearchResult(Ok(Some(found))));
    match a {
        ImportAction::Flatten { root, manifest_dir, temp_dir } => {
            assert_eq!(root, "/store/.importing/tmp-7");
            assert_eq!(manifest_dir, "/store/.importing/tmp-7/a/b/c");
            assert_eq!(temp_dir, "/store/.importing/tmp-7-flat");
        },
        other => panic!("expected Flatten, got {:?}", action_name(&other)),
    }
    let a = m.step(ImportEvent::FlattenDone(Ok(())));
    assert!(matches!(a, ImportAction::CheckRootManifest { .. }));
    let a = m.step(ImportEvent::RootManifest(true));
    match a {
        ImportAction::RunValidator { dir } => assert_eq!(dir, "/store/.importing/tmp-7"),
        other => panic!("expected RunValidator, got {:?}", action_name(&other)),
    }
    let a = m.step(ImportEvent::ValidatorRan(Ok(true)));
    assert!(matches!(a, ImportAction::ReadManifest { .. }));
    let text = "{\"name\":\"My Pack!!\",\"version\":\"2.0\"}".to_string();
    let a = m.step(ImportEvent::ManifestText(Ok(text)));
    match a {
        ImportAction::CheckTarget { dir } => assert_eq!(dir, "/store/my-pack"),
        other => panic!("expected CheckTarget, got {:?}", action_name(&other)),
    }
    let a = m.step(ImportEvent::TargetExists(false));
    match a {
        ImportAction::Commit { from, to } => {
            assert_eq!(from, "/store/.importing/tmp-7");
            assert_eq!(to, "/store/my-pack");
        },
        other => panic!("expected Commit, got {:?}", action_name(&other)),
    }
    let a = m.step(ImportEvent::CommitDone(Ok(())));
    match a {
        ImportAction::Finish { pack } => {
            assert_eq!(pack.id, "my-pack");
            assert_eq!(pack.name, "My Pack!!");
            assert_eq!(pack.version, "2.0");
            assert!(pack.author.is_none());
        },
        other => panic!("expected Finish, got {:?}", action_name(&other)),
    }
}

#[test]
fn collision_rolls_back_and_fails_without_touching_target() {
    let mut m = ImportMachine::new("/in/pack.zip", "/store", 1);
    drive_to_searching(&mut m);
    let a = m.step(ImportEvent::SearchResult(Ok(Some(
        "/store/.importing/tmp-1/w/config.json".to_string(),
    ))));
    assert!(matches!(a, ImportAction::Flatten { .. }));
    let a = m.step(ImportEvent::FlattenDone(Ok(())));
    assert!(matches!(a, ImportAction::CheckRootManifest { .. }));
    let a = m.step(ImportEvent::RootManifest(true));
    assert!(matches!(a, ImportAction::RunValidator { .. }));
    let a = m.step(ImportEvent::ValidatorRan(Ok(true)));
    assert!(matches!(a, ImportAction::ReadManifest { .. }));
    let a = m.step(ImportEvent::ManifestText(Ok("{\"name\":\"Taken\"}".to_string())));
    assert!(matches!(a, ImportAction::CheckTarget { .. }));
    // the target directory already exists: rollback, then the error
    let a = m.step(ImportEvent::TargetExists(true));
    match a {
        ImportAction::RemoveStaging { dir } => assert_eq!(dir, "/store/.importing/tmp-1"),
        other => panic!("expected RemoveStaging, got {:?}", action_name(&other)),
    }
    let a = m.step(ImportEvent::StagingRemoved);
    match a {
        ImportAction::Fail { error } => match error {
            AppError::InvalidPack(msg) => assert!(msg.contains("taken")),
            e => panic!("expected InvalidPack, got {}", e.message()),
        },
        other => panic!("expected Fail, got {:?}", action_name(&other)),
    }
}

#[test]
fn missing_manifest_rolls_back_and_fails() {
    let mut m = ImportMachine::new("/in/pack.zip", "/store", 2);
    drive_to_searching(&mut m);
    let a = m.step(ImportEvent::SearchResult(Ok(None)));
    assert!(matches!(a, ImportAction::RemoveStaging { .. }));
    let a = m.step(ImportEvent::StagingRemoved);
    match a {
        ImportAction::Fail { error } => assert!(matches!(error, AppError::InvalidPack(_))),
        other => panic!("expected Fail, got {:?}", action_name(&other)),
    }
}

#[test]
fn validator_rejection_message_mentions_normalization_only_after_flatten() {
    // without flatten
    let mut m = ImportMachine::new("/in/pack.zip", "/store", 3);
    let _ = m.step(ImportEvent::ValidatorPresent(true));
    let _ = m.step(ImportEvent::StagingCreated(Ok(())));
    let _ = m.step(ImportEvent::ExtractDone(Ok(())));
    let _ = m.step(ImportEvent::RootManifest(true));
    let _ = m.step(ImportEvent::ValidatorRan(Ok(false)));
    let a = m.step(ImportEvent::StagingRemoved);
    match a {
        ImportAction::Fail { error } => match error {
            AppError::InvalidPack(msg) => assert!(!msg.contains("normalized")),
            e => panic!("expected InvalidPack, got {}", e.message()),
        },
        other => panic!("expected Fail, got {:?}", action_name(&other)),
    }
    // with flatten
    let mut m = ImportMachine::new("/in/pack.zip", "/store", 4);
    drive_to_searching(&mut m);
    let _ = m.step(ImportEvent::SearchResult(Ok(Some(
        "/store/.importing/tmp-4/w/config.json".to_string(),
    ))));
    let _ = m.step(ImportEvent::FlattenDone(Ok(())));
    let _ = m.step(ImportEvent::RootManifest(true));
    let _ = m.step(ImportEvent::ValidatorRan(Ok(false)));
    let a = m.step(ImportEvent::StagingRemoved);
    match a {
        ImportAction::Fail { error } => match error {
            AppError::InvalidPack(msg) => assert!(msg.contains("normalized")),
            e => panic!("expected InvalidPack, got {}", e.message()),
        },
        other => panic!("expected Fail, got {:?}", action_name(&other)),
    }
}

#[test]
fn extraction_failure_rolls_back() {
    let mut m = ImportMachine::new("/in/pack.zip", "/store", 5);
    let _ = m.step(ImportEvent::ValidatorPresent(true));
    let _ = m.step(ImportEvent::StagingCreated(Ok(())));
    let a = m.step(ImportEvent::ExtractDone(Err(AppError::Zip("bad".to_string()))));
    assert!(matches!(a, ImportAction::RemoveStaging { .. }));
    let a = m.step(ImportEvent::StagingRemoved);
    match a {
        ImportAction::Fail { error } => assert!(matches!(error, AppError::Zip(_))),
        other => panic!("expected Fail, got {:?}", action_name(&other)),
    }
}

#[test]
fn empty_slug_is_rejected() {
    let mut m = ImportMachine::new("/in/pack.zip", "/store", 6);
    let _ = m.step(ImportEvent::ValidatorPresent(true));
    let _ = m.step(ImportEvent::StagingCreated(Ok(())));
    let _ = m.step(ImportEvent::ExtractDone(Ok(())));
    let _ = m.step(ImportEvent::RootManifest(true));
    let _ = m.step(ImportEvent::ValidatorRan(Ok(true)));
    let a = m.step(ImportEvent::ManifestText(Ok("{\"name\":\"!!!\"}".to_string())));
    assert!(matches!(a, ImportAction::RemoveStaging { .. }));
    let a = m.step(ImportEvent::StagingRemoved);
    match a {
        ImportAction::Fail { error } => assert!(matches!(error, AppError::InvalidPack(_))),
        other => panic!("expected Fail, got {:?}", action_name(&other)),
    }
}

fn action_name(a: &ImportAction) -> &'static str {
    match a {
        ImportAction::CheckValidator => "CheckValidator",
        ImportAction::CreateStaging { .. } => "CreateStaging",
        ImportAction::Extract { .. } => "Extract",
        ImportAction::CheckRootManifest { .. } => "CheckRootManifest",
        ImportAction::SearchManifest { .. } => "SearchManifest",
        ImportAction::Flatten { .. } => "Flatten",
        ImportAction::RunValidator { .. } => "RunValidator",
        ImportAction::ReadManifest { .. } => "ReadManifest",
        ImportAction::CheckTarget { .. } => "CheckTarget",
        ImportAction::Commit { .. } => "Commit",
        ImportAction::RemoveStaging { .. } => "RemoveStaging",
        ImportAction::Finish { .. } => "Finish",
        ImportAction::Fail { .. } => "Fail",
    }
}
