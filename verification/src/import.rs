//! The import orchestrator: a state machine that sequences one import —
//! validator check, format detection, staging, extraction, manifest
//! location, normalization, external validation, identifier derivation,
//! collision check, atomic commit — and rolls the staging directory back on
//! every failure. The driver around the library performs each requested
//! action on the filesystem or the process table and feeds the outcome back
//! as an event.
use vstd::prelude::*;
use vstd::string::StringExecFns;

use crate::errors::AppError;
use crate::format::{detect_archive_type, detect_spec, ArchiveFormat};
use crate::manifest::{
    json_parses, manifest_author, manifest_description, manifest_name, manifest_version,
    parse_manifest,
};
use crate::models::{PackManifest, SoundPack};
use crate::paths::{base_name, base_name_of, dir_prefix, parent_of, path_join, stem_of, stem_of_name};
use crate::slug::{slug_spec, slugify, temp_dir_name};
use crate::text::u64_digits;

verus! {

/// Where one import stands: each phase waits for the outcome of exactly one
/// action.
#[derive(Clone, Copy, PartialEq, Eq, Structural, Debug)]
pub enum Phase {
    /// Waiting to hear whether the external validator binary is installed.
    CheckingValidator,
    /// Waiting for the staging directory to be created.
    CreatingStaging,
    /// Waiting for the archive to be extracted into staging.
    Extracting,
    /// Waiting to hear whether the manifest sits at the staging root.
    CheckingRoot,
    /// Waiting for the recursive manifest search below the root.
    Searching,
    /// Waiting for the tree to be flattened around the found manifest.
    Flattening,
    /// Waiting for the post-flatten check that the manifest is now at root.
    ConfirmingRoot,
    /// Waiting for the external validator's verdict.
    Validating,
    /// Waiting for the manifest text to be read.
    ReadingManifest,
    /// Waiting to hear whether the target directory already exists.
    CheckingTarget,
    /// Waiting for the atomic rename into the permanent store.
    Committing,
    /// A failure occurred after staging was created: waiting for the
    /// staging directory to be removed before the error is surfaced.
    Cleaning,
    /// The import has finished, successfully or not.
    Done,
}

/// The outcome of one performed action, fed back to the machine. I/O
/// failures carry their message text.
pub enum ImportEvent {
    ValidatorPresent(bool),
    StagingCreated(Result<(), String>),
    ExtractDone(Result<(), AppError>),
    RootManifest(bool),
    SearchResult(Result<Option<String>, String>),
    FlattenDone(Result<(), String>),
    ValidatorRan(Result<bool, String>),
    ManifestText(Result<String, String>),
    TargetExists(bool),
    CommitDone(Result<(), String>),
    StagingRemoved,
}

/// What the driver must do next. Exactly one action comes out of each step.
pub enum ImportAction {
    /// Ask whether the external validator binary is on the path.
    CheckValidator,
    /// Create the staging directory (and its parents).
    CreateStaging { dir: String },
    /// Extract the archive into the staging directory.
    Extract { format: ArchiveFormat, archive_path: String, staging_dir: String },
    /// Ask whether a manifest exists at `path`.
    CheckRootManifest { path: String },
    /// Search every subdirectory below `root` for a manifest.
    SearchManifest { root: String },
    /// Move the contents of `manifest_dir` into `temp_dir`, delete `root`,
    /// and rename `temp_dir` to `root`.
    Flatten { root: String, manifest_dir: String, temp_dir: String },
    /// Run the external validator on the staging directory.
    RunValidator { dir: String },
    /// Read the manifest text at `path`.
    ReadManifest { path: String },
    /// Ask whether the permanent directory `dir` already exists.
    CheckTarget { dir: String },
    /// Atomically rename `from` to `to`: the single commit point.
    Commit { from: String, to: String },
    /// Recursively remove the staging directory: rollback.
    RemoveStaging { dir: String },
    /// The import succeeded; `pack` is the committed record.
    Finish { pack: SoundPack },
    /// The import failed; nothing of it remains on disk.
    Fail { error: AppError },
}

/// One import attempt.
pub struct ImportMachine {
    pub phase: Phase,
    pub archive_path: String,
    pub archive_name: String,
    pub archive_stem: String,
    pub packs_dir: String,
    pub staging_dir: String,
    pub format: Option<ArchiveFormat>,
    pub did_flatten: bool,
    pub manifest: Option<PackManifest>,
    pub pack_id: String,
    pub staging_created: bool,
    pub failure: Option<AppError>,
}

impl ImportMachine {
    /// Internal consistency: what each phase guarantees about the fields.
    pub open spec fn wf(self) -> bool {
        &&& self.archive_name@ == base_name(self.archive_path@)
        &&& self.archive_stem@ == stem_of(base_name(self.archive_path@))
        &&& (match self.phase {
            Phase::CheckingValidator => !self.staging_created,
            Phase::CreatingStaging => !self.staging_created && self.format is Some,
            Phase::Extracting
            | Phase::CheckingRoot
            | Phase::Searching
            | Phase::Flattening
            | Phase::ConfirmingRoot
            | Phase::Validating
            | Phase::ReadingManifest => self.staging_created && self.format is Some,
            Phase::CheckingTarget | Phase::Committing => {
                &&& self.staging_created
                &&& self.format is Some
                &&& self.manifest is Some
                &&& self.pack_id@ == slug_spec(self.manifest->Some_0.name@)
                &&& self.pack_id@.len() > 0
            },
            Phase::Cleaning => self.staging_created && self.failure is Some,
            Phase::Done => !self.staging_created,
        })
    }

    /// The event kinds each phase can be answered with.
    pub open spec fn accepts(self, event: ImportEvent) -> bool {
        match (self.phase, event) {
            (Phase::CheckingValidator, ImportEvent::ValidatorPresent(_)) => true,
            (Phase::CreatingStaging, ImportEvent::StagingCreated(_)) => true,
            (Phase::Extracting, ImportEvent::ExtractDone(_)) => true,
            (Phase::CheckingRoot, ImportEvent::RootManifest(_)) => true,
            (Phase::Searching, ImportEvent::SearchResult(_)) => true,
            (Phase::Flattening, ImportEvent::FlattenDone(_)) => true,
            (Phase::ConfirmingRoot, ImportEvent::RootManifest(_)) => true,
            (Phase::Validating, ImportEvent::ValidatorRan(_)) => true,
            (Phase::ReadingManifest, ImportEvent::ManifestText(_)) => true,
            (Phase::CheckingTarget, ImportEvent::TargetExists(_)) => true,
            (Phase::Committing, ImportEvent::CommitDone(_)) => true,
            (Phase::Cleaning, ImportEvent::StagingRemoved) => true,
            _ => false,
        }
    }

    /// The events that turn the current step into a failure (and, staging
    /// having been created, into a rollback).
    pub open spec fn failing(self, event: ImportEvent) -> bool {
        match event {
            ImportEvent::ExtractDone(r) => r is Err,
            ImportEvent::SearchResult(r) => match r {
                Ok(found) => found is None,
                Err(_) => true,
            },
            ImportEvent::FlattenDone(r) => r is Err,
            ImportEvent::RootManifest(found) => self.phase == Phase::ConfirmingRoot && !found,
            ImportEvent::ValidatorRan(r) => match r {
                Ok(passed) => !passed,
                Err(_) => true,
            },
            ImportEvent::ManifestText(r) => match r {
                Ok(text) => !json_parses(text@) || slug_spec(
                    manifest_name(text@, self.archive_stem@),
                ).len() == 0,
                Err(_) => true,
            },
            ImportEvent::TargetExists(found) => found,
            ImportEvent::CommitDone(r) => r is Err,
            _ => false,
        }
    }

    /// Begin one import of the archive at `archive_path` into the permanent
    /// store at `packs_dir`. The staging directory lives under a hidden
    /// in-progress area of the store and carries `now_millis` in its name.
    /// The first action to perform is `CheckValidator`.
    pub fn new(archive_path: &str, packs_dir: &str, now_millis: u64) -> (m: ImportMachine)
        ensures
            m.wf(),
            m.phase == Phase::CheckingValidator,
            m.archive_path@ == archive_path@,
            m.packs_dir@ == packs_dir@,
            m.staging_dir@ == packs_dir@ + "/"@ + ".importing"@ + "/"@ + ("tmp-"@ + u64_digits(
                now_millis as nat,
            )),
            !m.staging_created,
            !m.did_flatten,
            m.failure is None,
    {
        let name = base_name_of(archive_path);
        let stem = stem_of_name(name.as_str());
        let importing = path_join(packs_dir, ".importing");
        let staging_dir = path_join(importing.as_str(), temp_dir_name(now_millis).as_str());
        ImportMachine {
            phase: Phase::CheckingValidator,
            archive_path: archive_path.to_owned(),
            archive_name: name,
            archive_stem: stem,
            packs_dir: packs_dir.to_owned(),
            staging_dir,
            format: None,
            did_flatten: false,
            manifest: None,
            pack_id: String::new(),
            staging_created: false,
            failure: None,
        }
    }

    /// Feed back the outcome of the last action; the machine moves on and
    /// says what to do next.
    pub fn step(&mut self, event: ImportEvent) -> (action: ImportAction)
        requires
            old(self).wf(),
            old(self).accepts(event),
        ensures
            final(self).wf(),
            final(self).archive_path == old(self).archive_path,
            final(self).archive_name == old(self).archive_name,
            final(self).archive_stem == old(self).archive_stem,
            final(self).packs_dir == old(self).packs_dir,
            final(self).staging_dir == old(self).staging_dir,
            // the validator is checked before anything touches the disk:
            // when it is absent the import fails with no staging created
            (old(self).phase == Phase::CheckingValidator && event == (
            ImportEvent::ValidatorPresent(false)
            )) ==> {
                &&& action == (ImportAction::Fail { error: AppError::WayvibesMissing })
                &&& !final(self).staging_created
                &&& final(self).phase == Phase::Done
            },
            // an unrecognized suffix fails before staging too
            (old(self).phase == Phase::CheckingValidator && event == (
            ImportEvent::ValidatorPresent(true)
            )) ==> match detect_spec(old(self).archive_name@) {
                None => {
                    &&& (action matches ImportAction::Fail { error } && error matches
                        AppError::UnsupportedFormat(_))
                    &&& !final(self).staging_created
                    &&& final(self).phase == Phase::Done
                },
                Some(f) => {
                    &&& final(self).format == Some(f)
                    &&& action == (ImportAction::CreateStaging { dir: old(self).staging_dir })
                },
            },
            // each action is aimed at this import's own directories
            action matches ImportAction::Extract { format, archive_path, staging_dir } ==> {
                &&& Some(format) == final(self).format
                &&& archive_path == old(self).archive_path
                &&& staging_dir == old(self).staging_dir
            },
            action matches ImportAction::CheckRootManifest { path } ==> path@ == old(
                self,
            ).staging_dir@ + "/"@ + "config.json"@,
            action matches ImportAction::SearchManifest { root } ==> root == old(self).staging_dir,
            action matches ImportAction::RunValidator { dir } ==> dir == old(self).staging_dir,
            action matches ImportAction::ReadManifest { path } ==> path@ == old(
                self,
            ).staging_dir@ + "/"@ + "config.json"@,
            action matches ImportAction::RemoveStaging { dir } ==> dir == old(self).staging_dir,
            // the staging directory exists exactly between its confirmed
            // creation and its removal or its consumption by the commit
            // rename: no transition forgets it any other way
            final(self).staging_created == (if (event matches ImportEvent::StagingRemoved) {
                false
            } else if (event matches ImportEvent::CommitDone(Ok(_))) {
                false
            } else if (event matches ImportEvent::StagingCreated(Ok(_))) {
                true
            } else {
                old(self).staging_created
            }),
            // the success path follows the import order: each good outcome
            // leads to exactly the next step
            event matches ImportEvent::StagingCreated(Ok(_)) ==> final(self).phase
                == Phase::Extracting && (action matches ImportAction::Extract { .. }),
            event matches ImportEvent::StagingCreated(Err(m)) ==> action == (ImportAction::Fail {
                error: AppError::Io(m),
            }) && final(self).phase == Phase::Done,
            event matches ImportEvent::ExtractDone(Ok(_)) ==> final(self).phase
                == Phase::CheckingRoot && (action matches ImportAction::CheckRootManifest { .. }),
            (old(self).phase == Phase::CheckingRoot && event == (ImportEvent::RootManifest(true)))
                ==> final(self).phase == Phase::Validating && (action matches
            ImportAction::RunValidator { .. }),
            (old(self).phase == Phase::CheckingRoot && event == (ImportEvent::RootManifest(false)))
                ==> final(self).phase == Phase::Searching && (action matches
            ImportAction::SearchManifest { .. }),
            event matches ImportEvent::SearchResult(Ok(Some(_))) ==> final(self).phase
                == Phase::Flattening,
            event matches ImportEvent::FlattenDone(Ok(_)) ==> final(self).phase
                == Phase::ConfirmingRoot && (action matches ImportAction::CheckRootManifest {
                ..
            }),
            (old(self).phase == Phase::ConfirmingRoot && event == (ImportEvent::RootManifest(true)))
                ==> final(self).phase == Phase::Validating && (action matches
            ImportAction::RunValidator { .. }),
            event matches ImportEvent::ValidatorRan(Ok(true)) ==> final(self).phase
                == Phase::ReadingManifest && (action matches ImportAction::ReadManifest { .. }),
            (old(self).phase == Phase::CheckingTarget && event == (ImportEvent::TargetExists(false)))
                ==> final(self).phase == Phase::Committing,
            event matches ImportEvent::CommitDone(Ok(_)) ==> final(self).phase == Phase::Done,
            // after staging exists, every failure first removes it; the
            // error is only surfaced once the removal has been confirmed
            (old(self).staging_created && old(self).failing(event)) ==> {
                &&& action == (ImportAction::RemoveStaging { dir: old(self).staging_dir })
                &&& final(self).phase == Phase::Cleaning
                &&& final(self).failure is Some
            },
            old(self).phase == Phase::Cleaning ==> {
                &&& action == (ImportAction::Fail { error: old(self).failure->Some_0 })
                &&& final(self).phase == Phase::Done
                &&& !final(self).staging_created
            },
            // each failure records exactly what happened
            event matches ImportEvent::ExtractDone(Err(e)) ==> final(self).failure == Some(e),
            event matches ImportEvent::SearchResult(Err(m)) ==> final(self).failure == Some(
                AppError::Io(m),
            ),
            event matches ImportEvent::FlattenDone(Err(m)) ==> final(self).failure == Some(
                AppError::Io(m),
            ),
            event matches ImportEvent::ValidatorRan(Err(m)) ==> final(self).failure == Some(
                AppError::Io(m),
            ),
            event matches ImportEvent::ManifestText(Err(m)) ==> final(self).failure == Some(
                AppError::Io(m),
            ),
            event matches ImportEvent::CommitDone(Err(m)) ==> final(self).failure == Some(
                AppError::Io(m),
            ),
            // a missing manifest is an invalid pack
            (old(self).phase == Phase::Searching && event == (
            ImportEvent::SearchResult(Ok(None))
            )) ==> (final(self).failure matches Some(AppError::InvalidPack(m)) && m@
                == "config.json not found"@),
            (old(self).phase == Phase::ConfirmingRoot && event == (
            ImportEvent::RootManifest(false)
            )) ==> (final(self).failure matches Some(AppError::InvalidPack(m)) && m@
                == "config.json not found"@),
            // flattening happens exactly when the manifest was found below
            // the root, and moves the manifest's directory over the root
            (action matches ImportAction::Flatten { .. }) <==> (old(self).phase
                == Phase::Searching && event matches ImportEvent::SearchResult(Ok(Some(_)))),
            action matches ImportAction::Flatten { root, manifest_dir, temp_dir } ==> {
                &&& (event matches ImportEvent::SearchResult(Ok(Some(p))) && manifest_dir@
                    == dir_prefix(p@))
                &&& root == old(self).staging_dir
                &&& temp_dir@ == old(self).staging_dir@ + "-flat"@
                &&& final(self).did_flatten
            },
            final(self).did_flatten == (old(self).did_flatten || (old(self).phase
                == Phase::Searching && event matches ImportEvent::SearchResult(Ok(Some(_))))),
            // a validator rejection is an invalid pack, and the message
            // says when normalization had already rewritten the tree
            (old(self).phase == Phase::Validating && event == (
            ImportEvent::ValidatorRan(Ok(false))
            )) ==> (final(self).failure matches Some(AppError::InvalidPack(m)) && (old(
                self,
            ).did_flatten ==> m@
                == "pack rejected: the structure was normalized, but wayvibes still could not read it; manual fixes are needed"@)
                && (!old(self).did_flatten ==> m@
                == "pack rejected (wayvibes could not start it)"@)),
            // the manifest text decides name, version and identifier
            (event matches ImportEvent::ManifestText(Ok(text)) && old(self).phase
                == Phase::ReadingManifest && !json_parses(text@)) ==> (final(self).failure matches
                Some(AppError::Json(_))),
            (event matches ImportEvent::ManifestText(Ok(text)) && old(self).phase
                == Phase::ReadingManifest && json_parses(text@) && slug_spec(
                manifest_name(text@, old(self).archive_stem@),
            ).len() == 0) ==> (final(self).failure matches Some(AppError::InvalidPack(_))),
            (event matches ImportEvent::ManifestText(Ok(text)) && old(self).phase
                == Phase::ReadingManifest && json_parses(text@) && slug_spec(
                manifest_name(text@, old(self).archive_stem@),
            ).len() > 0) ==> {
                let text = event->ManifestText_0->Ok_0;
                &&& final(self).phase == Phase::CheckingTarget
                &&& final(self).pack_id@ == slug_spec(
                    manifest_name(text@, old(self).archive_stem@),
                )
                &&& (final(self).manifest matches Some(m) && m.name@ == manifest_name(
                    text@,
                    old(self).archive_stem@,
                ) && m.version@ == manifest_version(text@) && (match m.author {
                    Some(a) => manifest_author(text@) == Some(a@),
                    None => manifest_author(text@) is None,
                }) && (match m.description {
                    Some(d) => manifest_description(text@) == Some(d@),
                    None => manifest_description(text@) is None,
                }))
                &&& (action matches ImportAction::CheckTarget { dir } && dir@ == old(
                    self,
                ).packs_dir@ + "/"@ + final(self).pack_id@)
            },
            // a collision never overwrites: the existing directory is left
            // alone and this import's staging is rolled back
            (old(self).phase == Phase::CheckingTarget && event == (
            ImportEvent::TargetExists(true)
            )) ==> (final(self).failure matches Some(AppError::InvalidPack(m)) && m@ == "pack '"@
                + old(self).pack_id@ + "' already exists"@),
            // the commit is the single point where the store changes, and
            // only a collision-free, validated, identified import reaches it
            (action matches ImportAction::Commit { .. }) <==> (old(self).phase
                == Phase::CheckingTarget && event == (ImportEvent::TargetExists(false))),
            action matches ImportAction::Commit { from, to } ==> {
                &&& from == old(self).staging_dir
                &&& to@ == old(self).packs_dir@ + "/"@ + old(self).pack_id@
            },
            // a finished import hands out exactly the committed record
            (action matches ImportAction::Finish { .. }) <==> (event matches
            ImportEvent::CommitDone(Ok(_)) && old(self).phase == Phase::Committing),
            action matches ImportAction::Finish { pack } ==> {
                &&& pack.id@ == old(self).pack_id@
                &&& (old(self).manifest matches Some(m) && pack.name@ == m.name@ && pack.version@
                    == m.version@ && (match pack.author {
                    Some(a) => m.author matches Some(b) && a@ == b@,
                    None => m.author is None,
                }) && (match pack.description {
                    Some(d) => m.description matches Some(b) && d@ == b@,
                    None => m.description is None,
                }))
                &&& final(self).phase == Phase::Done
            },
            // however the import ends, no staging directory of it remains
            (action matches ImportAction::Fail { .. }) ==> final(self).phase == Phase::Done
                && !final(self).staging_created,
            (action matches ImportAction::Finish { .. }) ==> final(self).phase == Phase::Done
                && !final(self).staging_created,
    {
        match (self.phase, event) {
            (Phase::CheckingValidator, ImportEvent::ValidatorPresent(present)) => {
                if !present {
                    self.phase = Phase::Done;
                    ImportAction::Fail { error: AppError::WayvibesMissing }
                } else {
                    match detect_archive_type(self.archive_name.as_str()) {
                        None => {
                            self.phase = Phase::Done;
                            ImportAction::Fail {
                                error: AppError::UnsupportedFormat(
                                    String::from_str("unrecognized archive suffix"),
                                ),
                            }
                        },
                        Some(f) => {
                            self.format = Some(f);
                            self.phase = Phase::CreatingStaging;
                            ImportAction::CreateStaging { dir: self.staging_dir.clone() }
                        },
                    }
                }
            },
            (Phase::CreatingStaging, ImportEvent::StagingCreated(outcome)) => {
                match outcome {
                    Err(m) => {
                        // nothing was created, so there is nothing to roll back
                        self.phase = Phase::Done;
                        ImportAction::Fail { error: AppError::Io(m) }
                    },
                    Ok(()) => {
                        self.staging_created = true;
                        self.phase = Phase::Extracting;
                        let f = match self.format {
                            Some(f) => f,
                            None => ArchiveFormat::Zip,  // unreachable: wf gives format is Some
                        };
                        ImportAction::Extract {
                            format: f,
                            archive_path: self.archive_path.clone(),
                            staging_dir: self.staging_dir.clone(),
                        }
                    },
                }
            },
            (Phase::Extracting, ImportEvent::ExtractDone(outcome)) => {
                match outcome {
                    Err(e) => self.fail_with(e),
                    Ok(()) => {
                        self.phase = Phase::CheckingRoot;
                        ImportAction::CheckRootManifest {
                            path: path_join(self.staging_dir.as_str(), "config.json"),
                        }
                    },
                }
            },
            (Phase::CheckingRoot, ImportEvent::RootManifest(found)) => {
                if found {
                    self.phase = Phase::Validating;
                    ImportAction::RunValidator { dir: self.staging_dir.clone() }
                } else {
                    self.phase = Phase::Searching;
                    ImportAction::SearchManifest { root: self.staging_dir.clone() }
                }
            },
            (Phase::Searching, ImportEvent::SearchResult(outcome)) => {
                match outcome {
                    Err(m) => self.fail_with(AppError::Io(m)),
                    Ok(None) => self.fail_with(
                        AppError::InvalidPack(String::from_str("config.json not found")),
                    ),
                    Ok(Some(found_path)) => {
                        self.did_flatten = true;
                        self.phase = Phase::Flattening;
                        let manifest_dir = parent_of(found_path.as_str());
                        let mut temp_dir = self.staging_dir.clone();
                        temp_dir.append("-flat");
                        ImportAction::Flatten {
                            root: self.staging_dir.clone(),
                            manifest_dir,
                            temp_dir,
                        }
                    },
                }
            },
            (Phase::Flattening, ImportEvent::FlattenDone(outcome)) => {
                match outcome {
                    Err(m) => self.fail_with(AppError::Io(m)),
                    Ok(()) => {
                        self.phase = Phase::ConfirmingRoot;
                        ImportAction::CheckRootManifest {
                            path: path_join(self.staging_dir.as_str(), "config.json"),
                        }
                    },
                }
            },
            (Phase::ConfirmingRoot, ImportEvent::RootManifest(found)) => {
                if found {
                    self.phase = Phase::Validating;
                    ImportAction::RunValidator { dir: self.staging_dir.clone() }
                } else {
                    self.fail_with(AppError::InvalidPack(String::from_str("config.json not found")))
                }
            },
            (Phase::Validating, ImportEvent::ValidatorRan(outcome)) => {
                match outcome {
                    Err(m) => self.fail_with(AppError::Io(m)),
                    Ok(false) => {
                        let msg = if self.did_flatten {
                            String::from_str(
                                "pack rejected: the structure was normalized, but wayvibes still could not read it; manual fixes are needed",
                            )
                        } else {
                            String::from_str("pack rejected (wayvibes could not start it)")
                        };
                        self.fail_with(AppError::InvalidPack(msg))
                    },
                    Ok(true) => {
                        self.phase = Phase::ReadingManifest;
                        ImportAction::ReadManifest {
                            path: path_join(self.staging_dir.as_str(), "config.json"),
                        }
                    },
                }
            },
            (Phase::ReadingManifest, ImportEvent::ManifestText(outcome)) => {
                match outcome {
                    Err(m) => self.fail_with(AppError::Io(m)),
                    Ok(text) => {
                        match parse_manifest(text.as_str(), self.archive_stem.as_str()) {
                            Err(e) => self.fail_with(e),
                            Ok(m) => {
                                let id = slugify(m.name.as_str());
                                if id.as_str().unicode_len() == 0 {
                                    self.fail_with(
                                        AppError::InvalidPack(
                                            String::from_str("invalid pack name"),
                                        ),
                                    )
                                } else {
                                    let target = path_join(self.packs_dir.as_str(), id.as_str());
                                    self.pack_id = id;
                                    self.manifest = Some(m);
                                    self.phase = Phase::CheckingTarget;
                                    ImportAction::CheckTarget { dir: target }
                                }
                            },
                        }
                    },
                }
            },
            (Phase::CheckingTarget, ImportEvent::TargetExists(found)) => {
                if found {
                    let mut msg = String::from_str("pack '");
                    msg.append(self.pack_id.as_str());
                    msg.append("' already exists");
                    self.fail_with(AppError::InvalidPack(msg))
                } else {
                    self.phase = Phase::Committing;
                    ImportAction::Commit {
                        from: self.staging_dir.clone(),
                        to: path_join(self.packs_dir.as_str(), self.pack_id.as_str()),
                    }
                }
            },
            (Phase::Committing, ImportEvent::CommitDone(outcome)) => {
                match outcome {
                    Err(m) => self.fail_with(AppError::Io(m)),
                    Ok(()) => {
                        self.phase = Phase::Done;
                        // the rename consumed the staging directory
                        self.staging_created = false;
                        proof {
                            assert(self.manifest is Some);  // from wf at Committing
                        }
                        let m = match &self.manifest {
                            Some(m) => m,
                            None => {
                                proof {
                                    assert(false);
                                }
                                return ImportAction::CheckValidator;
                            },
                        };
                        ImportAction::Finish {
                            pack: SoundPack {
                                id: self.pack_id.clone(),
                                name: m.name.clone(),
                                version: m.version.clone(),
                                author: clone_opt_string(&m.author),
                                description: clone_opt_string(&m.description),
                            },
                        }
                    },
                }
            },
            (Phase::Cleaning, ImportEvent::StagingRemoved) => {
                self.phase = Phase::Done;
                self.staging_created = false;
                let e = match self.failure.take() {
                    Some(e) => e,
                    None => AppError::InvalidPack(String::new()),  // unreachable: wf gives failure is Some
                };
                ImportAction::Fail { error: e }
            },
            _ => {
                proof {
                    assert(false);
                }
                ImportAction::CheckValidator
            },
        }
    }

    /// Record the error and ask for rollback: the staging directory must go
    /// before the failure is surfaced.
    fn fail_with(&mut self, error: AppError) -> (action: ImportAction)
        requires
            old(self).staging_created,
        ensures
            *final(self) == (ImportMachine {
                phase: Phase::Cleaning,
                failure: Some(error),
                ..*old(self)
            }),
            action == (ImportAction::RemoveStaging { dir: old(self).staging_dir }),
    {
        self.phase = Phase::Cleaning;
        self.failure = Some(error);
        ImportAction::RemoveStaging { dir: self.staging_dir.clone() }
    }
}

/// Field-wise copy of an optional string.
fn clone_opt_string(s: &Option<String>) -> (r: Option<String>)
    ensures
        match r {
            Some(x) => *s matches Some(y) && x@ == y@,
            None => *s is None,
        },
{
    match s {
        Some(x) => Some(x.clone()),
        None => None,
    }
}

/// Which freshly-observed player process an import must stop after
/// validation: the one that appeared during the validator call, if the pid
/// seen afterwards differs from the one seen before.
pub fn process_to_stop(before: Option<u32>, after: Option<u32>) -> (r: Option<u32>)
    ensures
        r == if after is Some && after != before {
            after
        } else {
            None::<u32>
        },
{
    match (before, after) {
        (_, None) => None,
        (None, Some(a)) => Some(a),
        (Some(b), Some(a)) => if a != b {
            Some(a)
        } else {
            None
        },
    }
}

/// Interpret the process-lookup output: the trimmed text must be a decimal
/// pid; an empty result means no process. Mirrors how the lookup's output
/// is consumed everywhere the player's pid is needed.
pub fn parse_pid_output(raw: &str) -> (r: Result<Option<u32>, AppError>)
    ensures
        match r {
            Ok(opt) => {
                let t = trim_ws(raw@);
                match opt {
                    None => t.len() == 0,
                    Some(n) => t.len() > 0 && crate::text::all_digits(t) && n
                        == crate::text::digits_val(t),
                }
            },
            Err(e) => {
                let t = trim_ws(raw@);
                t.len() > 0 && (!crate::text::all_digits(t) || crate::text::digits_val(t)
                    > u32::MAX) && e matches AppError::InvalidPack(_)
            },
        },
{
    let chars = crate::text::str_to_chars(raw);
    proof {
        assert(chars@.skip(0) =~= chars@);
    }
    let mut start: usize = 0;
    while start < chars.len() && is_ws(chars[start])
        invariant
            start <= chars@.len(),
            chars@ == raw@,
            trim_ws_leading(chars@) == trim_ws_leading(chars@.skip(start as int)),
        decreases chars@.len() - start,
    {
        proof {
            assert(chars@.skip(start as int).skip(1) =~= chars@.skip(start as int + 1));
        }
        start = start + 1;
    }
    proof {
        assert(chars@.skip(start as int).take(chars@.len() - start as int) =~= chars@.skip(
            start as int,
        ));
    }
    let mut end: usize = chars.len();
    while end > start && is_ws(chars[end - 1])
        invariant
            start <= end <= chars@.len(),
            chars@ == raw@,
            trim_ws_leading(chars@) == trim_ws_leading(chars@.skip(start as int)),
            trim_ws(chars@) == trim_ws_trailing(
                chars@.skip(start as int).take(end - start as int),
            ),
        decreases end,
    {
        proof {
            let cur = chars@.skip(start as int).take(end - start as int);
            assert(cur.last() == chars@[end - 1]);
            assert(cur.drop_last() =~= chars@.skip(start as int).take(end - 1 - start as int));
        }
        end = end - 1;
    }
    let ghost trimmed = chars@.skip(start as int).take(end - start as int);
    proof {
        if end > start {
            assert(trimmed.last() == chars@[end - 1]);
        }
        assert(trim_ws_trailing(trimmed) == trimmed);
    }
    let mut digits: Vec<char> = Vec::new();
    let mut k: usize = start;
    while k < end
        invariant
            start <= k <= end <= chars@.len(),
            digits@ == chars@.skip(start as int).take(k - start as int),
        decreases end - k,
    {
        digits.push(chars[k]);
        proof {
            assert(digits@ =~= chars@.skip(start as int).take(k + 1 - start as int));
        }
        k = k + 1;
    }
    if digits.len() == 0 {
        return Ok(None);
    }
    match crate::text::parse_u32(&digits) {
        Some(n) => Ok(Some(n)),
        None => Err(AppError::InvalidPack(String::from_str("invalid pid"))),
    }
}

/// ASCII whitespace, as trimmed from process-lookup output.
pub open spec fn is_ws_spec(c: char) -> bool {
    c == ' ' || c == '\n' || c == '\t' || c == '\r'
}

fn is_ws(c: char) -> (r: bool)
    ensures
        r == is_ws_spec(c),
{
    c == ' ' || c == '\n' || c == '\t' || c == '\r'
}

/// Leading whitespace removed.
pub open spec fn trim_ws_leading(s: Seq<char>) -> Seq<char>
    decreases s.len(),
{
    if s.len() > 0 && is_ws_spec(s[0]) {
        trim_ws_leading(s.skip(1))
    } else {
        s
    }
}

/// Trailing whitespace removed.
pub open spec fn trim_ws_trailing(s: Seq<char>) -> Seq<char>
    decreases s.len(),
{
    if s.len() > 0 && is_ws_spec(s.last()) {
        trim_ws_trailing(s.drop_last())
    } else {
        s
    }
}

/// Whitespace removed from both ends.
pub open spec fn trim_ws(s: Seq<char>) -> Seq<char> {
    trim_ws_trailing(trim_ws_leading(s))
}

} // verus!
