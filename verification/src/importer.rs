//! The snapshot importer's decision logic.
//!
//! Importing lands a validated archive in the managed directory. The choice
//! among hardlink, symlink, copy, move, download and transcode is a state
//! machine over filesystem outcomes: the machine decides, the surrounding
//! runner performs the filesystem and network actions and reports each
//! outcome back as an event.
//!
//! The machine also tracks a model of the visible filesystem effects — the
//! staging temp files and the final destination file — which carries the
//! atomicity argument: a finished import leaves no temp file behind, and a
//! failed import leaves no destination file, whatever the error; a commit
//! whose archive then fails to load is removed again before the machine
//! fails.

use vstd::prelude::*;

verus! {

use crate::forest::has_forest_car_ext;

/// How a snapshot is brought into the managed directory.
#[derive(Debug, Clone, Copy, PartialEq, Eq, Structural)]
pub enum ImportMode {
    /// Hard link the snapshot, falling back to `Copy` when not applicable.
    Auto,
    /// Copy the snapshot into the database directory.
    Copy,
    /// Move the snapshot into the database directory (or copy and delete
    /// the original).
    Move,
    /// Create a symbolic link to the snapshot in the database directory.
    Symlink,
    /// Create a hard link to the snapshot in the database directory.
    Hardlink,
}

impl Default for ImportMode {
    /// The default mode is `Auto`.
    fn default() -> (r: ImportMode)
        ensures
            r == ImportMode::Auto,
    {
        ImportMode::Auto
    }
}

impl ImportMode {
    /// The mode's lower-case name.
    pub fn name(&self) -> (r: String)
        ensures
            match self {
                ImportMode::Auto => r@ == "auto"@,
                ImportMode::Copy => r@ == "copy"@,
                ImportMode::Move => r@ == "move"@,
                ImportMode::Symlink => r@ == "symlink"@,
                ImportMode::Hardlink => r@ == "hardlink"@,
            },
    {
        match self {
            ImportMode::Auto => "auto".to_owned(),
            ImportMode::Copy => "copy".to_owned(),
            ImportMode::Move => "move".to_owned(),
            ImportMode::Symlink => "symlink".to_owned(),
            ImportMode::Hardlink => "hardlink".to_owned(),
        }
    }
}

/// Why an import failed.
#[derive(Debug, Clone, Copy, PartialEq, Eq, Structural)]
pub enum ImportError {
    /// The source (or a staged temp file) could not be opened.
    SourceOpenFailed,
    /// A link mode was asked of a source that is not a valid forest car.
    NotForestCar,
    /// Creating the hard link failed.
    HardlinkFailed,
    /// Creating the symbolic link failed.
    SymlinkFailed,
    /// The download failed.
    DownloadFailed,
    /// Moving or copying the source into the staging temp failed.
    StageFailed,
    /// Re-encoding the staged file into a forest car failed.
    TranscodeFailed,
    /// The atomic rename of the temp into place failed.
    PersistFailed,
    /// The committed archive could not be opened or its heaviest tipset
    /// could not be loaded.
    TipsetLoadFailed,
}

impl ImportError {
    /// A short human-readable description, for callers that print errors.
    pub fn message(&self) -> (r: String)
        ensures
            match self {
                ImportError::SourceOpenFailed => r@ == "error opening snapshot file"@,
                ImportError::NotForestCar => r@
                    == "Snapshot file must be a valid forest.car.zst file"@,
                ImportError::HardlinkFailed => r@ == "Error creating hardlink"@,
                ImportError::SymlinkFailed => r@ == "Error creating symlink"@,
                ImportError::DownloadFailed => r@ == "error downloading snapshot"@,
                ImportError::StageFailed => r@ == "Error copying file"@,
                ImportError::TranscodeFailed => r@ == "error transcoding snapshot"@,
                ImportError::PersistFailed => r@ == "error persisting snapshot"@,
                ImportError::TipsetLoadFailed => r@ == "error loading heaviest tipset"@,
            },
    {
        match self {
            ImportError::SourceOpenFailed => "error opening snapshot file".to_owned(),
            ImportError::NotForestCar => {
                "Snapshot file must be a valid forest.car.zst file".to_owned()
            }
            ImportError::HardlinkFailed => "Error creating hardlink".to_owned(),
            ImportError::SymlinkFailed => "Error creating symlink".to_owned(),
            ImportError::DownloadFailed => "error downloading snapshot".to_owned(),
            ImportError::StageFailed => "Error copying file".to_owned(),
            ImportError::TranscodeFailed => "error transcoding snapshot".to_owned(),
            ImportError::PersistFailed => "error persisting snapshot".to_owned(),
            ImportError::TipsetLoadFailed => "error loading heaviest tipset".to_owned(),
        }
    }
}

/// Where the import stands; every stage but `Done` and `Failed` awaits one
/// event.
#[derive(Debug, Clone, Copy, PartialEq, Eq, Structural)]
pub enum ImportStage {
    /// Awaiting the source validity check. With `fallback`, an invalid
    /// source falls back to copying; without it, it is rejected.
    CheckingSource { fallback: bool },
    /// Awaiting the link outcome. `soft` distinguishes symlink from
    /// hardlink; with `auto_fallback`, a failed hardlink falls back to
    /// copying.
    Linking { soft: bool, auto_fallback: bool },
    /// Awaiting the staging outcome: a download, or a file move or copy,
    /// into the primary temp.
    Staging { download: bool },
    /// Awaiting the staged file's validity check.
    CheckingTemp,
    /// Awaiting the transcode of the primary temp into the second temp.
    Transcoding,
    /// Awaiting the atomic rename into place.
    Persisting { from_second: bool },
    /// Awaiting the heaviest tipset of the committed archive.
    LoadingTipset,
    /// The committed archive failed to load; awaiting the removal of the
    /// destination file, so that a failed import leaves none behind.
    RemovingFinal,
    /// The import finished.
    Done,
    /// The import failed.
    Failed { error: ImportError },
}

/// What the runner is asked to do next.
#[derive(Debug, Clone, Copy, PartialEq, Eq, Structural)]
pub enum ImportAction {
    /// Open the source and check whether it is a valid forest car.
    CheckSource,
    /// Download the source URL into the primary temp, resumably.
    Download,
    /// Move (or copy) the source file into the primary temp.
    StageFile { move_it: bool },
    /// Hard link the source to the destination path.
    Hardlink,
    /// Symbolically link the absolute source path to the destination path.
    Symlink,
    /// Check whether the primary temp is a valid forest car.
    CheckTemp,
    /// Re-encode the primary temp into the second temp as a forest car.
    Transcode,
    /// Atomically rename a temp into the destination path.
    Persist { from_second: bool },
    /// Open the destination and load its heaviest tipset.
    LoadTipset,
    /// Remove the destination file: the committed archive failed to load
    /// and must not be left behind.
    RemoveFinal,
    /// Stop: the import succeeded.
    Finish,
    /// Stop: the import failed.
    Fail { error: ImportError },
}

/// What the runner reports back.
#[derive(Debug, Clone, Copy, PartialEq, Eq, Structural)]
pub enum ImportEvent {
    /// The source check: `None` when the source could not be opened,
    /// otherwise whether it is a valid forest car.
    SourceChecked(Option<bool>),
    /// Whether the link was created.
    LinkDone(bool),
    /// Whether staging (download, move or copy) succeeded.
    Staged(bool),
    /// The temp check: `None` when the temp could not be opened, otherwise
    /// whether it is a valid forest car.
    TempChecked(Option<bool>),
    /// Whether the transcode succeeded.
    Transcoded(bool),
    /// Whether the atomic rename succeeded.
    Persisted(bool),
    /// Whether the heaviest tipset was loaded.
    TipsetLoaded(bool),
    /// The destination file was removed. The runner deletes it and
    /// reports back; it must not report a deletion it did not make.
    FinalRemoved,
}

/// The import machine: the mode, the current stage, and the model of the
/// visible filesystem effects.
#[derive(Debug, Clone, Copy, PartialEq, Eq, Structural)]
pub struct ImportMachine {
    /// The requested mode.
    pub mode: ImportMode,
    /// Whether the source is a URL rather than a local path.
    pub source_is_url: bool,
    /// Where the import stands.
    pub stage: ImportStage,
    /// The primary staging temp exists and has not been renamed away.
    pub temp_primary: bool,
    /// The transcode temp exists and has not been renamed away.
    pub temp_second: bool,
    /// The destination file exists.
    pub final_present: bool,
}

/// The stage awaits exactly this kind of event.
pub open spec fn event_fits(stage: ImportStage, ev: ImportEvent) -> bool {
    match (stage, ev) {
        (ImportStage::CheckingSource { .. }, ImportEvent::SourceChecked(_)) => true,
        (ImportStage::Linking { .. }, ImportEvent::LinkDone(_)) => true,
        (ImportStage::Staging { .. }, ImportEvent::Staged(_)) => true,
        (ImportStage::CheckingTemp, ImportEvent::TempChecked(_)) => true,
        (ImportStage::Transcoding, ImportEvent::Transcoded(_)) => true,
        (ImportStage::Persisting { .. }, ImportEvent::Persisted(_)) => true,
        (ImportStage::LoadingTipset, ImportEvent::TipsetLoaded(_)) => true,
        (ImportStage::RemovingFinal, ImportEvent::FinalRemoved) => true,
        _ => false,
    }
}

/// The machine's invariant: a finished import holds the destination and
/// no temp; a failed import holds neither a temp nor the destination,
/// whatever the error; before the commit the destination does not exist,
/// and between the commit and a terminal stage it does.
pub open spec fn machine_inv(m: ImportMachine) -> bool {
    match m.stage {
        ImportStage::Done => m.final_present && !m.temp_primary && !m.temp_second,
        ImportStage::Failed { error } => !m.temp_primary && !m.temp_second && !m.final_present,
        ImportStage::LoadingTipset => m.final_present,
        ImportStage::RemovingFinal => m.final_present,
        _ => !m.final_present,
    }
}

/// The first stage and action for a mode and source kind: link modes check
/// the source first; `Auto` checks files and downloads URLs; `Copy` and
/// `Move` stage directly.
pub open spec fn start_spec(mode: ImportMode, source_is_url: bool) -> (
    ImportStage,
    ImportAction,
) {
    match mode {
        ImportMode::Auto => {
            if source_is_url {
                (ImportStage::Staging { download: true }, ImportAction::Download)
            } else {
                (ImportStage::CheckingSource { fallback: true }, ImportAction::CheckSource)
            }
        }
        ImportMode::Copy | ImportMode::Move => {
            if source_is_url {
                (ImportStage::Staging { download: true }, ImportAction::Download)
            } else {
                (
                    ImportStage::Staging { download: false },
                    ImportAction::StageFile { move_it: mode is Move },
                )
            }
        }
        ImportMode::Symlink | ImportMode::Hardlink => {
            (ImportStage::CheckingSource { fallback: false }, ImportAction::CheckSource)
        }
    }
}

/// One transition: the machine after the event, and the next action.
pub open spec fn step_spec(m: ImportMachine, ev: ImportEvent) -> (ImportMachine, ImportAction) {
    match (m.stage, ev) {
        (ImportStage::CheckingSource { fallback }, ImportEvent::SourceChecked(outcome)) => {
            match outcome {
                None => fail_spec(m, ImportError::SourceOpenFailed),
                Some(true) => {
                    if fallback {
                        (
                            ImportMachine {
                                stage: ImportStage::Linking { soft: false, auto_fallback: true },
                                ..m
                            },
                            ImportAction::Hardlink,
                        )
                    } else if m.mode is Symlink {
                        (
                            ImportMachine {
                                stage: ImportStage::Linking { soft: true, auto_fallback: false },
                                ..m
                            },
                            ImportAction::Symlink,
                        )
                    } else {
                        (
                            ImportMachine {
                                stage: ImportStage::Linking { soft: false, auto_fallback: false },
                                ..m
                            },
                            ImportAction::Hardlink,
                        )
                    }
                }
                Some(false) => {
                    if fallback {
                        (
                            ImportMachine { stage: ImportStage::Staging { download: false }, ..m },
                            ImportAction::StageFile { move_it: false },
                        )
                    } else {
                        fail_spec(m, ImportError::NotForestCar)
                    }
                }
            }
        }
        (ImportStage::Linking { soft, auto_fallback }, ImportEvent::LinkDone(ok)) => {
            if ok {
                (
                    ImportMachine {
                        stage: ImportStage::LoadingTipset,
                        final_present: true,
                        ..m
                    },
                    ImportAction::LoadTipset,
                )
            } else if auto_fallback {
                (
                    ImportMachine { stage: ImportStage::Staging { download: false }, ..m },
                    ImportAction::StageFile { move_it: false },
                )
            } else if soft {
                fail_spec(m, ImportError::SymlinkFailed)
            } else {
                fail_spec(m, ImportError::HardlinkFailed)
            }
        }
        (ImportStage::Staging { download }, ImportEvent::Staged(ok)) => {
            if ok {
                (
                    ImportMachine { stage: ImportStage::CheckingTemp, temp_primary: true, ..m },
                    ImportAction::CheckTemp,
                )
            } else if download {
                fail_spec(m, ImportError::DownloadFailed)
            } else {
                fail_spec(m, ImportError::StageFailed)
            }
        }
        (ImportStage::CheckingTemp, ImportEvent::TempChecked(outcome)) => {
            match outcome {
                None => fail_spec(m, ImportError::SourceOpenFailed),
                Some(true) => (
                    ImportMachine { stage: ImportStage::Persisting { from_second: false }, ..m },
                    ImportAction::Persist { from_second: false },
                ),
                Some(false) => (
                    ImportMachine { stage: ImportStage::Transcoding, ..m },
                    ImportAction::Transcode,
                ),
            }
        }
        (ImportStage::Transcoding, ImportEvent::Transcoded(ok)) => {
            if ok {
                (
                    ImportMachine {
                        stage: ImportStage::Persisting { from_second: true },
                        temp_second: true,
                        ..m
                    },
                    ImportAction::Persist { from_second: true },
                )
            } else {
                fail_spec(m, ImportError::TranscodeFailed)
            }
        }
        (ImportStage::Persisting { from_second }, ImportEvent::Persisted(ok)) => {
            if ok {
                (
                    ImportMachine {
                        stage: ImportStage::LoadingTipset,
                        final_present: true,
                        temp_primary: if from_second {
                            m.temp_primary
                        } else {
                            false
                        },
                        temp_second: false,
                        ..m
                    },
                    ImportAction::LoadTipset,
                )
            } else {
                fail_spec(m, ImportError::PersistFailed)
            }
        }
        (ImportStage::LoadingTipset, ImportEvent::TipsetLoaded(ok)) => {
            if ok {
                (
                    ImportMachine {
                        stage: ImportStage::Done,
                        temp_primary: false,
                        temp_second: false,
                        ..m
                    },
                    ImportAction::Finish,
                )
            } else {
                (
                    ImportMachine { stage: ImportStage::RemovingFinal, ..m },
                    ImportAction::RemoveFinal,
                )
            }
        }
        (ImportStage::RemovingFinal, ImportEvent::FinalRemoved) => {
            (
                ImportMachine {
                    stage: ImportStage::Failed { error: ImportError::TipsetLoadFailed },
                    temp_primary: false,
                    temp_second: false,
                    final_present: false,
                    ..m
                },
                ImportAction::Fail { error: ImportError::TipsetLoadFailed },
            )
        }
        _ => (m, ImportAction::Fail { error: ImportError::SourceOpenFailed }),
    }
}

/// A failing transition: the temps are dropped (and so deleted), the stage
/// records the error.
pub open spec fn fail_spec(m: ImportMachine, error: ImportError) -> (
    ImportMachine,
    ImportAction,
) {
    (
        ImportMachine {
            stage: ImportStage::Failed { error },
            temp_primary: false,
            temp_second: false,
            ..m
        },
        ImportAction::Fail { error },
    )
}

impl ImportMachine {
    /// Begins an import of `from_path` under `mode`. Whether the source is
    /// a URL is decided by the URL parser.
    pub fn start(mode: ImportMode, from_path: &[u8]) -> (r: (ImportMachine, ImportAction))
        ensures
            r.0.mode == mode,
            r.0.source_is_url == is_url_text(from_path@),
            !r.0.temp_primary && !r.0.temp_second && !r.0.final_present,
            (r.0.stage, r.1) == start_spec(mode, is_url_text(from_path@)),
            machine_inv(r.0),
    {
        let source_is_url = parse_is_url(from_path);
        let (stage, action): (ImportStage, ImportAction) = match mode {
            ImportMode::Auto => {
                if source_is_url {
                    (ImportStage::Staging { download: true }, ImportAction::Download)
                } else {
                    (ImportStage::CheckingSource { fallback: true }, ImportAction::CheckSource)
                }
            }
            ImportMode::Copy | ImportMode::Move => {
                if source_is_url {
                    (ImportStage::Staging { download: true }, ImportAction::Download)
                } else {
                    (
                        ImportStage::Staging { download: false },
                        ImportAction::StageFile { move_it: matches!(mode, ImportMode::Move) },
                    )
                }
            }
            ImportMode::Symlink | ImportMode::Hardlink => {
                (ImportStage::CheckingSource { fallback: false }, ImportAction::CheckSource)
            }
        };
        (
            ImportMachine {
                mode,
                source_is_url,
                stage,
                temp_primary: false,
                temp_second: false,
                final_present: false,
            },
            action,
        )
    }

    /// Feeds one outcome back into the machine and yields the next action.
    pub fn step(&mut self, ev: ImportEvent) -> (a: ImportAction)
        requires
            event_fits(old(self).stage, ev),
            machine_inv(*old(self)),
        ensures
            (*final(self), a) == step_spec(*old(self), ev),
            machine_inv(*final(self)),
    {
        let m = *self;
        let (m2, a): (ImportMachine, ImportAction) = match (m.stage, ev) {
            (ImportStage::CheckingSource { fallback }, ImportEvent::SourceChecked(outcome)) => {
                match outcome {
                    None => fail_step(m, ImportError::SourceOpenFailed),
                    Some(true) => {
                        if fallback {
                            (
                                ImportMachine {
                                    stage: ImportStage::Linking {
                                        soft: false,
                                        auto_fallback: true,
                                    },
                                    ..m
                                },
                                ImportAction::Hardlink,
                            )
                        } else if matches!(m.mode, ImportMode::Symlink) {
                            (
                                ImportMachine {
                                    stage: ImportStage::Linking {
                                        soft: true,
                                        auto_fallback: false,
                                    },
                                    ..m
                                },
                                ImportAction::Symlink,
                            )
                        } else {
                            (
                                ImportMachine {
                                    stage: ImportStage::Linking {
                                        soft: false,
                                        auto_fallback: false,
                                    },
                                    ..m
                                },
                                ImportAction::Hardlink,
                            )
                        }
                    }
                    Some(false) => {
                        if fallback {
                            (
                                ImportMachine {
                                    stage: ImportStage::Staging { download: false },
                                    ..m
                                },
                                ImportAction::StageFile { move_it: false },
                            )
                        } else {
                            fail_step(m, ImportError::NotForestCar)
                        }
                    }
                }
            }
            (ImportStage::Linking { soft, auto_fallback }, ImportEvent::LinkDone(ok)) => {
                if ok {
                    (
                        ImportMachine {
                            stage: ImportStage::LoadingTipset,
                            final_present: true,
                            ..m
                        },
                        ImportAction::LoadTipset,
                    )
                } else if auto_fallback {
                    (
                        ImportMachine { stage: ImportStage::Staging { download: false }, ..m },
                        ImportAction::StageFile { move_it: false },
                    )
                } else if soft {
                    fail_step(m, ImportError::SymlinkFailed)
                } else {
                    fail_step(m, ImportError::HardlinkFailed)
                }
            }
            (ImportStage::Staging { download }, ImportEvent::Staged(ok)) => {
                if ok {
                    (
                        ImportMachine {
                            stage: ImportStage::CheckingTemp,
                            temp_primary: true,
                            ..m
                        },
                        ImportAction::CheckTemp,
                    )
                } else if download {
                    fail_step(m, ImportError::DownloadFailed)
                } else {
                    fail_step(m, ImportError::StageFailed)
                }
            }
            (ImportStage::CheckingTemp, ImportEvent::TempChecked(outcome)) => {
                match outcome {
                    None => fail_step(m, ImportError::SourceOpenFailed),
                    Some(true) => (
                        ImportMachine {
                            stage: ImportStage::Persisting { from_second: false },
                            ..m
                        },
                        ImportAction::Persist { from_second: false },
                    ),
                    Some(false) => (
                        ImportMachine { stage: ImportStage::Transcoding, ..m },
                        ImportAction::Transcode,
                    ),
                }
            }
            (ImportStage::Transcoding, ImportEvent::Transcoded(ok)) => {
                if ok {
                    (
                        ImportMachine {
                            stage: ImportStage::Persisting { from_second: true },
                            temp_second: true,
                            ..m
                        },
                        ImportAction::Persist { from_second: true },
                    )
                } else {
                    fail_step(m, ImportError::TranscodeFailed)
                }
            }
            (ImportStage::Persisting { from_second }, ImportEvent::Persisted(ok)) => {
                if ok {
                    (
                        ImportMachine {
                            stage: ImportStage::LoadingTipset,
                            final_present: true,
                            temp_primary: if from_second {
                                m.temp_primary
                            } else {
                                false
                            },
                            temp_second: false,
                            ..m
                        },
                        ImportAction::LoadTipset,
                    )
                } else {
                    fail_step(m, ImportError::PersistFailed)
                }
            }
            (ImportStage::LoadingTipset, ImportEvent::TipsetLoaded(ok)) => {
                if ok {
                    (
                        ImportMachine {
                            stage: ImportStage::Done,
                            temp_primary: false,
                            temp_second: false,
                            ..m
                        },
                        ImportAction::Finish,
                    )
                } else {
                    (
                        ImportMachine { stage: ImportStage::RemovingFinal, ..m },
                        ImportAction::RemoveFinal,
                    )
                }
            }
            (ImportStage::RemovingFinal, ImportEvent::FinalRemoved) => {
                (
                    ImportMachine {
                        stage: ImportStage::Failed { error: ImportError::TipsetLoadFailed },
                        temp_primary: false,
                        temp_second: false,
                        final_present: false,
                        ..m
                    },
                    ImportAction::Fail { error: ImportError::TipsetLoadFailed },
                )
            }
            _ => (m, ImportAction::Fail { error: ImportError::SourceOpenFailed }),
        };
        *self = m2;
        a
    }
}

/// The executable form of [`fail_spec`].
fn fail_step(m: ImportMachine, error: ImportError) -> (r: (ImportMachine, ImportAction))
    ensures
        r == fail_spec(m, error),
{
    (
        ImportMachine {
            stage: ImportStage::Failed { error },
            temp_primary: false,
            temp_second: false,
            ..m
        },
        ImportAction::Fail { error },
    )
}

/// Import atomicity, the success half: a finished import holds the
/// destination file and has no temp file left.
pub proof fn lemma_import_success_is_clean(m: ImportMachine)
    requires
        machine_inv(m),
        m.stage is Done,
    ensures
        m.final_present,
        !m.temp_primary,
        !m.temp_second,
{
}

/// Import atomicity, the failure half: a failed import leaves neither a
/// temp file nor the destination file, whatever the error. A commit that
/// later fails to load is removed again before the machine fails.
pub proof fn lemma_import_failure_is_clean(m: ImportMachine, error: ImportError)
    requires
        machine_inv(m),
        m.stage == (ImportStage::Failed { error }),
    ensures
        !m.final_present,
        !m.temp_primary,
        !m.temp_second,
{
}

/// A link mode on a source that is not a valid forest car is rejected, and
/// rejected without touching the filesystem model.
pub proof fn lemma_link_mode_rejects_invalid(m: ImportMachine, ev: ImportEvent)
    requires
        machine_inv(m),
        m.stage == (ImportStage::CheckingSource { fallback: false }),
        ev == ImportEvent::SourceChecked(Some(false)),
    ensures
        step_spec(m, ev).0.stage == (ImportStage::Failed { error: ImportError::NotForestCar }),
        step_spec(m, ev).1 == (ImportAction::Fail { error: ImportError::NotForestCar }),
        !step_spec(m, ev).0.final_present,
{
}

/// What parsing a source string as a URL yields; a function of the text
/// alone.
pub uninterp spec fn is_url_text(s: Seq<u8>) -> bool;

/// Relies on `url::Url::parse`: whether the text parses as an absolute
/// URL, a function of the text alone. Text that is not UTF-8 is not a URL.
#[verifier::external_body]
pub fn parse_is_url(text: &[u8]) -> (r: bool)
    ensures
        r == is_url_text(text@),
{
    match core::str::from_utf8(text) {
        Ok(s) => url::Url::parse(s).is_ok(),
        Err(_) => false,
    }
}

/// Relies on chrono's `From<SystemTime>` conversion and
/// `timestamp_millis`: the wall clock in milliseconds since the epoch.
/// The conversion handles a clock set before the epoch without panicking
/// (it yields a negative timestamp), which chrono's own `now` does not.
/// The value depends on the clock, so nothing is promised of it.
#[verifier::external_body]
pub fn now_millis() -> (r: i64)
{
    chrono::DateTime::<chrono::Utc>::from(std::time::SystemTime::now()).timestamp_millis()
}

/// The decimal digits of `n`, most significant first.
pub open spec fn dec_digits(n: nat) -> Seq<u8>
    decreases n,
{
    if n < 10 {
        seq![(48 + n) as u8]
    } else {
        dec_digits(n / 10).push((48 + n % 10) as u8)
    }
}

/// Appends the decimal digits of `n`.
fn push_dec(out: &mut Vec<u8>, n: u64)
    ensures
        final(out)@ == old(out)@ + dec_digits(n as nat),
    decreases n,
{
    if n < 10 {
        out.push(48 + n as u8);
        proof {
            assert(out@ =~= old(out)@ + dec_digits(n as nat));
        }
    } else {
        let ghost before = out@;
        push_dec(out, n / 10);
        out.push(48 + (n % 10) as u8);
        proof {
            assert(out@ =~= before + dec_digits(n as nat));
        }
    }
}

/// The file name a new archive is committed under: the timestamp in
/// milliseconds, then `.forest.car.zst`.
pub fn forest_car_db_name(millis: u64) -> (r: Vec<u8>)
    ensures
        r@ == dec_digits(millis as nat) + forest_ext_bytes(),
        has_forest_car_ext(r@),
{
    let mut r: Vec<u8> = Vec::new();
    push_dec(&mut r, millis);
    let ghost digits = r@;
    r.push(0x2e);
    r.push(0x66);
    r.push(0x6f);
    r.push(0x72);
    r.push(0x65);
    r.push(0x73);
    r.push(0x74);
    r.push(0x2e);
    r.push(0x63);
    r.push(0x61);
    r.push(0x72);
    r.push(0x2e);
    r.push(0x7a);
    r.push(0x73);
    r.push(0x74);
    proof {
        assert(r@ =~= digits + forest_ext_bytes());
    }
    r
}

/// The bytes of `.forest.car.zst`.
pub open spec fn forest_ext_bytes() -> Seq<u8> {
    seq![
        0x2eu8,
        0x66,
        0x6f,
        0x72,
        0x65,
        0x73,
        0x74,
        0x2e,
        0x63,
        0x61,
        0x72,
        0x2e,
        0x7a,
        0x73,
        0x74,
    ]
}

} // verus!
