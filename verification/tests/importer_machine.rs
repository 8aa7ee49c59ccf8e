//! Scenario tests of the snapshot importer's state machine.

use forest_car::importer::{
    forest_car_db_name, ImportAction, ImportError, ImportEvent, ImportMachine, ImportMode,
    ImportStage,
};

const FILE_SOURCE: &[u8] = b"/tmp/snapshots/chain.car";
const URL_SOURCE: &[u8] = b"https://forest.chainsafe.io/dummy.car";

#[test]
fn default_mode_is_auto() {
    assert_eq!(ImportMode::default(), ImportMode::Auto);
}

#[test]
fn mode_names_are_lowercase() {
    assert_eq!(ImportMode::Auto.name(), "auto");
    assert_eq!(ImportMode::Hardlink.name(), "hardlink");
}

/// A raw (non-forest) CAR file under `Copy`: staged, found invalid,
/// transcoded, persisted, finished — and no temp survives.
#[test]
fn copy_of_raw_car_transcodes_and_finishes() {
    let (mut m, action) = ImportMachine::start(ImportMode::Copy, FILE_SOURCE);
    assert_eq!(action, ImportAction::StageFile { move_it: false });
    assert_eq!(m.step(ImportEvent::Staged(true)), ImportAction::CheckTemp);
    assert_eq!(
        m.step(ImportEvent::TempChecked(Some(false))),
        ImportAction::Transcode
    );
    assert_eq!(
        m.step(ImportEvent::Transcoded(true)),
        ImportAction::Persist { from_second: true }
    );
    assert_eq!(m.step(ImportEvent::Persisted(true)), ImportAction::LoadTipset);
    assert_eq!(m.step(ImportEvent::TipsetLoaded(true)), ImportAction::Finish);
    assert_eq!(m.stage, ImportStage::Done);
    assert!(m.final_present);
    assert!(!m.temp_primary);
    assert!(!m.temp_second);
}

/// A file under `Move` is staged with a move, and an already-valid forest
/// car is persisted without a transcode.
#[test]
fn move_of_forest_car_persists_directly() {
    let (mut m, action) = ImportMachine::start(ImportMode::Move, FILE_SOURCE);
    assert_eq!(action, ImportAction::StageFile { move_it: true });
    assert_eq!(m.step(ImportEvent::Staged(true)), ImportAction::CheckTemp);
    assert_eq!(
        m.step(ImportEvent::TempChecked(Some(true))),
        ImportAction::Persist { from_second: false }
    );
    assert_eq!(m.step(ImportEvent::Persisted(true)), ImportAction::LoadTipset);
    assert_eq!(m.step(ImportEvent::TipsetLoaded(true)), ImportAction::Finish);
    assert_eq!(m.stage, ImportStage::Done);
    assert!(m.final_present && !m.temp_primary && !m.temp_second);
}

/// `Auto` on a valid forest car hardlinks; a failed hardlink falls back to
/// copying, never to moving.
#[test]
fn auto_falls_back_to_copy_on_hardlink_failure() {
    let (mut m, action) = ImportMachine::start(ImportMode::Auto, FILE_SOURCE);
    assert_eq!(action, ImportAction::CheckSource);
    assert_eq!(
        m.step(ImportEvent::SourceChecked(Some(true))),
        ImportAction::Hardlink
    );
    assert_eq!(
        m.step(ImportEvent::LinkDone(false)),
        ImportAction::StageFile { move_it: false }
    );
}

/// `Auto` on a URL downloads.
#[test]
fn auto_downloads_urls() {
    let (m, action) = ImportMachine::start(ImportMode::Auto, URL_SOURCE);
    assert!(m.source_is_url);
    assert_eq!(action, ImportAction::Download);
}

/// Symlink on a raw CAR: rejected, nothing committed (the managed
/// directory is unchanged).
#[test]
fn symlink_on_raw_car_is_rejected() {
    let (mut m, action) = ImportMachine::start(ImportMode::Symlink, FILE_SOURCE);
    assert_eq!(action, ImportAction::CheckSource);
    assert_eq!(
        m.step(ImportEvent::SourceChecked(Some(false))),
        ImportAction::Fail {
            error: ImportError::NotForestCar
        }
    );
    assert_eq!(
        m.stage,
        ImportStage::Failed {
            error: ImportError::NotForestCar
        }
    );
    assert!(!m.final_present && !m.temp_primary && !m.temp_second);
    assert_eq!(
        ImportError::NotForestCar.message(),
        "Snapshot file must be a valid forest.car.zst file"
    );
}

/// Hardlink on a valid forest car links straight to the destination.
#[test]
fn hardlink_on_forest_car_links() {
    let (mut m, action) = ImportMachine::start(ImportMode::Hardlink, FILE_SOURCE);
    assert_eq!(action, ImportAction::CheckSource);
    assert_eq!(
        m.step(ImportEvent::SourceChecked(Some(true))),
        ImportAction::Hardlink
    );
    assert_eq!(m.step(ImportEvent::LinkDone(true)), ImportAction::LoadTipset);
    assert_eq!(m.step(ImportEvent::TipsetLoaded(true)), ImportAction::Finish);
    assert!(m.final_present);
}

/// A failed download fails the import; nothing is committed.
#[test]
fn url_not_found_commits_nothing() {
    let (mut m, action) = ImportMachine::start(ImportMode::Copy, URL_SOURCE);
    assert_eq!(action, ImportAction::Download);
    assert_eq!(
        m.step(ImportEvent::Staged(false)),
        ImportAction::Fail {
            error: ImportError::DownloadFailed
        }
    );
    assert!(!m.final_present && !m.temp_primary && !m.temp_second);
}

/// A committed archive that fails to load is removed again: the failed
/// import leaves no destination file.
#[test]
fn failed_tipset_load_removes_the_destination() {
    let (mut m, _) = ImportMachine::start(ImportMode::Copy, FILE_SOURCE);
    m.step(ImportEvent::Staged(true));
    m.step(ImportEvent::TempChecked(Some(true)));
    assert_eq!(m.step(ImportEvent::Persisted(true)), ImportAction::LoadTipset);
    assert!(m.final_present);
    assert_eq!(
        m.step(ImportEvent::TipsetLoaded(false)),
        ImportAction::RemoveFinal
    );
    assert_eq!(
        m.step(ImportEvent::FinalRemoved),
        ImportAction::Fail {
            error: ImportError::TipsetLoadFailed
        }
    );
    assert_eq!(
        m.stage,
        ImportStage::Failed {
            error: ImportError::TipsetLoadFailed
        }
    );
    assert!(!m.final_present && !m.temp_primary && !m.temp_second);
}

/// A failed persist fails the import before anything is committed.
#[test]
fn failed_persist_commits_nothing() {
    let (mut m, _) = ImportMachine::start(ImportMode::Copy, FILE_SOURCE);
    m.step(ImportEvent::Staged(true));
    m.step(ImportEvent::TempChecked(Some(true)));
    assert_eq!(
        m.step(ImportEvent::Persisted(false)),
        ImportAction::Fail {
            error: ImportError::PersistFailed
        }
    );
    assert!(!m.final_present && !m.temp_primary && !m.temp_second);
}

/// Destination names carry the millisecond timestamp and the forest-car
/// suffix.
#[test]
fn destination_name_has_timestamp_and_suffix() {
    assert_eq!(
        forest_car_db_name(1712345678901),
        b"1712345678901.forest.car.zst".to_vec()
    );
    assert_eq!(forest_car_db_name(0), b"0.forest.car.zst".to_vec());
}
