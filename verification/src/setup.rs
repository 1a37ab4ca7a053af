//! The start of the watch of a key directory.

use crate::error::ExtractError;
use crate::imported::ImportedKeyFiles;
use crate::path::Component;
use vstd::prelude::*;

verus! {

/// What the start of a watch asks for next.
#[derive(Debug)]
pub enum SetupStage {
    /// Import every key file that is in the directory, with keys that are shared with a KME.
    ImportDir { kme_id: i64, delete_key_files_afterwards: bool },
    /// Create a watcher. It shares the set of imported key files with the imports it starts,
    /// whose keys are shared with the same KME.
    CreateWatcher { kme_id: i64, delete_key_files_afterwards: bool },
    /// Let the watcher watch the directory.
    StartWatch,
    /// Hand the watcher over to the manager.
    KeepWatcher,
    /// Nothing more. Holds the outcome.
    Finished(Result<(), ExtractError>),
}

/// What came of something that the start of a watch asked for.
#[derive(Debug)]
pub enum SetupEvent {
    /// The files that are imported, or why the import failed.
    DirImported(Result<ImportedKeyFiles, ExtractError>),
    /// The watcher is created, or the debug text of the error.
    WatcherCreated(Result<(), String>),
    /// Whether the directory is watched.
    WatchStarted(bool),
    /// The manager has the watcher.
    WatcherKept,
}

/// The mathematical state of the start of a watch.
pub struct SetupState {
    /// The directory.
    pub dir: String,
    /// The set of imported key files, while it waits to be shared with the watcher.
    pub imported: Option<Set<Seq<Component>>>,
    /// What is asked for next.
    pub stage: SetupStage,
}

/// The state before anything is done.
pub open spec fn setup_start(
    dir: String,
    kme_id: i64,
    delete_key_files_afterwards: bool,
) -> SetupState {
    SetupState {
        dir,
        imported: None,
        stage: SetupStage::ImportDir { kme_id, delete_key_files_afterwards },
    }
}

/// The state after an event. An event that was not asked for changes nothing.
pub open spec fn setup_step(state: SetupState, event: SetupEvent) -> SetupState {
    match (state.stage, event) {
        (
            SetupStage::ImportDir { kme_id, delete_key_files_afterwards },
            SetupEvent::DirImported(Ok(files)),
        ) => SetupState {
            imported: Some(files@),
            stage: SetupStage::CreateWatcher { kme_id, delete_key_files_afterwards },
            ..state
        },
        (SetupStage::ImportDir { .. }, SetupEvent::DirImported(Err(e))) => SetupState {
            stage: SetupStage::Finished(Err(e)),
            ..state
        },
        (SetupStage::CreateWatcher { .. }, SetupEvent::WatcherCreated(Ok(_))) => SetupState {
            stage: SetupStage::StartWatch,
            ..state
        },
        (SetupStage::CreateWatcher { .. }, SetupEvent::WatcherCreated(Err(e))) => SetupState {
            stage: SetupStage::Finished(Err(ExtractError::CreateWatcher(e))),
            ..state
        },
        (SetupStage::StartWatch, SetupEvent::WatchStarted(true)) => SetupState {
            stage: SetupStage::KeepWatcher,
            ..state
        },
        (SetupStage::StartWatch, SetupEvent::WatchStarted(false)) => SetupState {
            stage: SetupStage::Finished(Err(ExtractError::WatchDirectory(state.dir))),
            ..state
        },
        (SetupStage::KeepWatcher, SetupEvent::WatcherKept) => SetupState {
            stage: SetupStage::Finished(Ok(())),
            ..state
        },
        _ => state,
    }
}

/// The start of the watch of a key directory.
#[derive(Debug)]
pub struct WatchSetup {
    dir: String,
    imported: Option<ImportedKeyFiles>,
    stage: SetupStage,
}

impl View for WatchSetup {
    type V = SetupState;

    closed spec fn view(&self) -> SetupState {
        SetupState {
            dir: self.dir,
            imported: match self.imported {
                Some(files) => Some(files@),
                None => None,
            },
            stage: self.stage,
        }
    }
}

impl WatchSetup {
    /// The start of the watch of a directory whose keys are shared with a KME, before anything
    /// is done.
    pub fn new(dir: String, kme_id: i64, delete_key_files_afterwards: bool) -> (setup: WatchSetup)
        ensures
            setup@ == setup_start(dir, kme_id, delete_key_files_afterwards),
            setup@.dir == dir,
            setup@.imported is None,
            setup@.stage == (SetupStage::ImportDir { kme_id, delete_key_files_afterwards }),
    {
        WatchSetup {
            dir,
            imported: None,
            stage: SetupStage::ImportDir { kme_id, delete_key_files_afterwards },
        }
    }

    /// What is asked for next.
    pub fn stage(&self) -> (stage: &SetupStage)
        ensures
            *stage == self@.stage,
    {
        &self.stage
    }

    /// Hands out the set of imported key files, which the watcher then shares with the imports
    /// it starts.
    pub fn take_imported(&mut self) -> (imported: Option<ImportedKeyFiles>)
        ensures
            match imported {
                Some(files) => old(self)@.imported == Some(files@),
                None => old(self)@.imported is None,
            },
            final(self)@ == (SetupState { imported: None, ..old(self)@ }),
    {
        self.imported.take()
    }

    /// Takes what came of the thing that was asked for.
    pub fn advance(self, event: SetupEvent) -> (next: WatchSetup)
        ensures
            next@ == setup_step(self@, event),
    {
        let WatchSetup { dir, imported, stage } = self;
        match (stage, event) {
            (
                SetupStage::ImportDir { kme_id, delete_key_files_afterwards },
                SetupEvent::DirImported(Ok(files)),
            ) => WatchSetup {
                dir,
                imported: Some(files),
                stage: SetupStage::CreateWatcher { kme_id, delete_key_files_afterwards },
            },
            (SetupStage::ImportDir { .. }, SetupEvent::DirImported(Err(e))) => WatchSetup {
                dir,
                imported,
                stage: SetupStage::Finished(Err(e)),
            },
            (SetupStage::CreateWatcher { .. }, SetupEvent::WatcherCreated(Ok(_))) => WatchSetup {
                dir,
                imported,
                stage: SetupStage::StartWatch,
            },
            (SetupStage::CreateWatcher { .. }, SetupEvent::WatcherCreated(Err(e))) => WatchSetup {
                dir,
                imported,
                stage: SetupStage::Finished(Err(ExtractError::CreateWatcher(e))),
            },
            (SetupStage::StartWatch, SetupEvent::WatchStarted(true)) => WatchSetup {
                dir,
                imported,
                stage: SetupStage::KeepWatcher,
            },
            (SetupStage::StartWatch, SetupEvent::WatchStarted(false)) => {
                let stage = SetupStage::Finished(Err(ExtractError::WatchDirectory(dir.clone())));
                WatchSetup { dir, imported, stage }
            },
            (SetupStage::KeepWatcher, SetupEvent::WatcherKept) => WatchSetup {
                dir,
                imported,
                stage: SetupStage::Finished(Ok(())),
            },
            (stage, _) => WatchSetup { dir, imported, stage },
        }
    }

    /// The outcome of the start. `None` while something is still asked for.
    pub fn outcome(self) -> (outcome: Option<Result<(), ExtractError>>)
        ensures
            match self@.stage {
                SetupStage::Finished(result) => outcome == Some(result),
                _ => outcome is None,
            },
    {
        match self.stage {
            SetupStage::Finished(result) => Some(result),
            _ => None,
        }
    }
}

/// The outcome of the start of a watch whose steps fare as the arguments say: that of the first
/// step that fails, or success.
pub open spec fn setup_outcome(
    dir: String,
    dir_imported: Result<ImportedKeyFiles, ExtractError>,
    created: Result<(), String>,
    started: bool,
) -> Result<(), ExtractError> {
    if let Err(e) = dir_imported {
        Err(e)
    } else if let Err(e) = created {
        Err(ExtractError::CreateWatcher(e))
    } else if !started {
        Err(ExtractError::WatchDirectory(dir))
    } else {
        Ok(())
    }
}

/// The start of a watch whose steps are answered in turn ends with the outcome of the first
/// step that fails, or with success. A watcher is only created once the directory was imported,
/// and the set it begins with holds the files that this import read.
pub proof fn law_setup_outcome(
    dir: String,
    kme_id: i64,
    delete_key_files_afterwards: bool,
    dir_imported: Result<ImportedKeyFiles, ExtractError>,
    created: Result<(), String>,
    started: bool,
)
    ensures
        ({
            let start = setup_start(dir, kme_id, delete_key_files_afterwards);
            let imported = setup_step(start, SetupEvent::DirImported(dir_imported));
            let watching = setup_step(imported, SetupEvent::WatcherCreated(created));
            let started = setup_step(watching, SetupEvent::WatchStarted(started));
            setup_step(started, SetupEvent::WatcherKept)
        }).stage == SetupStage::Finished(setup_outcome(dir, dir_imported, created, started)),
        ({
            let start = setup_start(dir, kme_id, delete_key_files_afterwards);
            let imported = setup_step(start, SetupEvent::DirImported(dir_imported));
            match dir_imported {
                Ok(files) => {
                    &&& imported.stage == (SetupStage::CreateWatcher {
                        kme_id,
                        delete_key_files_afterwards,
                    })
                    &&& imported.imported == Some(files@)
                },
                Err(_) => imported.stage !is CreateWatcher,
            }
        }),
{
}

/// The start of a watch asks, one after the other, for the import of the directory, for a
/// watcher, for the watch of the directory and for the watcher to be kept, each time with the KME
/// and the delete setting it was given; and it succeeds only after the last of these.
pub proof fn law_setup_goes_through_all_stages(
    dir: String,
    kme_id: i64,
    delete_key_files_afterwards: bool,
    files: ImportedKeyFiles,
)
    ensures
        ({
            let start = setup_start(dir, kme_id, delete_key_files_afterwards);
            let imported = setup_step(start, SetupEvent::DirImported(Ok(files)));
            let created = setup_step(imported, SetupEvent::WatcherCreated(Ok(())));
            let started = setup_step(created, SetupEvent::WatchStarted(true));
            let kept = setup_step(started, SetupEvent::WatcherKept);
            &&& start.dir == dir
            &&& start.imported is None
            &&& start.stage == (SetupStage::ImportDir { kme_id, delete_key_files_afterwards })
            &&& imported.stage == (SetupStage::CreateWatcher {
                kme_id,
                delete_key_files_afterwards,
            })
            &&& imported.imported == Some(files@)
            &&& created.stage == SetupStage::StartWatch
            &&& started.stage == SetupStage::KeepWatcher
            &&& kept.stage == SetupStage::Finished(Ok(()))
        }),
{
}

/// A failure ends the start of a watch with its cause: that of the import as it is, that of the
/// watcher with its text, and that of the watch with the directory. Nothing else changes.
pub proof fn law_setup_failures(state: SetupState, error: ExtractError, cause: String)
    ensures
        state.stage is ImportDir ==> setup_step(state, SetupEvent::DirImported(Err(error))) == (
        SetupState { stage: SetupStage::Finished(Err(error)), ..state }),
        state.stage is CreateWatcher ==> setup_step(state, SetupEvent::WatcherCreated(Err(cause)))
            == (SetupState {
            stage: SetupStage::Finished(Err(ExtractError::CreateWatcher(cause))),
            ..state
        }),
        state.stage is StartWatch ==> setup_step(state, SetupEvent::WatchStarted(false)) == (
        SetupState {
            stage: SetupStage::Finished(Err(ExtractError::WatchDirectory(state.dir))),
            ..state
        }),
{
}

/// The start of a watch changes only through an answer to what it asked for, and every such
/// answer moves it on; it never changes the directory, and it succeeds only once the manager has
/// the watcher.
pub proof fn law_setup_answers(state: SetupState, event: SetupEvent)
    ensures
        ({
            let next = setup_step(state, event);
            let answers = match state.stage {
                SetupStage::ImportDir { .. } => event is DirImported,
                SetupStage::CreateWatcher { .. } => event is WatcherCreated,
                SetupStage::StartWatch => event is WatchStarted,
                SetupStage::KeepWatcher => event is WatcherKept,
                SetupStage::Finished(_) => false,
            };
            &&& !answers ==> next == state
            &&& answers ==> next.stage != state.stage
            &&& next.dir == state.dir
            &&& event !is DirImported ==> next.imported == state.imported
            &&& next.stage == SetupStage::Finished(Ok(())) && next != state ==> state.stage
                == SetupStage::KeepWatcher
        }),
{
}

} // verus!
