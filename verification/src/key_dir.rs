//! The import of every key file of a directory.

use crate::error::ExtractError;
use crate::imported::ImportedKeyFiles;
use crate::path::{Component, KeyPath};
use vstd::prelude::*;

verus! {

/// An entry of a directory.
#[derive(Debug)]
pub struct DirEntry {
    /// Whether the entry is a file.
    pub is_file: bool,
    /// The path of the entry, or `None` if it is not valid Unicode.
    pub path: Option<KeyPath>,
}

/// What the import of a directory asks for next.
#[derive(Debug)]
pub enum DirStage {
    /// Open the directory.
    OpenDir,
    /// Read the next entry of the directory.
    NextEntry,
    /// Import a key file, with keys that are shared with a KME.
    ImportFile { path: KeyPath, other_kme_id: i64, delete_file_afterwards: bool },
    /// Nothing more: all key files are imported.
    Done,
    /// Nothing more: the import failed.
    Failed(ExtractError),
}

/// What came of something that the import of a directory asked for.
#[derive(Debug)]
pub enum DirEvent {
    /// The directory is open, or the debug text of the error.
    Opened(Result<(), String>),
    /// The next entry of the directory.
    Entry(DirEntry),
    /// The next entry of the directory cannot be read.
    EntryFailed,
    /// There are no more entries.
    EndOfDir,
    /// The file that was asked for is imported, or why it is not.
    FileImported(Result<(), ExtractError>),
}

/// The mathematical state of the import of a directory.
pub struct DirImportState {
    pub other_kme_id: i64,
    pub delete_key_files_afterwards: bool,
    /// The paths of the files that are imported.
    pub imported: Set<Seq<Component>>,
    /// What is asked for next.
    pub stage: DirStage,
}

/// The state before anything is done.
pub open spec fn dir_start(other_kme_id: i64, delete_key_files_afterwards: bool) -> DirImportState {
    DirImportState {
        other_kme_id,
        delete_key_files_afterwards,
        imported: Set::empty(),
        stage: DirStage::OpenDir,
    }
}

/// What follows an entry: files that are key files are imported, a file whose path is not
/// Unicode ends the import, and everything else is passed over.
pub open spec fn entry_stage(state: DirImportState, entry: DirEntry) -> DirStage {
    if !entry.is_file {
        DirStage::NextEntry
    } else {
        match entry.path {
            None => DirStage::Failed(ExtractError::PathNotUnicode),
            Some(path) => if crate::path::is_key_file(path@) {
                DirStage::ImportFile {
                    path,
                    other_kme_id: state.other_kme_id,
                    delete_file_afterwards: state.delete_key_files_afterwards,
                }
            } else {
                DirStage::NextEntry
            },
        }
    }
}

/// The state after an event. An event that was not asked for changes nothing.
pub open spec fn dir_step(state: DirImportState, event: DirEvent) -> DirImportState {
    match (state.stage, event) {
        (DirStage::OpenDir, DirEvent::Opened(Ok(_))) => DirImportState {
            stage: DirStage::NextEntry,
            ..state
        },
        (DirStage::OpenDir, DirEvent::Opened(Err(e))) => DirImportState {
            stage: DirStage::Failed(ExtractError::ReadDirectory(e)),
            ..state
        },
        (DirStage::NextEntry, DirEvent::Entry(entry)) => DirImportState {
            stage: entry_stage(state, entry),
            ..state
        },
        (DirStage::NextEntry, DirEvent::EndOfDir) => DirImportState {
            stage: DirStage::Done,
            ..state
        },
        (DirStage::ImportFile { path, .. }, DirEvent::FileImported(Ok(_))) => DirImportState {
            imported: state.imported.insert(path@),
            stage: DirStage::NextEntry,
            ..state
        },
        (DirStage::ImportFile { .. }, DirEvent::FileImported(Err(e))) => DirImportState {
            stage: DirStage::Failed(e),
            ..state
        },
        _ => state,
    }
}

/// The import of every key file of a directory.
#[derive(Debug)]
pub struct DirImport {
    other_kme_id: i64,
    delete_key_files_afterwards: bool,
    imported: ImportedKeyFiles,
    stage: DirStage,
}

impl View for DirImport {
    type V = DirImportState;

    closed spec fn view(&self) -> DirImportState {
        DirImportState {
            other_kme_id: self.other_kme_id,
            delete_key_files_afterwards: self.delete_key_files_afterwards,
            imported: self.imported@,
            stage: self.stage,
        }
    }
}

impl DirImport {
    /// The import of a directory whose keys are shared with a KME. It has not opened the
    /// directory yet.
    pub fn new(other_kme_id: i64, delete_key_files_afterwards: bool) -> (import: DirImport)
        ensures
            import@ == dir_start(other_kme_id, delete_key_files_afterwards),
            import@.other_kme_id == other_kme_id,
            import@.delete_key_files_afterwards == delete_key_files_afterwards,
            import@.imported == Set::<Seq<Component>>::empty(),
            import@.stage == DirStage::OpenDir,
    {
        DirImport {
            other_kme_id,
            delete_key_files_afterwards,
            imported: ImportedKeyFiles::new(),
            stage: DirStage::OpenDir,
        }
    }

    /// What the import asks for next.
    pub fn stage(&self) -> (stage: &DirStage)
        ensures
            *stage == self@.stage,
    {
        &self.stage
    }

    /// Takes what came of the thing that was asked for.
    pub fn advance(self, event: DirEvent) -> (next: DirImport)
        ensures
            next@ == dir_step(self@, event),
    {
        let DirImport { other_kme_id, delete_key_files_afterwards, mut imported, stage } = self;
        let stage = match (stage, event) {
            (DirStage::OpenDir, DirEvent::Opened(Ok(_))) => DirStage::NextEntry,
            (DirStage::OpenDir, DirEvent::Opened(Err(e))) => DirStage::Failed(
                ExtractError::ReadDirectory(e),
            ),
            (DirStage::NextEntry, DirEvent::Entry(entry)) => if !entry.is_file {
                DirStage::NextEntry
            } else {
                match entry.path {
                    None => DirStage::Failed(ExtractError::PathNotUnicode),
                    Some(path) => if path.is_key_file() {
                        DirStage::ImportFile {
                            path,
                            other_kme_id,
                            delete_file_afterwards: delete_key_files_afterwards,
                        }
                    } else {
                        DirStage::NextEntry
                    },
                }
            },
            (DirStage::NextEntry, DirEvent::EndOfDir) => DirStage::Done,
            (DirStage::ImportFile { path, .. }, DirEvent::FileImported(Ok(_))) => {
                let _ = imported.insert(path);
                DirStage::NextEntry
            },
            (DirStage::ImportFile { .. }, DirEvent::FileImported(Err(e))) => DirStage::Failed(e),
            (stage, _) => stage,
        };
        DirImport { other_kme_id, delete_key_files_afterwards, imported, stage }
    }

    /// The outcome of the import: the set of the files that it imported, or why it failed.
    /// `None` while something is still asked for.
    pub fn outcome(self) -> (outcome: Option<Result<ImportedKeyFiles, ExtractError>>)
        ensures
            match self@.stage {
                DirStage::Done => outcome matches Some(Ok(files)) && files@ == self@.imported,
                DirStage::Failed(e) => outcome == Some(
                    Err::<ImportedKeyFiles, ExtractError>(e),
                ),
                _ => outcome is None,
            },
    {
        match self.stage {
            DirStage::Done => Some(Ok(self.imported)),
            DirStage::Failed(e) => Some(Err(e)),
            _ => None,
        }
    }
}

/// What an import meets at one entry of the directory.
pub struct Met {
    /// The entry, or `None` if it cannot be read.
    pub entry: Option<DirEntry>,
    /// How the import of the file fares, if it is asked for.
    pub import: Result<(), ExtractError>,
}

/// The state after one more entry of the directory.
pub open spec fn dir_met(state: DirImportState, met: Met) -> DirImportState {
    let event = match met.entry {
        Some(entry) => DirEvent::Entry(entry),
        None => DirEvent::EntryFailed,
    };
    dir_step(dir_step(state, event), DirEvent::FileImported(met.import))
}

/// The state after some entries were met.
pub open spec fn dir_run(start: DirImportState, met: Seq<Met>) -> DirImportState
    decreases met.len(),
{
    if met.len() == 0 {
        start
    } else {
        dir_met(dir_run(start, met.drop_last()), met.last())
    }
}

/// Whether an entry is a key file with this path.
pub open spec fn met_key_file(met: Met, path: Seq<Component>) -> bool {
    &&& met.entry matches Some(entry)
    &&& entry.is_file
    &&& entry.path matches Some(file)
    &&& file@ == path
    &&& crate::path::is_key_file(path)
}

/// Why an entry ends the import, if it does: its path is not Unicode, or its import fails.
pub open spec fn met_failure(met: Met) -> Option<ExtractError> {
    match met.entry {
        None => None,
        Some(entry) => match (entry.path, met.import) {
            (None, _) => if entry.is_file {
                Some(ExtractError::PathNotUnicode)
            } else {
                None
            },
            (Some(path), Err(e)) => if entry.is_file && crate::path::is_key_file(path@) {
                Some(e)
            } else {
                None
            },
            _ => None,
        },
    }
}

/// The paths of the key files among the entries.
pub open spec fn key_files_met(met: Seq<Met>) -> Set<Seq<Component>> {
    Set::new(
        |path: Seq<Component>|
            exists|i: int| 0 <= i < met.len() && #[trigger] met_key_file(met[i], path),
    )
}

/// The state after the directory was opened.
pub open spec fn dir_opened(other_kme_id: i64, delete_key_files_afterwards: bool) -> DirImportState {
    dir_step(dir_start(other_kme_id, delete_key_files_afterwards), DirEvent::Opened(Ok(())))
}

/// As long as no entry ends the import, it goes on, and what is imported are exactly the key
/// files among the entries; at the end of the directory this is the result.
pub proof fn law_dir_import_complete(
    other_kme_id: i64,
    delete_key_files_afterwards: bool,
    met: Seq<Met>,
)
    requires
        forall|i: int| 0 <= i < met.len() ==> met_failure(#[trigger] met[i]) is None,
    ensures
        ({
            let start = dir_opened(other_kme_id, delete_key_files_afterwards);
            &&& dir_run(start, met) == (DirImportState { imported: key_files_met(met), ..start })
            &&& dir_step(dir_run(start, met), DirEvent::EndOfDir) == (DirImportState {
                imported: key_files_met(met),
                stage: DirStage::Done,
                ..start
            })
        }),
    decreases met.len(),
{
    if met.len() == 0 {
        assert(key_files_met(met) =~= Set::<Seq<Component>>::empty());
    } else {
        let before = met.drop_last();
        let last = met.len() - 1;
        assert forall|i: int| 0 <= i < before.len() implies met_failure(
            #[trigger] before[i],
        ) is None by {
            assert(met[i] == before[i]);
        }
        law_dir_import_complete(other_kme_id, delete_key_files_afterwards, before);
        assert(met_failure(met[last]) is None);
        assert forall|path: Seq<Component>|
            key_files_met(met).contains(path) == (key_files_met(before).contains(path)
                || met_key_file(met[last], path)) by {
            if key_files_met(met).contains(path) {
                let i = choose|i: int| 0 <= i < met.len() && #[trigger] met_key_file(met[i], path);
                if i < last {
                    assert(met_key_file(before[i], path));
                }
            }
            if key_files_met(before).contains(path) {
                let i = choose|i: int|
                    0 <= i < before.len() && #[trigger] met_key_file(before[i], path);
                assert(met_key_file(met[i], path));
            }
        }
        let start = dir_opened(other_kme_id, delete_key_files_afterwards);
        assert(dir_run(start, met).imported =~= key_files_met(met));
    }
}

/// The first entry that ends the import decides its outcome: no later entry changes it, and what
/// is imported are the key files before it.
pub proof fn law_dir_import_first_failure(
    other_kme_id: i64,
    delete_key_files_afterwards: bool,
    met: Seq<Met>,
    at: int,
)
    requires
        0 <= at < met.len(),
        met_failure(met[at]) is Some,
        forall|i: int| 0 <= i < at ==> met_failure(#[trigger] met[i]) is None,
    ensures
        ({
            let start = dir_opened(other_kme_id, delete_key_files_afterwards);
            dir_run(start, met) == (DirImportState {
                imported: key_files_met(met.take(at)),
                stage: DirStage::Failed(met_failure(met[at])->0),
                ..start
            })
        }),
    decreases met.len(),
{
    let before = met.drop_last();
    if at == met.len() - 1 {
        assert forall|i: int| 0 <= i < before.len() implies met_failure(
            #[trigger] before[i],
        ) is None by {
            assert(met[i] == before[i]);
        }
        law_dir_import_complete(other_kme_id, delete_key_files_afterwards, before);
        assert(met.take(at) =~= before);
    } else {
        assert(before[at] == met[at]);
        assert(before.take(at) =~= met.take(at));
        assert forall|i: int| 0 <= i < at implies met_failure(#[trigger] before[i]) is None by {
            assert(met[i] == before[i]);
        }
        law_dir_import_first_failure(other_kme_id, delete_key_files_afterwards, before, at);
    }
}

/// The state after some events.
pub open spec fn dir_events(start: DirImportState, events: Seq<DirEvent>) -> DirImportState
    decreases events.len(),
{
    if events.len() == 0 {
        start
    } else {
        dir_step(dir_events(start, events.drop_last()), events.last())
    }
}

/// Whatever happens, a file that an import asks for is one that the directory listed as a file
/// and that is a key file; and it is asked for with the KME and the delete setting that the
/// import was started with.
pub proof fn law_dir_import_asks_for_listed_key_files(
    other_kme_id: i64,
    delete_key_files_afterwards: bool,
    events: Seq<DirEvent>,
)
    ensures
        ({
            let state = dir_events(dir_start(other_kme_id, delete_key_files_afterwards), events);
            &&& state.other_kme_id == other_kme_id
            &&& state.delete_key_files_afterwards == delete_key_files_afterwards
            &&& state.stage matches DirStage::ImportFile {
                path,
                other_kme_id: asked_kme_id,
                delete_file_afterwards,
            } ==> {
                &&& asked_kme_id == other_kme_id
                &&& delete_file_afterwards == delete_key_files_afterwards
                &&& crate::path::is_key_file(path@)
                &&& exists|i: int|
                    0 <= i < events.len() && #[trigger] events[i] == DirEvent::Entry(
                        DirEntry { is_file: true, path: Some(path) },
                    )
            }
        }),
    decreases events.len(),
{
    if events.len() > 0 {
        let before = events.drop_last();
        law_dir_import_asks_for_listed_key_files(other_kme_id, delete_key_files_afterwards, before);
        assert(forall|i: int| 0 <= i < before.len() ==> events[i] == #[trigger] before[i]);
        let last = events[events.len() - 1];
        if let DirEvent::Entry(entry) = last {
            assert(entry == (DirEntry { is_file: entry.is_file, path: entry.path }));
        }
    }
}

/// What becomes of an entry: a key file is asked for as it is listed, a file whose path is not
/// Unicode ends the import, and everything else is passed over. None of this imports anything.
pub proof fn law_dir_entry(state: DirImportState, entry: DirEntry)
    requires
        state.stage == DirStage::NextEntry,
    ensures
        ({
            let next = dir_step(state, DirEvent::Entry(entry));
            &&& next.imported == state.imported
            &&& !entry.is_file ==> next.stage == DirStage::NextEntry
            &&& entry.is_file && entry.path is None ==> next.stage == DirStage::Failed(
                ExtractError::PathNotUnicode,
            )
            &&& entry.is_file && entry.path is Some && !crate::path::is_key_file(entry.path->0@)
                ==> next.stage == DirStage::NextEntry
            &&& entry.is_file && entry.path is Some && crate::path::is_key_file(entry.path->0@)
                ==> next.stage == (DirStage::ImportFile {
                path: entry.path->0,
                other_kme_id: state.other_kme_id,
                delete_file_afterwards: state.delete_key_files_afterwards,
            })
        }),
{
}

/// What becomes of the other answers: an open directory is read entry by entry, to its end; an
/// imported file, and no other, joins the set; an entry that cannot be read is passed over; and
/// a directory that cannot be opened or a file that cannot be imported ends the import with that
/// cause.
pub proof fn law_dir_answers(state: DirImportState, cause: String, error: ExtractError)
    ensures
        state.stage == DirStage::OpenDir ==> {
            &&& dir_step(state, DirEvent::Opened(Ok(()))) == (DirImportState {
                stage: DirStage::NextEntry,
                ..state
            })
            &&& dir_step(state, DirEvent::Opened(Err(cause))) == (DirImportState {
                stage: DirStage::Failed(ExtractError::ReadDirectory(cause)),
                ..state
            })
        },
        state.stage == DirStage::NextEntry ==> {
            &&& dir_step(state, DirEvent::EntryFailed) == state
            &&& dir_step(state, DirEvent::EndOfDir) == (DirImportState {
                stage: DirStage::Done,
                ..state
            })
        },
        state.stage is ImportFile ==> {
            &&& dir_step(state, DirEvent::FileImported(Ok(()))).stage == DirStage::NextEntry
            &&& forall|path: Seq<Component>|
                #[trigger] dir_step(state, DirEvent::FileImported(Ok(()))).imported.contains(path)
                    <==> state.imported.contains(path) || path == state.stage->path@
            &&& dir_step(state, DirEvent::FileImported(Err(error))) == (DirImportState {
                stage: DirStage::Failed(error),
                ..state
            })
        },
{
}

/// An import starts with opening the directory and with nothing imported. It changes only
/// through an answer to what it asked for.
pub proof fn law_dir_ignores_unasked(
    state: DirImportState,
    event: DirEvent,
    other_kme_id: i64,
    delete_key_files_afterwards: bool,
)
    ensures
        dir_start(other_kme_id, delete_key_files_afterwards).stage == DirStage::OpenDir,
        dir_start(other_kme_id, delete_key_files_afterwards).imported == Set::<
            Seq<Component>,
        >::empty(),
        ({
            let answers = match state.stage {
                DirStage::OpenDir => event is Opened,
                DirStage::NextEntry => event is Entry || event is EntryFailed || event is EndOfDir,
                DirStage::ImportFile { .. } => event is FileImported,
                DirStage::Done => false,
                DirStage::Failed(_) => false,
            };
            !answers ==> dir_step(state, event) == state
        }),
{
}

} // verus!
