//! What the watcher of a key directory does with the events it gets, and the imports it starts.

use crate::completion::{CompletionWait, FileMetadata, WaitStage, WaitState};
use crate::error::ExtractError;
use crate::extractor::ConfigExtractor;
use crate::imported::{ImportedKeyFiles, LockPoisoned};
use crate::key_file::stored_keys;
use crate::path::{Component, KeyPath};
use vstd::prelude::*;

verus! {

/// How a file was accessed.
#[derive(Debug, Clone, Copy, PartialEq, Eq, Structural)]
pub enum AccessMode {
    Any,
    Execute,
    Read,
    Write,
    Other,
}

/// An access to a file.
#[derive(Debug, Clone, Copy, PartialEq, Eq, Structural)]
pub enum AccessKind {
    Any,
    Read,
    Open(AccessMode),
    Close(AccessMode),
    Other,
}

/// What happened in a watched directory.
#[derive(Debug, Clone, Copy, PartialEq, Eq, Structural)]
pub enum WatchEventKind {
    Any,
    Access(AccessKind),
    Create,
    Modify,
    Remove,
    Other,
}

/// Whether an event of this kind can mean that a new key file is there: its writer closed it,
/// or it was created or modified. Not every watch backend reports the first.
pub open spec fn starts_import(kind: WatchEventKind) -> bool {
    ||| kind == WatchEventKind::Access(AccessKind::Close(AccessMode::Write))
    ||| kind == WatchEventKind::Create
    ||| kind == WatchEventKind::Modify
}

impl WatchEventKind {
    /// Whether an event of this kind can mean that a new key file is there.
    pub fn starts_import(&self) -> (yes: bool)
        ensures
            yes == starts_import(*self),
    {
        match self {
            WatchEventKind::Access(AccessKind::Close(AccessMode::Write)) => true,
            WatchEventKind::Create => true,
            WatchEventKind::Modify => true,
            _ => false,
        }
    }
}

/// An event in a watched directory.
#[derive(Debug)]
pub struct WatchEvent {
    /// What happened.
    pub kind: WatchEventKind,
    /// The paths it happened to. `None` stands for a path that is not valid Unicode.
    pub paths: Vec<Option<KeyPath>>,
}

/// The key files among some paths, in order.
pub open spec fn key_files_among(paths: Seq<Option<KeyPath>>) -> Seq<KeyPath>
    decreases paths.len(),
{
    if paths.len() == 0 {
        Seq::empty()
    } else {
        let before = key_files_among(paths.drop_last());
        match paths.last() {
            Some(path) => if crate::path::is_key_file(path@) {
                before.push(path)
            } else {
                before
            },
            None => before,
        }
    }
}

/// The key files that an import may begin for: all that an event names, if it is of a kind that
/// can mean that a new key file is there.
pub open spec fn event_key_files(event: WatchEvent) -> Seq<KeyPath> {
    if starts_import(event.kind) {
        key_files_among(event.paths@)
    } else {
        Seq::empty()
    }
}

impl WatchEvent {
    /// The key files that an import may begin for: all that the event names, if it is of a kind
    /// that can mean that a new key file is there.
    pub fn key_files(self) -> (files: Vec<KeyPath>)
        ensures
            files@ == event_key_files(self),
            forall|i: int|
                0 <= i < files@.len() ==> crate::path::is_key_file((#[trigger] files@[i])@),
            forall|path: KeyPath| #[trigger]
                files@.contains(path) <==> {
                    &&& starts_import(self.kind)
                    &&& crate::path::is_key_file(path@)
                    &&& self.paths@.contains(Some(path))
                },
    {
        let mut files: Vec<KeyPath> = Vec::new();
        if !self.kind.starts_import() {
            proof {
                law_event_names_key_files(self);
            }
            return files;
        }
        let ghost paths = self.paths@;
        for path in iter: self.paths
            invariant
                iter.seq() == paths,
                files@ == key_files_among(paths.take(iter.index() as int)),
        {
            proof {
                let next = paths.take(iter.index() + 1);
                assert(next.drop_last() =~= paths.take(iter.index() as int));
            }
            if let Some(path) = path {
                if path.is_key_file() {
                    files.push(path);
                }
            }
        }
        assert(paths.take(paths.len() as int) =~= paths);
        proof {
            law_event_names_key_files(self);
        }
        files
    }
}

/// What the import of a reported key file asks for next.
#[derive(Debug, Clone, Copy, PartialEq, Eq, Structural)]
pub enum TaskStage {
    /// Read the metadata of the file.
    Check,
    /// Sleep for the check interval.
    Sleep,
    /// Import the file, with keys that are shared with a KME.
    ImportFile { other_kme_id: i64, delete_file_afterwards: bool },
    /// Free the path of the file: its keys are not stored, thus a later event can try again.
    FreePath,
    /// Nothing more.
    Done,
}

/// What came of something that the import of a reported key file asked for.
#[derive(Debug)]
pub enum TaskEvent {
    /// The metadata of the file, or `None` if it cannot be read.
    Checked(Option<FileMetadata>),
    /// The sleep is over.
    Slept,
    /// The outcome of the import of the file.
    Imported(Result<(), ExtractError>),
    /// The path is free.
    Freed,
}

/// The mathematical state of the import of a reported key file.
pub struct TaskState {
    /// The path of the file.
    pub path: KeyPath,
    pub other_kme_id: i64,
    pub delete_file_afterwards: bool,
    /// The wait until the file is complete.
    pub wait: WaitState,
    /// What is asked for next.
    pub stage: TaskStage,
}

/// What is asked for when a file is complete.
pub open spec fn import_stage(state: TaskState) -> TaskStage {
    TaskStage::ImportFile {
        other_kme_id: state.other_kme_id,
        delete_file_afterwards: state.delete_file_afterwards,
    }
}

/// The state after the wait went on: a complete file is imported, any other is given up.
pub open spec fn task_waited(state: TaskState, wait: WaitState) -> TaskState {
    TaskState {
        wait,
        stage: match wait.stage {
            WaitStage::Check => TaskStage::Check,
            WaitStage::Sleep => TaskStage::Sleep,
            WaitStage::Finished(true) => import_stage(state),
            WaitStage::Finished(false) => TaskStage::FreePath,
        },
        ..state
    }
}

/// The state before anything is done.
pub open spec fn task_start(
    path: KeyPath,
    other_kme_id: i64,
    delete_file_afterwards: bool,
) -> TaskState {
    TaskState {
        path,
        other_kme_id,
        delete_file_afterwards,
        wait: crate::completion::wait_start(),
        stage: TaskStage::Check,
    }
}

/// Whether nothing is done yet.
pub open spec fn is_task_start(state: TaskState) -> bool {
    state == task_start(state.path, state.other_kme_id, state.delete_file_afterwards)
}

/// The state after an event. An event that was not asked for changes nothing.
pub open spec fn task_step(state: TaskState, event: TaskEvent) -> TaskState {
    match (state.stage, event) {
        (TaskStage::Check, TaskEvent::Checked(metadata)) => task_waited(
            state,
            crate::completion::wait_checked(state.wait, metadata),
        ),
        (TaskStage::Sleep, TaskEvent::Slept) => task_waited(
            state,
            crate::completion::wait_slept(state.wait),
        ),
        (TaskStage::ImportFile { .. }, TaskEvent::Imported(outcome)) => TaskState {
            stage: if crate::key_file::keys_are_stored(outcome) {
                TaskStage::Done
            } else {
                TaskStage::FreePath
            },
            ..state
        },
        (TaskStage::FreePath, TaskEvent::Freed) => TaskState { stage: TaskStage::Done, ..state },
        _ => state,
    }
}

/// The import of a reported key file whose path is reserved: it waits until the file is
/// complete, imports it, and frees the path if its keys are not stored.
#[derive(Debug)]
pub struct ImportTask {
    path: KeyPath,
    other_kme_id: i64,
    delete_file_afterwards: bool,
    wait: CompletionWait,
    stage: TaskStage,
}

impl View for ImportTask {
    type V = TaskState;

    closed spec fn view(&self) -> TaskState {
        TaskState {
            path: self.path,
            other_kme_id: self.other_kme_id,
            delete_file_afterwards: self.delete_file_afterwards,
            wait: self.wait@,
            stage: self.stage,
        }
    }
}

impl ImportTask {
    /// The import of a file with keys that are shared with a KME. It has not looked at the file
    /// yet.
    pub fn new(path: KeyPath, other_kme_id: i64, delete_file_afterwards: bool) -> (task: ImportTask)
        ensures
            task@ == task_start(path, other_kme_id, delete_file_afterwards),
            task@.path == path,
            task@.other_kme_id == other_kme_id,
            task@.delete_file_afterwards == delete_file_afterwards,
            task@.stage == TaskStage::Check,
    {
        ImportTask {
            path,
            other_kme_id,
            delete_file_afterwards,
            wait: CompletionWait::new(),
            stage: TaskStage::Check,
        }
    }

    /// The path of the file.
    pub fn path(&self) -> (path: &KeyPath)
        ensures
            *path == self@.path,
    {
        &self.path
    }

    /// What the import asks for next.
    pub fn stage(&self) -> (stage: TaskStage)
        ensures
            stage == self@.stage,
    {
        self.stage
    }

    /// The import after the wait went on.
    fn waited(
        path: KeyPath,
        other_kme_id: i64,
        delete_file_afterwards: bool,
        wait: CompletionWait,
    ) -> (next: ImportTask)
        ensures
            next@ == task_waited(task_start(path, other_kme_id, delete_file_afterwards), wait@),
    {
        let stage = match wait.stage() {
            WaitStage::Check => TaskStage::Check,
            WaitStage::Sleep => TaskStage::Sleep,
            WaitStage::Finished(true) => TaskStage::ImportFile {
                other_kme_id,
                delete_file_afterwards,
            },
            WaitStage::Finished(false) => TaskStage::FreePath,
        };
        ImportTask { path, other_kme_id, delete_file_afterwards, wait, stage }
    }

    /// Takes what came of the thing that was asked for.
    pub fn advance(self, event: TaskEvent) -> (next: ImportTask)
        ensures
            next@ == task_step(self@, event),
    {
        let ImportTask { path, other_kme_id, delete_file_afterwards, wait, stage } = self;
        let stage = match (stage, event) {
            (TaskStage::Check, TaskEvent::Checked(metadata)) => {
                let wait = wait.checked(metadata);
                return ImportTask::waited(path, other_kme_id, delete_file_afterwards, wait);
            },
            (TaskStage::Sleep, TaskEvent::Slept) => {
                let wait = wait.slept();
                return ImportTask::waited(path, other_kme_id, delete_file_afterwards, wait);
            },
            (TaskStage::ImportFile { .. }, TaskEvent::Imported(outcome)) => {
                if stored_keys(&outcome) {
                    TaskStage::Done
                } else {
                    TaskStage::FreePath
                }
            },
            (TaskStage::FreePath, TaskEvent::Freed) => TaskStage::Done,
            (stage, _) => stage,
        };
        ImportTask { path, other_kme_id, delete_file_afterwards, wait, stage }
    }
}

/// The state after checks that saw what `seen` holds, each followed by the sleep it asks for.
pub open spec fn task_run(start: TaskState, seen: Seq<Option<FileMetadata>>) -> TaskState
    decreases seen.len(),
{
    if seen.len() == 0 {
        start
    } else {
        let checked = task_step(task_run(start, seen.drop_last()), TaskEvent::Checked(seen.last()));
        task_step(checked, TaskEvent::Slept)
    }
}

/// A file is imported exactly when it settles within the maximum number of checks, and then with
/// the KME and the setting that the import was started with. Its path is freed exactly when it
/// does not settle, and is missing or all checks are used up.
pub proof fn law_task_imports_settled_file(start: TaskState, seen: Seq<Option<FileMetadata>>)
    requires
        is_task_start(start),
    ensures
        task_run(start, seen).stage is ImportFile <==> exists|i: int|
            crate::completion::settles(seen, i),
        task_run(start, seen).stage is ImportFile ==> task_run(start, seen).stage == import_stage(
            start,
        ),
        task_run(start, seen).stage == TaskStage::FreePath <==> {
            &&& !exists|i: int| crate::completion::settles(seen, i)
            &&& {
                ||| seen.len() >= crate::completion::KEY_FILE_SIZE_CHECK_COUNT
                ||| exists|i: int| crate::completion::is_lost(seen, i)
            }
        },
{
    lemma_task_follows_wait(start, seen);
    crate::completion::law_wait_verdict(seen);
}

/// Until it is over, an import of a reported file does what the wait asks for.
proof fn lemma_task_follows_wait(start: TaskState, seen: Seq<Option<FileMetadata>>)
    requires
        is_task_start(start),
    ensures
        task_run(start, seen) == task_waited(start, crate::completion::wait_run(seen)),
    decreases seen.len(),
{
    if seen.len() > 0 {
        lemma_task_follows_wait(start, seen.drop_last());
    }
}

/// The state after some events.
pub open spec fn task_events(start: TaskState, events: Seq<TaskEvent>) -> TaskState
    decreases events.len(),
{
    if events.len() == 0 {
        start
    } else {
        task_step(task_events(start, events.drop_last()), events.last())
    }
}

/// Whether the file was imported when that was asked for, so that its keys are stored.
pub open spec fn did_store(start: TaskState, events: Seq<TaskEvent>) -> bool
    decreases events.len(),
{
    events.len() > 0 && {
        ||| did_store(start, events.drop_last())
        ||| {
            &&& task_events(start, events.drop_last()).stage is ImportFile
            &&& events.last() matches TaskEvent::Imported(outcome)
            &&& crate::key_file::keys_are_stored(outcome)
        }
    }
}

/// Whether the path was freed when that was asked for.
pub open spec fn did_free(start: TaskState, events: Seq<TaskEvent>) -> bool
    decreases events.len(),
{
    events.len() > 0 && {
        ||| did_free(start, events.drop_last())
        ||| {
            &&& task_events(start, events.drop_last()).stage == TaskStage::FreePath
            &&& events.last() == TaskEvent::Freed
        }
    }
}

/// How the import of the file ended: with its outcome, or `None` if the file was not imported
/// when that was asked for.
pub open spec fn task_end(start: TaskState, events: Seq<TaskEvent>) -> Option<
    Result<(), ExtractError>,
>
    decreases events.len(),
{
    if events.len() == 0 {
        None
    } else {
        match (task_events(start, events.drop_last()).stage, events.last()) {
            (TaskStage::ImportFile { .. }, TaskEvent::Imported(outcome)) => Some(outcome),
            _ => task_end(start, events.drop_last()),
        }
    }
}

/// Whatever happens: an import of a reported file that is over has either stored its keys or
/// freed its path, and never both. A file whose keys are stored but that could not be deleted
/// keeps its path.
pub proof fn law_task_imports_or_frees(start: TaskState, events: Seq<TaskEvent>)
    requires
        is_task_start(start),
    ensures
        match task_events(start, events).stage {
            TaskStage::Done => did_store(start, events) != did_free(start, events),
            _ => !did_store(start, events) && !did_free(start, events),
        },
    decreases events.len(),
{
    if events.len() > 0 {
        law_task_imports_or_frees(start, events.drop_last());
    }
}

/// The end of a task tells what it did: its keys are stored exactly if its end says so, and
/// otherwise, once it is over, its path was freed.
pub proof fn law_task_end_tells_what_it_did(start: TaskState, events: Seq<TaskEvent>)
    requires
        is_task_start(start),
    ensures
        did_store(start, events) == end_stored_keys(task_end(start, events)),
        task_events(start, events).stage == TaskStage::Done ==> did_free(start, events)
            == !end_stored_keys(task_end(start, events)),
        task_events(start, events).path == start.path,
    decreases events.len(),
{
    law_task_imports_or_frees(start, events);
    if events.len() > 0 {
        let before = events.drop_last();
        law_task_imports_or_frees(start, before);
        law_task_end_tells_what_it_did(start, before);
        lemma_no_end_yet(start, before);
    }
}

/// While a task has not asked for the import of its file, or got no answer, it has no end.
proof fn lemma_no_end_yet(start: TaskState, events: Seq<TaskEvent>)
    requires
        is_task_start(start),
    ensures
        match task_events(start, events).stage {
            TaskStage::Check | TaskStage::Sleep | TaskStage::ImportFile { .. } => {
                task_end(start, events) is None
            },
            _ => true,
        },
    decreases events.len(),
{
    if events.len() > 0 {
        lemma_no_end_yet(start, events.drop_last());
    }
}

/// A task that is over does to the set of imported key files what its end does in a watch: if
/// the file was being imported, its path is freed exactly if the task freed it, and the file
/// counts as imported exactly if the task stored its keys.
pub proof fn law_task_end_is_watch_step(
    start: TaskState,
    events: Seq<TaskEvent>,
    files: WatchedFiles,
)
    requires
        is_task_start(start),
        task_events(start, events).stage == TaskStage::Done,
        files.running.contains(start.path@),
    ensures
        ({
            let path = start.path@;
            let step = WatchStep::Ended(path, task_end(start, events));
            watched_step(files, step) == (WatchedFiles {
                reserved: if did_free(start, events) {
                    crate::extractor::freed(files.reserved, path)
                } else {
                    files.reserved
                },
                running: files.running.remove(path),
                imported: if did_store(start, events) {
                    files.imported.insert(path)
                } else {
                    files.imported
                },
            })
        }),
{
    law_task_end_tells_what_it_did(start, events);
}

/// The key files of a watched directory.
pub struct WatchedFiles {
    /// The paths in the set of imported key files.
    pub reserved: Set<Seq<Component>>,
    /// The paths of the files that are being imported.
    pub running: Set<Seq<Component>>,
    /// The paths of the files whose keys are stored.
    pub imported: Set<Seq<Component>>,
}

/// Something that happens to a key file of a watched directory.
pub enum WatchStep {
    /// An event names the file.
    Reported(Seq<Component>),
    /// An import of the file that was running is over. Holds its outcome, or `None` if the file
    /// did not become complete.
    Ended(Seq<Component>, Option<Result<(), ExtractError>>),
}

/// The start of a watch: the files that were read before are imported, and are in the set.
pub open spec fn watched_start(read_before: Set<Seq<Component>>) -> WatchedFiles {
    WatchedFiles { reserved: read_before, running: Set::empty(), imported: read_before }
}

/// Whether a step begins an import: an event names a file whose path can be reserved.
pub open spec fn begins_import(files: WatchedFiles, step: WatchStep, path: Seq<Component>) -> bool {
    step == WatchStep::Reported(path) && crate::extractor::can_reserve(files.reserved, path)
}

/// Whether an import that ended like this stored its keys.
pub open spec fn end_stored_keys(end: Option<Result<(), ExtractError>>) -> bool {
    end matches Some(outcome) && crate::key_file::keys_are_stored(outcome)
}

/// Whether a step stores the keys of a file.
pub open spec fn stores_keys(files: WatchedFiles, step: WatchStep, path: Seq<Component>) -> bool {
    &&& step matches WatchStep::Ended(file, end)
    &&& file == path
    &&& files.running.contains(path)
    &&& end_stored_keys(end)
}

/// The files after a step: the path of a reported file is reserved, and an import begins if
/// that succeeds; the path of a file whose keys are not stored in the end is freed.
pub open spec fn watched_step(files: WatchedFiles, step: WatchStep) -> WatchedFiles {
    match step {
        WatchStep::Reported(path) => WatchedFiles {
            reserved: crate::extractor::reserved(files.reserved, path),
            running: if crate::extractor::can_reserve(files.reserved, path) {
                files.running.insert(path)
            } else {
                files.running
            },
            imported: files.imported,
        },
        WatchStep::Ended(path, end) => if !files.running.contains(path) {
            files
        } else if end_stored_keys(end) {
            WatchedFiles {
                reserved: files.reserved,
                running: files.running.remove(path),
                imported: files.imported.insert(path),
            }
        } else {
            WatchedFiles {
                reserved: crate::extractor::freed(files.reserved, path),
                running: files.running.remove(path),
                imported: files.imported,
            }
        },
    }
}

/// The files after some steps.
pub open spec fn watched_steps(files: WatchedFiles, steps: Seq<WatchStep>) -> WatchedFiles
    decreases steps.len(),
{
    if steps.len() == 0 {
        files
    } else {
        watched_step(watched_steps(files, steps.drop_last()), steps.last())
    }
}

/// The files after some steps since the start of a watch.
pub open spec fn watched_run(read_before: Set<Seq<Component>>, steps: Seq<WatchStep>) -> WatchedFiles {
    watched_steps(watched_start(read_before), steps)
}

/// At any time, the set of imported key files holds exactly the files whose keys are stored and
/// those that are being imported, and no file is both. So an event begins an import exactly if
/// the file it names is neither imported nor being imported.
pub proof fn law_reserved_files(
    read_before: Set<Seq<Component>>,
    steps: Seq<WatchStep>,
    path: Seq<Component>,
)
    ensures
        ({
            let files = watched_run(read_before, steps);
            &&& files.reserved == files.running.union(files.imported)
            &&& files.running.disjoint(files.imported)
            &&& begins_import(files, WatchStep::Reported(path), path) <==> {
                &&& !files.running.contains(path)
                &&& !files.imported.contains(path)
            }
        }),
    decreases steps.len(),
{
    let files = watched_run(read_before, steps);
    if steps.len() > 0 {
        law_reserved_files(read_before, steps.drop_last(), path);
    }
    assert(files.reserved =~= files.running.union(files.imported));
}

/// Each file is imported one time only: once its keys are stored, or if it was read before the
/// watch began, it stays imported, no event begins an import of it again, and no step stores its
/// keys again. This holds even if the file could not be deleted.
pub proof fn law_imported_once(
    read_before: Set<Seq<Component>>,
    steps: Seq<WatchStep>,
    at: int,
    path: Seq<Component>,
)
    requires
        0 <= at <= steps.len(),
        watched_run(read_before, steps.take(at)).imported.contains(path),
    ensures
        watched_run(read_before, steps).imported.contains(path),
        !watched_run(read_before, steps).running.contains(path),
        forall|step: WatchStep| !begins_import(watched_run(read_before, steps), step, path),
        forall|step: WatchStep| !stores_keys(watched_run(read_before, steps), step, path),
    decreases steps.len(),
{
    if at == steps.len() {
        assert(steps.take(at) =~= steps);
    } else {
        assert(steps.drop_last().take(at) =~= steps.take(at));
        law_imported_once(read_before, steps.drop_last(), at, path);
    }
    law_reserved_files(read_before, steps, path);
}

/// How many times the keys of a file are stored in a watch.
pub open spec fn times_stored(
    read_before: Set<Seq<Component>>,
    steps: Seq<WatchStep>,
    path: Seq<Component>,
) -> nat
    decreases steps.len(),
{
    if steps.len() == 0 {
        0
    } else {
        let before = steps.drop_last();
        times_stored(read_before, before, path) + if stores_keys(
            watched_run(read_before, before),
            steps.last(),
            path,
        ) {
            1nat
        } else {
            0nat
        }
    }
}

/// The keys of a file are stored at most once in a watch, and never if the file was read before.
pub proof fn law_keys_stored_at_most_once(
    read_before: Set<Seq<Component>>,
    steps: Seq<WatchStep>,
    path: Seq<Component>,
)
    ensures
        times_stored(read_before, steps, path) <= 1,
        read_before.contains(path) ==> times_stored(read_before, steps, path) == 0,
        watched_run(read_before, steps).imported.contains(path) <==> {
            read_before.contains(path) || times_stored(read_before, steps, path) == 1
        },
    decreases steps.len(),
{
    if steps.len() > 0 {
        let before = steps.drop_last();
        law_keys_stored_at_most_once(read_before, before, path);
        law_reserved_files(read_before, before, path);
    }
}

/// After an import that did not store its keys, the next event that names the file begins a new
/// one.
pub proof fn law_failed_import_can_be_retried(
    read_before: Set<Seq<Component>>,
    steps: Seq<WatchStep>,
    path: Seq<Component>,
    end: Option<Result<(), ExtractError>>,
)
    requires
        watched_run(read_before, steps).running.contains(path),
        !end_stored_keys(end),
    ensures
        begins_import(
            watched_step(watched_run(read_before, steps), WatchStep::Ended(path, end)),
            WatchStep::Reported(path),
            path,
        ),
{
}

/// The steps that name some files.
pub open spec fn reports(paths: Seq<KeyPath>) -> Seq<WatchStep> {
    paths.map_values(|path: KeyPath| WatchStep::Reported(path@))
}

/// The set after some files are reported.
pub open spec fn reserved_after(files: Set<Seq<Component>>, paths: Seq<KeyPath>) -> Set<
    Seq<Component>,
>
    decreases paths.len(),
{
    if paths.len() == 0 {
        files
    } else {
        crate::extractor::reserved(reserved_after(files, paths.drop_last()), paths.last()@)
    }
}

/// The files, in order, whose path could be reserved when their turn came.
pub open spec fn begun_among(files: Set<Seq<Component>>, paths: Seq<KeyPath>) -> Seq<KeyPath>
    decreases paths.len(),
{
    if paths.len() == 0 {
        Seq::empty()
    } else {
        let before = paths.drop_last();
        if crate::extractor::can_reserve(reserved_after(files, before), paths.last()@) {
            begun_among(files, before).push(paths.last())
        } else {
            begun_among(files, before)
        }
    }
}

/// The paths, without how they are spelled, of some files.
pub open spec fn paths_of(files: Seq<KeyPath>) -> Set<Seq<Component>> {
    files.map_values(|path: KeyPath| path@).to_set()
}

/// Reporting files to a watch reserves them, and begins exactly the imports of those whose path
/// could be reserved when their turn came.
pub proof fn law_reports_begin_imports(files: WatchedFiles, paths: Seq<KeyPath>)
    ensures
        watched_steps(files, reports(paths)) == (WatchedFiles {
            reserved: reserved_after(files.reserved, paths),
            running: files.running.union(paths_of(begun_among(files.reserved, paths))),
            imported: files.imported,
        }),
    decreases paths.len(),
{
    let after = watched_steps(files, reports(paths));
    let begun = begun_among(files.reserved, paths).map_values(|path: KeyPath| path@);
    if paths.len() == 0 {
        assert(files.running.union(begun.to_set()) =~= files.running);
    } else {
        let before = paths.drop_last();
        law_reports_begin_imports(files, before);
        assert(reports(paths).drop_last() =~= reports(before));
        let begun_before = begun_among(files.reserved, before).map_values(|path: KeyPath| path@);
        let path = paths.last()@;
        if crate::extractor::can_reserve(reserved_after(files.reserved, before), path) {
            assert(begun =~= begun_before.push(path));
            assert(begun.to_set() =~= begun_before.to_set().insert(path)) by {
                assert(begun[begun.len() - 1] == path);
                assert forall|other: Seq<Component>|
                    begun_before.contains(other) implies begun.contains(other) by {
                    let i = choose|i: int| 0 <= i < begun_before.len() && begun_before[i] == other;
                    assert(begun[i] == other);
                }
            }
        }
        assert(after.running =~= files.running.union(begun.to_set()));
    }
}

impl ConfigExtractor {
    /// Reserves the key files that an event names, and returns those that an import is to begin
    /// for: the ones that this call reserved.
    ///
    /// Takes what came of locking the set of imported key files.
    pub fn begin_imports(
        imported_key_files: Result<&mut ImportedKeyFiles, LockPoisoned>,
        event: WatchEvent,
    ) -> (begun: Vec<KeyPath>)
        ensures
            match imported_key_files {
                Ok(files) => {
                    let named = event_key_files(event);
                    &&& begun@ == begun_among(files@, named)
                    &&& forall|i: int|
                        0 <= i < begun@.len() ==> {
                            &&& crate::path::is_key_file((#[trigger] begun@[i])@)
                            &&& !files@.contains(begun@[i]@)
                            &&& event.paths@.contains(Some(begun@[i]))
                        }
                    &&& forall|i: int, j: int|
                        0 <= i < j < begun@.len() ==> (#[trigger] begun@[i])@ != (
                        #[trigger] begun@[j])@
                    &&& forall|path: KeyPath| #[trigger]
                        named.contains(path) ==> final(files)@.contains(path@)
                    &&& final(files)@ == files@.union(paths_of(begun@))
                    &&& final(files)@ == reserved_after(files@, named)
                    &&& forall|watched: WatchedFiles|
                        watched.reserved == files@ ==> #[trigger] watched_steps(
                            watched,
                            reports(named),
                        ) == (WatchedFiles {
                            reserved: final(files)@,
                            running: watched.running.union(paths_of(begun@)),
                            imported: watched.imported,
                        })
                },
                Err(_) => begun@.len() == 0,
            },
    {
        let mut begun: Vec<KeyPath> = Vec::new();
        let files = match imported_key_files {
            Ok(files) => files,
            Err(_) => return begun,
        };
        let ghost before = files@;
        let ghost named = event_key_files(event);
        let paths = event.key_files();
        for path in iter: paths
            invariant
                iter.seq() == named,
                files@ == reserved_after(before, named.take(iter.index() as int)),
                begun@ == begun_among(before, named.take(iter.index() as int)),
        {
            proof {
                let next = named.take(iter.index() + 1);
                assert(next.drop_last() =~= named.take(iter.index() as int));
            }
            if ConfigExtractor::reserve_key_file(Ok(&mut *files), &path) {
                begun.push(path);
            }
        }
        assert(named.take(named.len() as int) =~= named);
        proof {
            law_begun_imports(before, named);
            law_event_names_key_files(event);
            assert forall|i: int| 0 <= i < begun@.len() implies {
                &&& crate::path::is_key_file((#[trigger] begun@[i])@)
                &&& !before.contains(begun@[i]@)
                &&& event.paths@.contains(Some(begun@[i]))
            } by {
                assert(named.contains(begun@[i]));
            }
            assert forall|watched: WatchedFiles|
                watched.reserved == before implies #[trigger] watched_steps(
                watched,
                reports(named),
            ) == (WatchedFiles {
                reserved: files@,
                running: watched.running.union(paths_of(begun@)),
                imported: watched.imported,
            }) by {
                law_reports_begin_imports(watched, named);
            }
        }
        begun
    }
}

/// An event can mean that a new key file is there if its writer closed it after writing, or if it
/// was created or modified; no other event can: not another access, nor a removal, nor an event
/// of which nothing is known.
pub proof fn law_kinds_that_start_imports(access: AccessKind, mode: AccessMode)
    ensures
        starts_import(WatchEventKind::Create),
        starts_import(WatchEventKind::Modify),
        starts_import(WatchEventKind::Access(AccessKind::Close(AccessMode::Write))),
        !starts_import(WatchEventKind::Any),
        !starts_import(WatchEventKind::Remove),
        !starts_import(WatchEventKind::Other),
        starts_import(WatchEventKind::Access(access)) ==> access is Close,
        starts_import(WatchEventKind::Access(AccessKind::Close(mode))) ==> mode is Write,
{
}

/// The files that an event names are key files, and a path is among them exactly if the event is
/// of a kind that can mean a new key file, and names the path, and it is a key file.
pub proof fn law_event_names_key_files(event: WatchEvent)
    ensures
        forall|i: int|
            0 <= i < event_key_files(event).len() ==> crate::path::is_key_file(
                (#[trigger] event_key_files(event)[i])@,
            ),
        forall|path: KeyPath| #[trigger]
            event_key_files(event).contains(path) <==> {
                &&& starts_import(event.kind)
                &&& crate::path::is_key_file(path@)
                &&& event.paths@.contains(Some(path))
            },
{
    let files = event_key_files(event);
    assert forall|path: KeyPath| #[trigger] files.contains(path) <==> {
        &&& starts_import(event.kind)
        &&& crate::path::is_key_file(path@)
        &&& event.paths@.contains(Some(path))
    } by {
        if starts_import(event.kind) {
            lemma_key_files_contained(event.paths@, path);
        }
    }
    assert forall|i: int| 0 <= i < files.len() implies crate::path::is_key_file(
        (#[trigger] files[i])@,
    ) by {
        assert(files.contains(files[i]));
    }
}

/// A path is among the key files of some paths exactly if it is one of them and a key file.
proof fn lemma_key_files_contained(paths: Seq<Option<KeyPath>>, path: KeyPath)
    ensures
        key_files_among(paths).contains(path) <==> {
            crate::path::is_key_file(path@) && paths.contains(Some(path))
        },
    decreases paths.len(),
{
    if paths.len() > 0 {
        let before = paths.drop_last();
        lemma_key_files_contained(before, path);
        let files = key_files_among(paths);
        let files_before = key_files_among(before);
        let last = paths.len() - 1;
        assert(paths.contains(Some(path)) <==> before.contains(Some(path)) || paths[last] == Some(
            path,
        )) by {
            if paths.contains(Some(path)) {
                let i = choose|i: int| 0 <= i < paths.len() && paths[i] == Some(path);
                if i < last {
                    assert(before[i] == Some(path));
                }
            }
            if before.contains(Some(path)) {
                let i = choose|i: int| 0 <= i < before.len() && before[i] == Some(path);
                assert(paths[i] == Some(path));
            }
        }
        if let Some(file) = paths[last] {
            if crate::path::is_key_file(file@) {
                assert(files == files_before.push(file));
                assert(files.contains(path) <==> files_before.contains(path) || file == path) by {
                    assert(files[files.len() - 1] == file);
                    if files.contains(path) {
                        let i = choose|i: int| 0 <= i < files.len() && files[i] == path;
                        if i < files.len() - 1 {
                            assert(files_before[i] == path);
                        }
                    }
                    if files_before.contains(path) {
                        let i = choose|i: int|
                            0 <= i < files_before.len() && files_before[i] == path;
                        assert(files[i] == path);
                    }
                }
            }
        }
    }
}

/// The key files among some paths come in the order of the paths, each as often as it is named:
/// those of two lists, one after the other, are those of the first and then those of the second.
pub proof fn law_key_files_keep_order(first: Seq<Option<KeyPath>>, second: Seq<Option<KeyPath>>)
    ensures
        key_files_among(first + second) == key_files_among(first) + key_files_among(second),
        key_files_among(first).len() <= first.len(),
    decreases second.len(), first.len(),
{
    if first.len() > 0 {
        let none = Seq::<Option<KeyPath>>::empty();
        law_key_files_keep_order(first.drop_last(), none);
    }
    if second.len() == 0 {
        assert(first + second =~= first);
        assert(key_files_among(first) + key_files_among(second) =~= key_files_among(first));
    } else {
        law_key_files_keep_order(first, second.drop_last());
        assert((first + second).drop_last() =~= first + second.drop_last());
        assert((first + second).last() == second.last());
        assert(key_files_among(first) + key_files_among(second) =~= key_files_among(
            first + second,
        ));
    }
}

/// A list of one path has it for its key file exactly if it is one.
pub proof fn law_key_files_of_one_path(path: KeyPath)
    ensures
        crate::path::is_key_file(path@) ==> key_files_among(seq![Some(path)]) == seq![path],
        !crate::path::is_key_file(path@) ==> key_files_among(seq![Some(path)]).len() == 0,
        key_files_among(seq![None::<KeyPath>]).len() == 0,
{
    reveal_with_fuel(key_files_among, 2);
    assert(seq![Some(path)].drop_last() =~= Seq::<Option<KeyPath>>::empty());
    assert(seq![None::<KeyPath>].drop_last() =~= Seq::<Option<KeyPath>>::empty());
    assert(Seq::<KeyPath>::empty().push(path) =~= seq![path]);
}

/// The files that imports begin for are among those that are named, none of them was in the set
/// before, and no two of them are one path; every named file is in the set afterwards, and what
/// the set gains are exactly these files.
pub proof fn law_begun_imports(files: Set<Seq<Component>>, named: Seq<KeyPath>)
    ensures
        ({
            let begun = begun_among(files, named);
            let after = reserved_after(files, named);
            &&& forall|i: int|
                0 <= i < begun.len() ==> named.contains(#[trigger] begun[i]) && !files.contains(
                    begun[i]@,
                )
            &&& forall|i: int, j: int|
                0 <= i < j < begun.len() ==> (#[trigger] begun[i])@ != (#[trigger] begun[j])@
            &&& forall|i: int| 0 <= i < named.len() ==> after.contains((#[trigger] named[i])@)
            &&& after == files.union(paths_of(begun))
        }),
    decreases named.len(),
{
    let begun = begun_among(files, named);
    let after = reserved_after(files, named);
    if named.len() == 0 {
        assert(after =~= files.union(paths_of(begun)));
    } else {
        let before = named.drop_last();
        law_begun_imports(files, before);
        let begun_before = begun_among(files, before);
        let after_before = reserved_after(files, before);
        let last = named[named.len() - 1];
        assert forall|i: int| 0 <= i < begun_before.len() implies named.contains(
            #[trigger] begun_before[i],
        ) by {
            assert(before.contains(begun_before[i]));
            let k = choose|k: int| 0 <= k < before.len() && before[k] == begun_before[i];
            assert(named[k] == begun_before[i]);
        }
        assert forall|i: int| 0 <= i < named.len() implies after.contains(
            (#[trigger] named[i])@,
        ) by {
            if i < before.len() {
                assert(before[i] == named[i]);
            }
        }
        let views = begun.map_values(|path: KeyPath| path@);
        let views_before = begun_before.map_values(|path: KeyPath| path@);
        if crate::extractor::can_reserve(after_before, last@) {
            assert(begun == begun_before.push(last));
            assert(views =~= views_before.push(last@));
            assert(views.to_set() =~= views_before.to_set().insert(last@)) by {
                assert(views[views.len() - 1] == last@);
                assert forall|other: Seq<Component>|
                    views_before.contains(other) implies views.contains(other) by {
                    let i = choose|i: int| 0 <= i < views_before.len() && views_before[i] == other;
                    assert(views[i] == other);
                }
            }
            assert forall|i: int| 0 <= i < begun_before.len() implies (
            #[trigger] begun_before[i])@ != last@ by {
                assert(views_before[i] == begun_before[i]@);
                assert(paths_of(begun_before).contains(begun_before[i]@));
            }
            assert(named.contains(last));
            assert(!files.contains(last@));
        }
        assert(after =~= files.union(paths_of(begun)));
    }
}

/// Whether an import begins for a file depends on the files named before it alone: naming two
/// lists of files at once is naming one after the other. A single file is begun, as it is
/// spelled, exactly if its path is not in the set.
pub proof fn law_imports_begin_in_order(
    files: Set<Seq<Component>>,
    first: Seq<KeyPath>,
    second: Seq<KeyPath>,
    path: KeyPath,
)
    ensures
        begun_among(files, first + second) == begun_among(files, first) + begun_among(
            reserved_after(files, first),
            second,
        ),
        reserved_after(files, first + second) == reserved_after(
            reserved_after(files, first),
            second,
        ),
        begun_among(files, seq![path]) == if files.contains(path@) {
            Seq::empty()
        } else {
            seq![path]
        },
    decreases second.len(),
{
    reveal_with_fuel(begun_among, 2);
    reveal_with_fuel(reserved_after, 2);
    assert(seq![path].drop_last() =~= Seq::<KeyPath>::empty());
    assert(Seq::<KeyPath>::empty().push(path) =~= seq![path]);
    if second.len() == 0 {
        assert(first + second =~= first);
    } else {
        law_imports_begin_in_order(files, first, second.drop_last(), path);
        assert((first + second).drop_last() =~= first + second.drop_last());
        assert((first + second).last() == second.last());
    }
    assert(begun_among(files, first + second) =~= begun_among(files, first) + begun_among(
        reserved_after(files, first),
        second,
    ));
}

/// Whatever happens, an import of a reported file keeps the path, the KME and the delete setting
/// it was started with, and asks for the import of the file with these.
pub proof fn law_task_keeps_settings(
    path: KeyPath,
    other_kme_id: i64,
    delete_file_afterwards: bool,
    events: Seq<TaskEvent>,
)
    ensures
        ({
            let start = task_start(path, other_kme_id, delete_file_afterwards);
            let state = task_events(start, events);
            &&& start.stage == TaskStage::Check
            &&& start.wait == crate::completion::wait_start()
            &&& state.path == path
            &&& state.other_kme_id == other_kme_id
            &&& state.delete_file_afterwards == delete_file_afterwards
            &&& state.stage is ImportFile ==> state.stage == (TaskStage::ImportFile {
                other_kme_id,
                delete_file_afterwards,
            })
        }),
    decreases events.len(),
{
    if events.len() > 0 {
        law_task_keeps_settings(path, other_kme_id, delete_file_afterwards, events.drop_last());
    }
}

/// An import of a reported file changes only through an answer to what it asked for. While it
/// waits, it asks for what the wait asks for; the file is imported once it is complete, and its
/// path is freed once it is given up. The answer to the import of the file ends it, or leads to
/// the path being freed: it ends it exactly if the import succeeded or only failed to delete the
/// file.
pub proof fn law_task_answers(state: TaskState, event: TaskEvent)
    ensures
        ({
            let next = task_step(state, event);
            let answers = match state.stage {
                TaskStage::Check => event is Checked,
                TaskStage::Sleep => event is Slept,
                TaskStage::ImportFile { .. } => event is Imported,
                TaskStage::FreePath => event is Freed,
                TaskStage::Done => false,
            };
            &&& !answers ==> next == state
            &&& state.stage is Check && event is Checked ==> next.wait
                == crate::completion::wait_checked(state.wait, event->Checked_0)
            &&& state.stage is Sleep && event is Slept ==> next.wait
                == crate::completion::wait_slept(state.wait)
            &&& answers && (event is Checked || event is Slept) ==> {
                &&& next.wait.stage == WaitStage::Check <==> next.stage == TaskStage::Check
                &&& next.wait.stage == WaitStage::Sleep <==> next.stage == TaskStage::Sleep
                &&& next.wait.stage == WaitStage::Finished(true) <==> next.stage is ImportFile
                &&& next.wait.stage == WaitStage::Finished(false) <==> next.stage
                    == TaskStage::FreePath
            }
            &&& event is Imported || event is Freed ==> next.wait == state.wait
            &&& state.stage is FreePath && event is Freed ==> next.stage == TaskStage::Done
            &&& state.stage is ImportFile && event is Imported ==> {
                let outcome = event->Imported_0;
                if outcome is Ok || outcome->Err_0 is DeleteFile {
                    next.stage == TaskStage::Done
                } else {
                    next.stage == TaskStage::FreePath
                }
            }
        }),
{
}

} // verus!
