//! The import of one key file.

use crate::completion::FileMetadata;
use crate::error::ExtractError;
use vstd::prelude::*;
use vstd::slice::slice_subrange;

verus! {

/// A key as it is read, before the manager takes it.
#[derive(Debug)]
pub struct PreInitQkdKey {
    /// The KME that the key is shared with.
    pub other_kme_id: i64,
    /// The bytes of the key.
    pub key: Vec<u8>,
}

/// The mathematical value of a `PreInitQkdKey`.
pub struct KeyView {
    pub other_kme_id: i64,
    pub key: Seq<u8>,
}

impl View for PreInitQkdKey {
    type V = KeyView;

    open spec fn view(&self) -> KeyView {
        KeyView { other_kme_id: self.other_kme_id, key: self.key@ }
    }
}

/// Key `i` of a file: its bytes follow those of the keys before it.
pub open spec fn key_at(contents: Seq<u8>, other_kme_id: i64, key_size: int, i: int) -> KeyView {
    KeyView {
        other_kme_id,
        key: contents.subrange(i * key_size, i * key_size + key_size),
    }
}

/// The keys of a file: as many as fit in it. The bytes that remain at the end are no key.
pub open spec fn keys_in(contents: Seq<u8>, other_kme_id: i64, key_size: int) -> Seq<KeyView> {
    Seq::new(
        (contents.len() / (key_size as nat)) as nat,
        |i: int| key_at(contents, other_kme_id, key_size, i),
    )
}

/// The keys in the contents of a key file.
pub fn split_keys(contents: &[u8], other_kme_id: i64, key_size: usize) -> (keys: Vec<PreInitQkdKey>)
    requires
        key_size > 0,
    ensures
        keys@.map_values(|key: PreInitQkdKey| key@) == keys_in(
            contents@,
            other_kme_id,
            key_size as int,
        ),
        keys@.len() == contents@.len() / (key_size as nat),
        forall|i: int| 0 <= i < keys@.len() ==> (#[trigger] keys@[i]).other_kme_id == other_kme_id,
        forall|i: int|
            0 <= i < keys@.len() ==> (#[trigger] keys@[i]).key@ == contents@.subrange(
                i * key_size,
                i * key_size + key_size,
            ),
{
    let len: usize = contents.len();
    let keys_count: usize = len / key_size;
    let mut keys: Vec<PreInitQkdKey> = Vec::with_capacity(keys_count);
    let mut start: usize = 0;
    assert(0 * key_size == 0) by (nonlinear_arith);
    for i in 0..keys_count
        invariant
            key_size > 0,
            len == contents@.len(),
            keys_count == len / key_size,
            start == i * key_size,
            keys@.len() == i,
            forall|j: int|
                0 <= j < i ==> (#[trigger] keys@[j])@ == key_at(
                    contents@,
                    other_kme_id,
                    key_size as int,
                    j,
                ),
            forall|j: int| 0 <= j < i ==> (#[trigger] keys@[j]).other_kme_id == other_kme_id,
            forall|j: int|
                0 <= j < i ==> (#[trigger] keys@[j]).key@ == contents@.subrange(
                    j * key_size,
                    j * key_size + key_size,
                ),
    {
        proof {
            lemma_key_fits(len as int, key_size as int, i as int);
        }
        let end: usize = start + key_size;
        let mut key: Vec<u8> = Vec::with_capacity(key_size);
        key.extend_from_slice(slice_subrange(contents, start, end));
        assert(key@ =~= contents@.subrange(start as int, end as int));
        keys.push(PreInitQkdKey { other_kme_id, key });
        start = end;
        assert(start == (i + 1) * key_size) by (nonlinear_arith)
            requires
                start == i * key_size + key_size,
        ;
    }
    assert(keys@.map_values(|key: PreInitQkdKey| key@) =~= keys_in(
        contents@,
        other_kme_id,
        key_size as int,
    ));
    keys
}

/// The bytes of every key lie in the file.
proof fn lemma_key_fits(len: int, key_size: int, i: int)
    requires
        key_size > 0,
        0 <= i < len / key_size,
    ensures
        0 <= i * key_size,
        i * key_size + key_size <= len,
{
    vstd::arithmetic::div_mod::lemma_fundamental_div_mod(len, key_size);
    assert(0 <= i * key_size && i * key_size + key_size <= key_size * (len / key_size))
        by (nonlinear_arith)
        requires
            key_size > 0,
            0 <= i < len / key_size,
    ;
}

/// The keys of a file, one after the other, are the file without the bytes that remain at the
/// end, which are too few for a key. Every one of them is shared with the KME of the import.
pub proof fn law_keys_cover_file(contents: Seq<u8>, other_kme_id: i64, key_size: int)
    requires
        key_size > 0,
    ensures
        ({
            let keys = keys_in(contents, other_kme_id, key_size);
            let used = keys.len() * key_size;
            &&& joined(keys) == contents.take(used)
            &&& used <= contents.len() < used + key_size
            &&& forall|i: int| 0 <= i < keys.len() ==> (#[trigger] keys[i]).key.len() == key_size
            &&& forall|i: int|
                0 <= i < keys.len() ==> (#[trigger] keys[i]).other_kme_id == other_kme_id
            &&& forall|i: int, j: int|
                0 <= i < keys.len() && 0 <= j < key_size ==> #[trigger] keys[i].key[j]
                    == contents[i * key_size + j]
        }),
{
    let keys = keys_in(contents, other_kme_id, key_size);
    let len = contents.len() as int;
    vstd::arithmetic::div_mod::lemma_fundamental_div_mod(len, key_size);
    assert(key_size * (len / key_size) == keys.len() * key_size) by (nonlinear_arith)
        requires
            keys.len() == len / key_size,
    ;
    assert forall|i: int| 0 <= i < keys.len() implies (#[trigger] keys[i]).key.len() == key_size by {
        lemma_key_fits(len, key_size, i);
    }
    assert forall|i: int, j: int| 0 <= i < keys.len() && 0 <= j < key_size implies #[trigger] keys[i].key[j]
        == contents[i * key_size + j] by {
        lemma_key_fits(len, key_size, i);
    }
    lemma_joined(contents, other_kme_id, key_size, keys.len() as int);
    assert(keys.take(keys.len() as int) =~= keys);
}

/// The bytes of keys, one after the other.
pub open spec fn joined(keys: Seq<KeyView>) -> Seq<u8>
    decreases keys.len(),
{
    if keys.len() == 0 {
        Seq::empty()
    } else {
        joined(keys.drop_last()) + keys.last().key
    }
}

/// The first `n` keys of a file, one after the other, are its first bytes.
proof fn lemma_joined(contents: Seq<u8>, other_kme_id: i64, key_size: int, n: int)
    requires
        key_size > 0,
        0 <= n <= keys_in(contents, other_kme_id, key_size).len(),
    ensures
        joined(keys_in(contents, other_kme_id, key_size).take(n)) == contents.take(n * key_size),
    decreases n,
{
    let keys = keys_in(contents, other_kme_id, key_size);
    if n == 0 {
        assert(0 * key_size == 0) by (nonlinear_arith);
        assert(joined(keys.take(0)) =~= contents.take(0));
    } else {
        lemma_joined(contents, other_kme_id, key_size, n - 1);
        lemma_key_fits(contents.len() as int, key_size, n - 1);
        assert((n - 1) * key_size + key_size == n * key_size) by (nonlinear_arith);
        assert(keys.take(n).drop_last() =~= keys.take(n - 1));
        assert(joined(keys.take(n)) =~= contents.take(n * key_size));
    }
}

/// What the import of a key file asks for next.
#[derive(Debug)]
pub enum FileStage {
    /// Read the metadata of the file.
    ReadMetadata,
    /// Open the file.
    OpenFile,
    /// Read the bytes of the file, up to its end or the first read error.
    ReadContents,
    /// Create the next key of the file. `created` is its position among all keys, and the number
    /// of keys that were created.
    CreateKey { keys: Vec<PreInitQkdKey>, created: usize },
    /// Store the keys, all of which were created, in one go.
    StoreKeys(Vec<PreInitQkdKey>),
    /// Delete the file.
    DeleteFile,
    /// Nothing more. Holds the outcome of the import.
    Finished(Result<(), ExtractError>),
}

/// The mathematical value of a `FileStage`.
pub enum FileStageView {
    ReadMetadata,
    OpenFile,
    ReadContents,
    CreateKey { keys: Seq<KeyView>, created: int },
    StoreKeys(Seq<KeyView>),
    DeleteFile,
    Finished(Result<(), ExtractError>),
}

impl View for FileStage {
    type V = FileStageView;

    open spec fn view(&self) -> FileStageView {
        match self {
            FileStage::ReadMetadata => FileStageView::ReadMetadata,
            FileStage::OpenFile => FileStageView::OpenFile,
            FileStage::ReadContents => FileStageView::ReadContents,
            FileStage::CreateKey { keys, created } => FileStageView::CreateKey {
                keys: keys@.map_values(|key: PreInitQkdKey| key@),
                created: *created as int,
            },
            FileStage::StoreKeys(keys) => FileStageView::StoreKeys(
                keys@.map_values(|key: PreInitQkdKey| key@),
            ),
            FileStage::DeleteFile => FileStageView::DeleteFile,
            FileStage::Finished(outcome) => FileStageView::Finished(*outcome),
        }
    }
}

/// What came of something that the import of a key file asked for. Failures hold the debug text
/// of the error.
#[derive(Debug)]
pub enum FileEvent {
    Metadata(Result<FileMetadata, String>),
    Opened(Result<(), String>),
    Contents(Vec<u8>),
    KeyCreated(Result<(), String>),
    KeysStored(Result<(), String>),
    Deleted(Result<(), String>),
}

/// The mathematical state of the import of a key file.
pub struct FileImportState {
    pub other_kme_id: i64,
    pub delete_file_afterwards: bool,
    pub key_size: int,
    pub stage: FileStageView,
}

/// The state before anything is done.
pub open spec fn file_start(
    other_kme_id: i64,
    delete_file_afterwards: bool,
    key_size: int,
) -> FileImportState {
    FileImportState {
        other_kme_id,
        delete_file_afterwards,
        key_size,
        stage: FileStageView::ReadMetadata,
    }
}

/// The stage when some keys of a file were created: the next one is, or all are stored.
pub open spec fn created_stage(keys: Seq<KeyView>, created: int) -> FileStageView {
    if created < keys.len() {
        FileStageView::CreateKey { keys, created }
    } else {
        FileStageView::StoreKeys(keys)
    }
}

/// The stage after an event. An event that was not asked for changes nothing.
pub open spec fn file_next_stage(state: FileImportState, event: FileEvent) -> FileStageView {
    match (state.stage, event) {
        (FileStageView::ReadMetadata, FileEvent::Metadata(Ok(metadata))) => if metadata.is_file {
            FileStageView::OpenFile
        } else {
            FileStageView::Finished(Err(ExtractError::NotAFile))
        },
        (FileStageView::ReadMetadata, FileEvent::Metadata(Err(e))) => FileStageView::Finished(
            Err(ExtractError::ReadMetadata(e)),
        ),
        (FileStageView::OpenFile, FileEvent::Opened(Ok(_))) => FileStageView::ReadContents,
        (FileStageView::OpenFile, FileEvent::Opened(Err(e))) => FileStageView::Finished(
            Err(ExtractError::OpenFile(e)),
        ),
        (FileStageView::ReadContents, FileEvent::Contents(contents)) => created_stage(
            keys_in(contents@, state.other_kme_id, state.key_size),
            0,
        ),
        (FileStageView::CreateKey { keys, created }, FileEvent::KeyCreated(Ok(_))) => {
            created_stage(keys, created + 1)
        },
        (FileStageView::CreateKey { .. }, FileEvent::KeyCreated(Err(e))) => {
            FileStageView::Finished(Err(ExtractError::CreateKey(e)))
        },
        (FileStageView::StoreKeys(_), FileEvent::KeysStored(Ok(_))) => {
            if state.delete_file_afterwards {
                FileStageView::DeleteFile
            } else {
                FileStageView::Finished(Ok(()))
            }
        },
        (FileStageView::StoreKeys(_), FileEvent::KeysStored(Err(e))) => FileStageView::Finished(
            Err(ExtractError::StoreKeys(e)),
        ),
        (FileStageView::DeleteFile, FileEvent::Deleted(Ok(_))) => FileStageView::Finished(Ok(())),
        (FileStageView::DeleteFile, FileEvent::Deleted(Err(e))) => FileStageView::Finished(
            Err(ExtractError::DeleteFile(e)),
        ),
        _ => state.stage,
    }
}

/// The state after an event.
pub open spec fn file_step(state: FileImportState, event: FileEvent) -> FileImportState {
    FileImportState { stage: file_next_stage(state, event), ..state }
}

/// The stage when some keys of a file were created.
fn after_created(keys: Vec<PreInitQkdKey>, created: usize) -> (stage: FileStage)
    ensures
        stage@ == created_stage(keys@.map_values(|key: PreInitQkdKey| key@), created as int),
        stage matches FileStage::CreateKey { keys, created } ==> created < keys@.len(),
{
    if created < keys.len() {
        FileStage::CreateKey { keys, created }
    } else {
        FileStage::StoreKeys(keys)
    }
}

/// The import of one key file.
#[derive(Debug)]
pub struct FileImport {
    other_kme_id: i64,
    delete_file_afterwards: bool,
    key_size: usize,
    stage: FileStage,
}

impl View for FileImport {
    type V = FileImportState;

    closed spec fn view(&self) -> FileImportState {
        FileImportState {
            other_kme_id: self.other_kme_id,
            delete_file_afterwards: self.delete_file_afterwards,
            key_size: self.key_size as int,
            stage: self.stage@,
        }
    }
}

impl FileImport {
    /// A key has at least one byte, and a key that is asked for is one of the file.
    #[verifier::type_invariant]
    closed spec fn keys_exist(&self) -> bool {
        &&& self.key_size > 0
        &&& self.stage matches FileStage::CreateKey { keys, created } ==> created < keys@.len()
    }

    /// The import of a file with keys of `key_size` bytes that are shared with a KME.
    pub fn new(other_kme_id: i64, delete_file_afterwards: bool, key_size: usize) -> (import:
        FileImport)
        requires
            key_size > 0,
        ensures
            import@ == file_start(other_kme_id, delete_file_afterwards, key_size as int),
            import@.other_kme_id == other_kme_id,
            import@.delete_file_afterwards == delete_file_afterwards,
            import@.key_size == key_size,
            import@.stage == FileStageView::ReadMetadata,
    {
        FileImport {
            other_kme_id,
            delete_file_afterwards,
            key_size,
            stage: FileStage::ReadMetadata,
        }
    }

    /// What the import asks for next.
    pub fn stage(&self) -> (stage: &FileStage)
        ensures
            stage@ == self@.stage,
            stage matches FileStage::CreateKey { keys, created } ==> created < keys@.len(),
    {
        proof {
            use_type_invariant(self);
        }
        &self.stage
    }

    /// Takes what came of the thing that was asked for.
    pub fn advance(self, event: FileEvent) -> (next: FileImport)
        ensures
            next@ == file_step(self@, event),
    {
        proof {
            use_type_invariant(&self);
        }
        let FileImport { other_kme_id, delete_file_afterwards, key_size, stage } = self;
        let stage = match (stage, event) {
            (FileStage::ReadMetadata, FileEvent::Metadata(Ok(metadata))) => if metadata.is_file {
                FileStage::OpenFile
            } else {
                FileStage::Finished(Err(ExtractError::NotAFile))
            },
            (FileStage::ReadMetadata, FileEvent::Metadata(Err(e))) => FileStage::Finished(
                Err(ExtractError::ReadMetadata(e)),
            ),
            (FileStage::OpenFile, FileEvent::Opened(Ok(_))) => FileStage::ReadContents,
            (FileStage::OpenFile, FileEvent::Opened(Err(e))) => FileStage::Finished(
                Err(ExtractError::OpenFile(e)),
            ),
            (FileStage::ReadContents, FileEvent::Contents(contents)) => after_created(
                split_keys(contents.as_slice(), other_kme_id, key_size),
                0,
            ),
            (FileStage::CreateKey { keys, created }, FileEvent::KeyCreated(Ok(_))) => {
                let count: usize = keys.len();
                assert(created < count);
                after_created(keys, created + 1)
            },
            (FileStage::CreateKey { .. }, FileEvent::KeyCreated(Err(e))) => FileStage::Finished(
                Err(ExtractError::CreateKey(e)),
            ),
            (FileStage::StoreKeys(_), FileEvent::KeysStored(Ok(_))) => if delete_file_afterwards {
                FileStage::DeleteFile
            } else {
                FileStage::Finished(Ok(()))
            },
            (FileStage::StoreKeys(_), FileEvent::KeysStored(Err(e))) => FileStage::Finished(
                Err(ExtractError::StoreKeys(e)),
            ),
            (FileStage::DeleteFile, FileEvent::Deleted(Ok(_))) => FileStage::Finished(Ok(())),
            (FileStage::DeleteFile, FileEvent::Deleted(Err(e))) => FileStage::Finished(
                Err(ExtractError::DeleteFile(e)),
            ),
            (stage, _) => stage,
        };
        FileImport { other_kme_id, delete_file_afterwards, key_size, stage }
    }

    /// The outcome of the import. `None` while something is still asked for.
    pub fn outcome(self) -> (outcome: Option<Result<(), ExtractError>>)
        ensures
            match self@.stage {
                FileStageView::Finished(result) => outcome == Some(result),
                _ => outcome is None,
            },
    {
        match self.stage {
            FileStage::Finished(result) => Some(result),
            _ => None,
        }
    }
}

/// The state after some events.
pub open spec fn file_run(start: FileImportState, events: Seq<FileEvent>) -> FileImportState
    decreases events.len(),
{
    if events.len() == 0 {
        start
    } else {
        file_step(file_run(start, events.drop_last()), events.last())
    }
}

/// The stage at which event `i` comes.
pub open spec fn stage_at(start: FileImportState, events: Seq<FileEvent>, i: int) -> FileStageView {
    file_run(start, events.take(i)).stage
}

/// Whether the contents of the file were read when that was asked for, and are these.
#[verifier::opaque]
pub open spec fn contents_read(
    start: FileImportState,
    events: Seq<FileEvent>,
    contents: Seq<u8>,
) -> bool {
    exists|i: int|
        #![trigger events[i]]
        {
            &&& 0 <= i < events.len()
            &&& stage_at(start, events, i) == FileStageView::ReadContents
            &&& events[i] matches FileEvent::Contents(read)
            &&& read@ == contents
        }
}

/// Whether key `n` of these keys was created when that was asked for.
#[verifier::opaque]
pub open spec fn key_created(
    start: FileImportState,
    events: Seq<FileEvent>,
    keys: Seq<KeyView>,
    n: int,
) -> bool {
    exists|i: int|
        #![trigger events[i]]
        {
            &&& 0 <= i < events.len()
            &&& stage_at(start, events, i) == (FileStageView::CreateKey { keys, created: n })
            &&& events[i] matches FileEvent::KeyCreated(Ok(_))
        }
}

/// Whether the first `n` of these keys were created when that was asked for.
pub open spec fn keys_created(
    start: FileImportState,
    events: Seq<FileEvent>,
    keys: Seq<KeyView>,
    n: int,
) -> bool {
    forall|i: int| 0 <= i < n ==> #[trigger] key_created(start, events, keys, i)
}

/// Whether these keys were stored when that was asked for.
#[verifier::opaque]
pub open spec fn keys_stored(
    start: FileImportState,
    events: Seq<FileEvent>,
    keys: Seq<KeyView>,
) -> bool {
    exists|i: int|
        #![trigger events[i]]
        {
            &&& 0 <= i < events.len()
            &&& stage_at(start, events, i) == FileStageView::StoreKeys(keys)
            &&& events[i] matches FileEvent::KeysStored(Ok(_))
        }
}

/// Whether the file was deleted when that was asked for.
#[verifier::opaque]
pub open spec fn file_deleted(start: FileImportState, events: Seq<FileEvent>) -> bool {
    exists|i: int|
        #![trigger events[i]]
        {
            &&& 0 <= i < events.len()
            &&& stage_at(start, events, i) == FileStageView::DeleteFile
            &&& events[i] matches FileEvent::Deleted(Ok(_))
        }
}

/// Whether these are the keys of contents that were read.
pub open spec fn are_keys_read(
    start: FileImportState,
    events: Seq<FileEvent>,
    keys: Seq<KeyView>,
) -> bool {
    exists|contents: Seq<u8>|
        contents_read(start, events, contents) && keys == keys_in(
            contents,
            start.other_kme_id,
            start.key_size,
        )
}

/// Whether keys were stored, whichever they are.
pub open spec fn some_keys_stored(start: FileImportState, events: Seq<FileEvent>) -> bool {
    exists|keys: Seq<KeyView>| keys_stored(start, events, keys)
}

/// What happened before an event still holds after it.
proof fn lemma_file_history(start: FileImportState, events: Seq<FileEvent>)
    requires
        events.len() > 0,
    ensures
        forall|i: int|
            0 <= i < events.len() ==> stage_at(start, events.drop_last(), i) == #[trigger] stage_at(
                start,
                events,
                i,
            ),
        forall|keys: Seq<KeyView>|
            are_keys_read(start, events.drop_last(), keys) ==> #[trigger] are_keys_read(
                start,
                events,
                keys,
            ),
        forall|keys: Seq<KeyView>, n: int|
            keys_created(start, events.drop_last(), keys, n) ==> #[trigger] keys_created(
                start,
                events,
                keys,
                n,
            ),
        forall|keys: Seq<KeyView>|
            keys_stored(start, events.drop_last(), keys) ==> #[trigger] keys_stored(
                start,
                events,
                keys,
            ),
        some_keys_stored(start, events.drop_last()) ==> some_keys_stored(start, events),
        file_deleted(start, events.drop_last()) ==> file_deleted(start, events),
        stage_at(start, events, events.len() - 1) == file_run(start, events.drop_last()).stage,
{
    reveal(contents_read);
    reveal(key_created);
    reveal(keys_stored);
    reveal(file_deleted);
    let before = events.drop_last();
    assert forall|i: int| 0 <= i < events.len() implies stage_at(start, before, i)
        == #[trigger] stage_at(start, events, i) by {
        assert(before.take(i) =~= events.take(i));
    }
    assert(events.take(events.len() - 1) =~= before);
    assert(forall|i: int| 0 <= i < before.len() ==> events[i] == #[trigger] before[i]);
    assert forall|contents: Seq<u8>|
        contents_read(start, before, contents) implies #[trigger] contents_read(
        start,
        events,
        contents,
    ) by {
        let i = choose|i: int|
            #![trigger before[i]]
            {
                &&& 0 <= i < before.len()
                &&& stage_at(start, before, i) == FileStageView::ReadContents
                &&& before[i] matches FileEvent::Contents(read)
                &&& read@ == contents
            };
        assert(events[i] == before[i]);
        assert(stage_at(start, events, i) == FileStageView::ReadContents);
    }
    assert forall|keys: Seq<KeyView>|
        are_keys_read(start, before, keys) implies #[trigger] are_keys_read(start, events, keys) by {
        let contents = choose|contents: Seq<u8>|
            contents_read(start, before, contents) && keys == keys_in(
                contents,
                start.other_kme_id,
                start.key_size,
            );
        assert(contents_read(start, events, contents));
    }
    assert forall|keys: Seq<KeyView>, n: int|
        keys_created(start, before, keys, n) implies #[trigger] keys_created(
        start,
        events,
        keys,
        n,
    ) by {
        assert forall|k: int| 0 <= k < n implies #[trigger] key_created(start, events, keys, k) by {
            assert(key_created(start, before, keys, k));
            let i = choose|i: int|
                #![trigger before[i]]
                {
                    &&& 0 <= i < before.len()
                    &&& stage_at(start, before, i) == (FileStageView::CreateKey {
                        keys,
                        created: k,
                    })
                    &&& before[i] matches FileEvent::KeyCreated(Ok(_))
                };
            assert(events[i] == before[i]);
            assert(stage_at(start, events, i) == (FileStageView::CreateKey { keys, created: k }));
        }
    }
    assert forall|keys: Seq<KeyView>|
        keys_stored(start, before, keys) implies #[trigger] keys_stored(start, events, keys) by {
        let i = choose|i: int|
            #![trigger before[i]]
            {
                &&& 0 <= i < before.len()
                &&& stage_at(start, before, i) == FileStageView::StoreKeys(keys)
                &&& before[i] matches FileEvent::KeysStored(Ok(_))
            };
        assert(events[i] == before[i]);
        assert(stage_at(start, events, i) == FileStageView::StoreKeys(keys));
    }
    if some_keys_stored(start, before) {
        let keys = choose|keys: Seq<KeyView>| keys_stored(start, before, keys);
        assert(keys_stored(start, events, keys));
    }
    if file_deleted(start, before) {
        let i = choose|i: int|
            #![trigger before[i]]
            {
                &&& 0 <= i < before.len()
                &&& stage_at(start, before, i) == FileStageView::DeleteFile
                &&& before[i] matches FileEvent::Deleted(Ok(_))
            };
        assert(events[i] == before[i]);
        assert(stage_at(start, events, i) == FileStageView::DeleteFile);
    }
}

/// What was asked for before the last event, and came with it, did come.
proof fn lemma_file_last_event(start: FileImportState, events: Seq<FileEvent>)
    requires
        events.len() > 0,
    ensures
        match (file_run(start, events.drop_last()).stage, events.last()) {
            (FileStageView::ReadContents, FileEvent::Contents(read)) => contents_read(
                start,
                events,
                read@,
            ),
            (FileStageView::CreateKey { keys, created }, FileEvent::KeyCreated(Ok(_))) => {
                key_created(start, events, keys, created)
            },
            (FileStageView::StoreKeys(keys), FileEvent::KeysStored(Ok(_))) => keys_stored(
                start,
                events,
                keys,
            ),
            (FileStageView::DeleteFile, FileEvent::Deleted(Ok(_))) => file_deleted(start, events),
            _ => true,
        },
{
    reveal(contents_read);
    reveal(key_created);
    reveal(keys_stored);
    reveal(file_deleted);
    let last = events.len() - 1;
    assert(events.take(last) =~= events.drop_last());
    assert(events[last] == events.last());
}

/// Whether what has to come before a stage did come.
pub open spec fn stage_is_earned(
    start: FileImportState,
    events: Seq<FileEvent>,
    stage: FileStageView,
) -> bool {
    match stage {
        FileStageView::CreateKey { keys, created } => {
            &&& are_keys_read(start, events, keys)
            &&& 0 <= created < keys.len()
            &&& keys_created(start, events, keys, created)
        },
        FileStageView::StoreKeys(keys) => {
            &&& are_keys_read(start, events, keys)
            &&& keys_created(start, events, keys, keys.len() as int)
        },
        FileStageView::DeleteFile => start.delete_file_afterwards && some_keys_stored(start, events),
        FileStageView::Finished(Ok(_)) => {
            &&& some_keys_stored(start, events)
            &&& start.delete_file_afterwards ==> file_deleted(start, events)
        },
        _ => true,
    }
}

/// Whatever happens, and in whatever order: keys are only created from contents that were read,
/// one after the other; they are only stored once all were created; the file is only deleted once they are
/// stored, and only if that was wanted; and an import only succeeds once the keys are stored and
/// the file is deleted, if that was wanted. Things that were not asked for do not count.
pub proof fn law_file_import_order(start: FileImportState, events: Seq<FileEvent>)
    requires
        start.stage == FileStageView::ReadMetadata,
    ensures
        stage_is_earned(start, events, file_run(start, events).stage),
    decreases events.len(),
{
    if events.len() > 0 {
        let before = events.drop_last();
        law_file_import_order(start, before);
        lemma_file_params(start, before);
        lemma_file_history(start, events);
        lemma_file_last_event(start, events);
        match file_run(start, before).stage {
            FileStageView::CreateKey { keys, created } => {
                assert(are_keys_read(start, events, keys));
                assert(keys_created(start, events, keys, created));
            },
            FileStageView::StoreKeys(keys) => {
                assert(are_keys_read(start, events, keys));
                assert(keys_created(start, events, keys, keys.len() as int));
            },
            _ => {},
        }
    }
}

/// The keys that are stored are those of the contents that were read, and all were created.
pub proof fn law_stored_keys_are_those_read(
    start: FileImportState,
    events: Seq<FileEvent>,
    keys: Seq<KeyView>,
)
    requires
        start.stage == FileStageView::ReadMetadata,
        keys_stored(start, events, keys),
    ensures
        are_keys_read(start, events, keys),
        keys_created(start, events, keys, keys.len() as int),
    decreases events.len(),
{
    reveal(keys_stored);
    let before = events.drop_last();
    let i = choose|i: int|
        #![trigger events[i]]
        {
            &&& 0 <= i < events.len()
            &&& stage_at(start, events, i) == FileStageView::StoreKeys(keys)
            &&& events[i] matches FileEvent::KeysStored(Ok(_))
        };
    lemma_file_history(start, events);
    if i == events.len() - 1 {
        law_file_import_order(start, before);
    } else {
        assert(before[i] == events[i]);
        assert(stage_at(start, before, i) == stage_at(start, events, i));
        assert(keys_stored(start, before, keys));
        law_stored_keys_are_those_read(start, before, keys);
    }
}

/// Whether an import with this outcome stored its keys: it succeeded, or failed only to delete
/// the file afterwards.
pub open spec fn keys_are_stored(outcome: Result<(), ExtractError>) -> bool {
    match outcome {
        Ok(_) => true,
        Err(ExtractError::DeleteFile(_)) => true,
        Err(_) => false,
    }
}

/// Whether an import with this outcome stored its keys. If it did not, it can be tried again.
pub fn stored_keys(outcome: &Result<(), ExtractError>) -> (yes: bool)
    ensures
        yes == keys_are_stored(*outcome),
        yes <==> outcome is Ok || outcome->Err_0 is DeleteFile,
{
    match outcome {
        Ok(_) => true,
        Err(ExtractError::DeleteFile(_)) => true,
        Err(_) => false,
    }
}

/// The outcome of an import tells whether its keys were stored; and before it is over, keys are
/// only stored once a deletion of the file is asked for.
pub proof fn law_outcome_tells_stored_keys(start: FileImportState, events: Seq<FileEvent>)
    requires
        start.stage == FileStageView::ReadMetadata,
    ensures
        some_keys_stored(start, events) == match file_run(start, events).stage {
            FileStageView::Finished(outcome) => keys_are_stored(outcome),
            FileStageView::DeleteFile => true,
            _ => false,
        },
    decreases events.len(),
{
    reveal(keys_stored);
    if events.len() > 0 {
        let before = events.drop_last();
        let last = events.len() - 1;
        law_outcome_tells_stored_keys(start, before);
        lemma_file_history(start, events);
        lemma_file_last_event(start, events);
        if some_keys_stored(start, events) && !some_keys_stored(start, before) {
            let keys = choose|keys: Seq<KeyView>| keys_stored(start, events, keys);
            let i = choose|i: int|
                #![trigger events[i]]
                {
                    &&& 0 <= i < events.len()
                    &&& stage_at(start, events, i) == FileStageView::StoreKeys(keys)
                    &&& events[i] matches FileEvent::KeysStored(Ok(_))
                };
            if i < last {
                assert(before[i] == events[i]);
                assert(stage_at(start, before, i) == FileStageView::StoreKeys(keys));
                assert(keys_stored(start, before, keys));
            }
            assert(i == last);
        }
    }
}

/// No event changes what an import was started with.
proof fn lemma_file_params(start: FileImportState, events: Seq<FileEvent>)
    ensures
        file_run(start, events) == (FileImportState {
            stage: file_run(start, events).stage,
            ..start
        }),
    decreases events.len(),
{
    if events.len() > 0 {
        lemma_file_params(start, events.drop_last());
    }
}

/// The first refusal among the answers to the creation of keys.
pub open spec fn first_refusal(created: Seq<Result<(), String>>) -> Option<String>
    decreases created.len(),
{
    if created.len() == 0 {
        None
    } else {
        match (first_refusal(created.drop_last()), created.last()) {
            (Some(e), _) => Some(e),
            (None, Err(e)) => Some(e),
            (None, Ok(_)) => None,
        }
    }
}

/// The events that answer the creation of keys.
pub open spec fn creation_events(created: Seq<Result<(), String>>) -> Seq<FileEvent> {
    created.map_values(|result: Result<(), String>| FileEvent::KeyCreated(result))
}

/// The outcome of an import whose steps fare as the arguments say: that of the first step that
/// fails, or success.
pub open spec fn file_outcome(
    delete_file_afterwards: bool,
    metadata: Result<FileMetadata, String>,
    opened: Result<(), String>,
    created: Seq<Result<(), String>>,
    stored: Result<(), String>,
    deleted: Result<(), String>,
) -> Result<(), ExtractError> {
    if let Err(e) = metadata {
        Err(ExtractError::ReadMetadata(e))
    } else if !metadata->Ok_0.is_file {
        Err(ExtractError::NotAFile)
    } else if let Err(e) = opened {
        Err(ExtractError::OpenFile(e))
    } else if let Some(e) = first_refusal(created) {
        Err(ExtractError::CreateKey(e))
    } else if let Err(e) = stored {
        Err(ExtractError::StoreKeys(e))
    } else if !delete_file_afterwards {
        Ok(())
    } else if let Err(e) = deleted {
        Err(ExtractError::DeleteFile(e))
    } else {
        Ok(())
    }
}

/// More events go on from where the first ones led.
proof fn lemma_file_run_on(start: FileImportState, first: Seq<FileEvent>, more: Seq<FileEvent>)
    ensures
        file_run(start, first + more) == file_run(file_run(start, first), more),
    decreases more.len(),
{
    if more.len() == 0 {
        assert(first + more =~= first);
    } else {
        lemma_file_run_on(start, first, more.drop_last());
        assert((first + more).drop_last() =~= first + more.drop_last());
    }
}

/// An import that is over stays as it is.
proof fn lemma_file_stays_finished(start: FileImportState, events: Seq<FileEvent>)
    requires
        start.stage is Finished,
    ensures
        file_run(start, events) == start,
    decreases events.len(),
{
    if events.len() > 0 {
        lemma_file_stays_finished(start, events.drop_last());
    }
}

/// Keys are created one after the other, up to the first refusal, which ends the import.
pub proof fn law_creation_stops_at_refusal(
    start: FileImportState,
    keys: Seq<KeyView>,
    created: Seq<Result<(), String>>,
)
    requires
        start.stage == created_stage(keys, 0),
        created.len() <= keys.len(),
    ensures
        file_run(start, creation_events(created)).stage == match first_refusal(created) {
            Some(e) => FileStageView::Finished(Err(ExtractError::CreateKey(e))),
            None => created_stage(keys, created.len() as int),
        },
    decreases created.len(),
{
    if created.len() > 0 {
        law_creation_stops_at_refusal(start, keys, created.drop_last());
        assert(creation_events(created).drop_last() =~= creation_events(created.drop_last()));
    }
}

/// The events that read a file.
pub open spec fn reading_events(
    metadata: Result<FileMetadata, String>,
    opened: Result<(), String>,
    contents: Vec<u8>,
) -> Seq<FileEvent> {
    seq![FileEvent::Metadata(metadata), FileEvent::Opened(opened), FileEvent::Contents(contents)]
}

/// The events that store the keys of a file and delete it.
pub open spec fn storing_events(stored: Result<(), String>, deleted: Result<(), String>) -> Seq<
    FileEvent,
> {
    seq![FileEvent::KeysStored(stored), FileEvent::Deleted(deleted)]
}

/// An import whose steps are answered in turn ends with the outcome of the first step that
/// fails, or with success; and the keys that it creates on the way are those of the contents.
pub proof fn law_file_import_outcome(
    start: FileImportState,
    metadata: Result<FileMetadata, String>,
    opened: Result<(), String>,
    contents: Vec<u8>,
    created: Seq<Result<(), String>>,
    stored: Result<(), String>,
    deleted: Result<(), String>,
)
    requires
        start.stage == FileStageView::ReadMetadata,
        created.len() == keys_in(contents@, start.other_kme_id, start.key_size).len(),
    ensures
        ({
            let keys = keys_in(contents@, start.other_kme_id, start.key_size);
            let read = reading_events(metadata, opened, contents);
            let events = (read + creation_events(created)) + storing_events(stored, deleted);
            &&& file_run(start, events).stage == FileStageView::Finished(
                file_outcome(
                    start.delete_file_afterwards,
                    metadata,
                    opened,
                    created,
                    stored,
                    deleted,
                ),
            )
            &&& metadata is Ok && metadata->Ok_0.is_file && opened is Ok ==> file_run(
                start,
                read,
            ).stage == created_stage(keys, 0)
        }),
{
    let keys = keys_in(contents@, start.other_kme_id, start.key_size);
    let read = reading_events(metadata, opened, contents);
    let creating = creation_events(created);
    let storing = storing_events(stored, deleted);
    let after_read = file_run(start, read);
    lemma_file_params(start, read);
    assert(after_read.stage == if metadata is Ok && metadata->Ok_0.is_file && opened is Ok {
        created_stage(keys, 0)
    } else {
        FileStageView::Finished(
            file_outcome(
                start.delete_file_afterwards,
                metadata,
                opened,
                created,
                stored,
                deleted,
            ),
        )
    }) by {
        let a = FileEvent::Metadata(metadata);
        let b = FileEvent::Opened(opened);
        assert(read.drop_last() =~= seq![a, b]);
        assert(seq![a, b].drop_last() =~= seq![a]);
        assert(seq![a].drop_last() =~= Seq::<FileEvent>::empty());
        reveal_with_fuel(file_run, 4);
    }
    lemma_file_run_on(start, read, creating);
    lemma_file_run_on(start, read + creating, storing);
    let after_creating = file_run(after_read, creating);
    if after_read.stage is Finished {
        lemma_file_stays_finished(after_read, creating);
        lemma_file_stays_finished(after_creating, storing);
    } else {
        law_creation_stops_at_refusal(after_read, keys, created);
        lemma_file_params(after_read, creating);
        let d = FileEvent::KeysStored(stored);
        assert(storing.drop_last() =~= seq![d]);
        assert(seq![d].drop_last() =~= Seq::<FileEvent>::empty());
        reveal_with_fuel(file_run, 3);
    }
}

/// An import starts with what it is given, and no event changes that.
pub proof fn law_file_import_keeps_settings(
    other_kme_id: i64,
    delete_file_afterwards: bool,
    key_size: int,
    events: Seq<FileEvent>,
)
    ensures
        ({
            let start = file_start(other_kme_id, delete_file_afterwards, key_size);
            let state = file_run(start, events);
            &&& start.stage == FileStageView::ReadMetadata
            &&& state.other_kme_id == other_kme_id
            &&& state.delete_file_afterwards == delete_file_afterwards
            &&& state.key_size == key_size
        }),
{
    lemma_file_params(file_start(other_kme_id, delete_file_afterwards, key_size), events);
}

/// What is asked for can be read off the stage as it is, with all keys, their bytes and the KME
/// that each is shared with.
pub proof fn law_stage_shows_request(stage: FileStage, key: PreInitQkdKey)
    ensures
        key@.other_kme_id == key.other_kme_id,
        key@.key == key.key@,
        stage is ReadMetadata <==> stage@ is ReadMetadata,
        stage is OpenFile <==> stage@ is OpenFile,
        stage is ReadContents <==> stage@ is ReadContents,
        stage is CreateKey <==> stage@ is CreateKey,
        stage is StoreKeys <==> stage@ is StoreKeys,
        stage is DeleteFile <==> stage@ is DeleteFile,
        stage is Finished <==> stage@ is Finished,
        stage matches FileStage::Finished(outcome) ==> stage@ == FileStageView::Finished(outcome),
        stage matches FileStage::CreateKey { keys, created } ==> {
            &&& stage@->created == created
            &&& stage@->keys.len() == keys@.len()
            &&& forall|i: int| 0 <= i < keys@.len() ==> #[trigger] stage@->keys[i] == keys@[i]@
        },
        stage matches FileStage::StoreKeys(keys) ==> {
            &&& stage@->StoreKeys_0.len() == keys@.len()
            &&& forall|i: int|
                0 <= i < keys@.len() ==> #[trigger] stage@->StoreKeys_0[i] == keys@[i]@
        },
{
}

/// Whatever happens, the keys that an import asks to create or to store are shared with the KME
/// that it was given.
pub proof fn law_import_shares_keys_with_its_kme(
    other_kme_id: i64,
    delete_file_afterwards: bool,
    key_size: int,
    events: Seq<FileEvent>,
)
    requires
        key_size > 0,
    ensures
        match file_run(file_start(other_kme_id, delete_file_afterwards, key_size), events).stage {
            FileStageView::CreateKey { keys, .. } => forall|i: int|
                0 <= i < keys.len() ==> (#[trigger] keys[i]).other_kme_id == other_kme_id
                    && keys[i].key.len() == key_size,
            FileStageView::StoreKeys(keys) => forall|i: int|
                0 <= i < keys.len() ==> (#[trigger] keys[i]).other_kme_id == other_kme_id
                    && keys[i].key.len() == key_size,
            _ => true,
        },
{
    let start = file_start(other_kme_id, delete_file_afterwards, key_size);
    law_file_import_order(start, events);
    match file_run(start, events).stage {
        FileStageView::CreateKey { keys, .. } => {
            let contents = choose|contents: Seq<u8>|
                contents_read(start, events, contents) && keys == keys_in(
                    contents,
                    other_kme_id,
                    key_size,
                );
            law_keys_cover_file(contents, other_kme_id, key_size);
        },
        FileStageView::StoreKeys(keys) => {
            let contents = choose|contents: Seq<u8>|
                contents_read(start, events, contents) && keys == keys_in(
                    contents,
                    other_kme_id,
                    key_size,
                );
            law_keys_cover_file(contents, other_kme_id, key_size);
        },
        _ => {},
    }
}

/// An import whose file is not wanted gone never asks to delete it; and an outcome counts as
/// stored exactly if it is a success or a failed deletion.
pub proof fn law_file_is_kept_unless_asked(
    other_kme_id: i64,
    key_size: int,
    events: Seq<FileEvent>,
    outcome: Result<(), ExtractError>,
)
    ensures
        file_run(file_start(other_kme_id, false, key_size), events).stage !is DeleteFile,
        keys_are_stored(outcome) <==> outcome is Ok || outcome->Err_0 is DeleteFile,
{
    law_file_import_order(file_start(other_kme_id, false, key_size), events);
}

/// An import changes only through an answer to what it asked for, and every such answer moves
/// it on.
pub proof fn law_file_import_answers(state: FileImportState, event: FileEvent)
    ensures
        ({
            let answers = match state.stage {
                FileStageView::ReadMetadata => event is Metadata,
                FileStageView::OpenFile => event is Opened,
                FileStageView::ReadContents => event is Contents,
                FileStageView::CreateKey { .. } => event is KeyCreated,
                FileStageView::StoreKeys(_) => event is KeysStored,
                FileStageView::DeleteFile => event is Deleted,
                FileStageView::Finished(_) => false,
            };
            &&& !answers ==> file_step(state, event) == state
            &&& answers ==> file_step(state, event).stage != state.stage
        }),
{
}

/// The bytes that are read of a file are what its keys are made of: their number is that of the
/// whole keys that fit, the first one to be created is the first of them, and if none fits, there
/// is nothing to create.
pub proof fn law_contents_become_keys(state: FileImportState, contents: Vec<u8>)
    requires
        state.stage == FileStageView::ReadContents,
        state.key_size > 0,
    ensures
        match file_step(state, FileEvent::Contents(contents)).stage {
            FileStageView::CreateKey { keys, created } => {
                &&& created == 0
                &&& keys.len() == contents@.len() as int / state.key_size
                &&& joined(keys) == contents@.take(keys.len() * state.key_size)
            },
            FileStageView::StoreKeys(keys) => {
                keys.len() == 0 && contents@.len() < state.key_size
            },
            _ => false,
        },
{
    law_keys_cover_file(contents@, state.other_kme_id, state.key_size);
    let keys = keys_in(contents@, state.other_kme_id, state.key_size);
    if keys.len() == 0 {
        assert(0 * state.key_size == 0) by (nonlinear_arith);
    }
}

/// Whatever fails, the import ends with an error that says what could not be done and holds the
/// cause.
pub proof fn law_file_import_failures(
    state: FileImportState,
    metadata: FileMetadata,
    cause: String,
)
    ensures
        state.stage is ReadMetadata ==> {
            &&& file_step(state, FileEvent::Metadata(Err(cause))).stage == FileStageView::Finished(
                Err(ExtractError::ReadMetadata(cause)),
            )
            &&& !metadata.is_file ==> file_step(state, FileEvent::Metadata(Ok(metadata))).stage
                == FileStageView::Finished(Err(ExtractError::NotAFile))
        },
        state.stage is OpenFile ==> file_step(state, FileEvent::Opened(Err(cause))).stage
            == FileStageView::Finished(Err(ExtractError::OpenFile(cause))),
        state.stage is CreateKey ==> file_step(state, FileEvent::KeyCreated(Err(cause))).stage
            == FileStageView::Finished(Err(ExtractError::CreateKey(cause))),
        state.stage is StoreKeys ==> file_step(state, FileEvent::KeysStored(Err(cause))).stage
            == FileStageView::Finished(Err(ExtractError::StoreKeys(cause))),
        state.stage is DeleteFile ==> file_step(state, FileEvent::Deleted(Err(cause))).stage
            == FileStageView::Finished(Err(ExtractError::DeleteFile(cause))),
{
}

/// As long as nothing fails, a file is opened, read, its keys are created one after the other,
/// and once the last one is, the same keys are stored; then the file is deleted if that is wanted,
/// and the import succeeds.
pub proof fn law_file_import_successes(state: FileImportState, metadata: FileMetadata)
    ensures
        state.stage is ReadMetadata && metadata.is_file ==> file_step(
            state,
            FileEvent::Metadata(Ok(metadata)),
        ).stage == FileStageView::OpenFile,
        state.stage is OpenFile ==> file_step(state, FileEvent::Opened(Ok(()))).stage
            == FileStageView::ReadContents,
        state.stage matches FileStageView::CreateKey { keys, created } ==> {
            let next = file_step(state, FileEvent::KeyCreated(Ok(()))).stage;
            &&& created + 1 < keys.len() ==> next == (FileStageView::CreateKey {
                keys,
                created: created + 1,
            })
            &&& created + 1 >= keys.len() ==> next == FileStageView::StoreKeys(keys)
        },
        state.stage is StoreKeys ==> {
            let next = file_step(state, FileEvent::KeysStored(Ok(()))).stage;
            &&& state.delete_file_afterwards ==> next == FileStageView::DeleteFile
            &&& !state.delete_file_afterwards ==> next == FileStageView::Finished(Ok(()))
        },
        state.stage is DeleteFile ==> file_step(state, FileEvent::Deleted(Ok(()))).stage
            == FileStageView::Finished(Ok(())),
{
}

} // verus!
