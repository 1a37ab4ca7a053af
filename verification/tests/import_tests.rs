use qkd_config_extractor::completion::{CompletionWait, FileMetadata, WaitStage, KEY_FILE_SIZE_CHECK_COUNT, KEY_FILE_SIZE_CHECK_INTERVAL_MS};
use qkd_config_extractor::error::{labelled, ExtractError};
use qkd_config_extractor::key_dir::{DirEntry, DirEvent, DirImport, DirStage};
use qkd_config_extractor::key_file::{split_keys, stored_keys, FileEvent, FileImport, FileStage};
use qkd_config_extractor::path::KeyPath;

const KEY_SIZE: usize = 32;

fn file(len: u64) -> Option<FileMetadata> {
    Some(FileMetadata { is_file: true, len })
}

fn wait_on(seen: &[Option<FileMetadata>]) -> WaitStage {
    let mut wait = CompletionWait::new();
    for metadata in seen {
        wait = wait.checked(*metadata).slept();
    }
    wait.stage()
}

#[test]
fn an_unchanged_file_is_complete() {
    assert_eq!(wait_on(&[]), WaitStage::Check);
    assert_eq!(wait_on(&[file(32)]), WaitStage::Check);
    assert_eq!(wait_on(&[file(32), file(32)]), WaitStage::Finished(true));
    assert_eq!(wait_on(&[file(32), file(64), file(64)]), WaitStage::Finished(true));
    assert_eq!(wait_on(&[file(32), file(32), None]), WaitStage::Finished(true));
}

#[test]
fn an_absent_file_is_not_complete() {
    assert_eq!(wait_on(&[None]), WaitStage::Finished(false));
    assert_eq!(wait_on(&[file(32), None, file(32)]), WaitStage::Finished(false));
}

#[test]
fn a_directory_is_not_a_key_file() {
    assert_eq!(wait_on(&[Some(FileMetadata { is_file: false, len: 32 })]), WaitStage::Finished(false));
}

#[test]
fn an_empty_file_never_becomes_complete() {
    let almost: Vec<Option<FileMetadata>> = vec![file(0); KEY_FILE_SIZE_CHECK_COUNT as usize - 1];
    assert_eq!(wait_on(&almost), WaitStage::Check);
    let all: Vec<Option<FileMetadata>> = vec![file(0); KEY_FILE_SIZE_CHECK_COUNT as usize];
    assert_eq!(wait_on(&all), WaitStage::Finished(false));
}

#[test]
fn a_file_that_keeps_growing_is_given_up() {
    assert_eq!(KEY_FILE_SIZE_CHECK_COUNT, 50);
    assert_eq!(KEY_FILE_SIZE_CHECK_INTERVAL_MS, 200);
    let mut seen: Vec<Option<FileMetadata>> = (1..50).map(file).collect();
    assert_eq!(wait_on(&seen), WaitStage::Check);
    seen.push(file(49));
    assert_eq!(wait_on(&seen), WaitStage::Finished(true));
    seen[49] = file(50);
    assert_eq!(wait_on(&seen), WaitStage::Finished(false));
}

#[test]
fn a_wait_ignores_what_it_did_not_ask_for() {
    let wait = CompletionWait::new().slept();
    assert_eq!(wait.stage(), WaitStage::Check);
    let wait = wait.checked(file(1));
    assert_eq!(wait.stage(), WaitStage::Sleep);
    let wait = wait.checked(None);
    assert_eq!(wait.stage(), WaitStage::Sleep);
}

#[test]
fn keys_are_split_in_order() {
    let keys = split_keys(&[1, 2, 3, 4, 5, 6, 7], 9, 3);
    assert_eq!(keys.len(), 2);
    assert_eq!(keys[0].key, vec![1, 2, 3]);
    assert_eq!(keys[1].key, vec![4, 5, 6]);
    assert!(keys.iter().all(|key| key.other_kme_id == 9));
    assert!(split_keys(&[1, 2], 9, 3).is_empty());
    assert!(split_keys(&[], 9, 3).is_empty());
    let exact: Vec<u8> = (0..64).collect();
    let keys = split_keys(&exact, 1, KEY_SIZE);
    let joined: Vec<u8> = keys.into_iter().flat_map(|key| key.key).collect();
    assert_eq!(joined, exact);
}

fn import_until(events: Vec<FileEvent>, delete: bool) -> FileImport {
    let mut import = FileImport::new(2, delete, KEY_SIZE);
    for event in events {
        import = import.advance(event);
    }
    import
}

fn good_start() -> Vec<FileEvent> {
    vec![
        FileEvent::Metadata(Ok(FileMetadata { is_file: true, len: 70 })),
        FileEvent::Opened(Ok(())),
        FileEvent::Contents(vec![0x42; 70]),
    ]
}

#[test]
fn a_file_is_imported_step_by_step() {
    let import = FileImport::new(2, true, KEY_SIZE);
    assert!(matches!(import.stage(), FileStage::ReadMetadata));
    let import = import.advance(FileEvent::Metadata(Ok(FileMetadata { is_file: true, len: 70 })));
    assert!(matches!(import.stage(), FileStage::OpenFile));
    let import = import.advance(FileEvent::Opened(Ok(())));
    assert!(matches!(import.stage(), FileStage::ReadContents));
    let import = import.advance(FileEvent::Contents(vec![0x42; 70]));
    match import.stage() {
        FileStage::CreateKey { keys, created } => {
            assert_eq!(*created, 0);
            assert_eq!(keys.len(), 2);
            assert_eq!(keys[1].key, vec![0x42; KEY_SIZE]);
            assert_eq!(keys[1].other_kme_id, 2);
        }
        _ => panic!("no keys"),
    }
    let import = import.advance(FileEvent::KeyCreated(Ok(())));
    assert!(matches!(import.stage(), FileStage::CreateKey { created: 1, .. }));
    let import = import.advance(FileEvent::KeyCreated(Ok(())));
    match import.stage() {
        FileStage::StoreKeys(keys) => assert_eq!(keys.len(), 2),
        _ => panic!("no keys"),
    }
    let import = import.advance(FileEvent::KeysStored(Ok(())));
    assert!(matches!(import.stage(), FileStage::DeleteFile));
    let import = import.advance(FileEvent::Deleted(Ok(())));
    assert!(matches!(import.outcome(), Some(Ok(()))));
}

#[test]
fn a_file_is_kept_unless_asked_for() {
    let mut events = good_start();
    events.push(FileEvent::KeyCreated(Ok(())));
    events.push(FileEvent::KeyCreated(Ok(())));
    events.push(FileEvent::KeysStored(Ok(())));
    assert!(matches!(import_until(events, false).outcome(), Some(Ok(()))));
}

fn message_of(import: FileImport) -> String {
    match import.outcome() {
        Some(Err(e)) => e.message(),
        _ => panic!("no error"),
    }
}

#[test]
fn each_step_of_a_file_import_can_fail() {
    let e = || Err("e".to_owned());
    assert_eq!(message_of(import_until(vec![FileEvent::Metadata(Err("e".to_owned()))], true)), "Cannot read file metadata: e");
    assert_eq!(
        message_of(import_until(vec![FileEvent::Metadata(Ok(FileMetadata { is_file: false, len: 0 }))], true)),
        "Path is not a file"
    );
    let mut events = good_start();
    events[1] = FileEvent::Opened(e());
    assert_eq!(message_of(import_until(events, true)), "Cannot open file: e");
    let mut events = good_start();
    events.push(FileEvent::KeyCreated(Ok(())));
    events.push(FileEvent::KeyCreated(e()));
    events.push(FileEvent::KeyCreated(Err("later".to_owned())));
    assert_eq!(message_of(import_until(events, true)), "Cannot create QKD key: e");
    let mut events = good_start();
    events.push(FileEvent::KeyCreated(Ok(())));
    events.push(FileEvent::KeyCreated(Ok(())));
    events.push(FileEvent::KeysStored(e()));
    assert_eq!(message_of(import_until(events, true)), "Cannot import QKD keys from file: e");
    let mut events = good_start();
    events.push(FileEvent::KeyCreated(Ok(())));
    events.push(FileEvent::KeyCreated(Ok(())));
    events.push(FileEvent::KeysStored(Ok(())));
    events.push(FileEvent::Deleted(e()));
    assert_eq!(message_of(import_until(events, true)), "Cannot delete file after reading: e");
}

#[test]
fn a_file_import_ignores_what_it_did_not_ask_for() {
    let import = import_until(vec![FileEvent::KeysStored(Ok(())), FileEvent::Deleted(Ok(()))], true);
    assert!(matches!(import.stage(), FileStage::ReadMetadata));
    assert!(import.outcome().is_none());
}

fn entry(is_file: bool, path: Option<&str>) -> DirEvent {
    DirEvent::Entry(DirEntry { is_file, path: path.map(KeyPath::new) })
}

#[test]
fn a_directory_import_takes_the_key_files() {
    let mut import = DirImport::new(2, true);
    assert!(matches!(import.stage(), DirStage::OpenDir));
    import = import.advance(DirEvent::Opened(Ok(())));
    for skipped in [entry(true, Some("d/a.txt")), entry(false, Some("d/sub.cor")), entry(false, None), DirEvent::EntryFailed] {
        import = import.advance(skipped);
        assert!(matches!(import.stage(), DirStage::NextEntry));
    }
    import = import.advance(entry(true, Some("d/a.cor")));
    match import.stage() {
        DirStage::ImportFile { path, other_kme_id, delete_file_afterwards } => {
            assert_eq!(path.as_str(), "d/a.cor");
            assert_eq!(*other_kme_id, 2);
            assert!(*delete_file_afterwards);
        }
        _ => panic!("not imported"),
    }
    import = import.advance(DirEvent::FileImported(Ok(())));
    import = import.advance(DirEvent::EndOfDir);
    assert!(matches!(import.stage(), DirStage::Done));
    let mut files = match import.outcome() {
        Some(Ok(files)) => files,
        _ => panic!("failed"),
    };
    assert!(!files.insert(KeyPath::new("d/a.cor")));
    assert!(files.insert(KeyPath::new("d/a.txt")));
    assert!(files.insert(KeyPath::new("d/sub.cor")));
}

#[test]
fn a_directory_import_can_fail() {
    let failed = |events: Vec<DirEvent>| {
        let mut import = DirImport::new(2, true);
        for event in events {
            import = import.advance(event);
        }
        match import.outcome() {
            Some(Err(e)) => e.message(),
            _ => panic!("no error"),
        }
    };
    assert_eq!(failed(vec![DirEvent::Opened(Err("gone".to_owned()))]), "Cannot read directory: gone");
    assert_eq!(failed(vec![DirEvent::Opened(Ok(())), entry(true, None)]), "Error converting path to string");
    assert_eq!(
        failed(vec![
            DirEvent::Opened(Ok(())),
            entry(true, Some("a.cor")),
            DirEvent::FileImported(Err(ExtractError::NotAFile)),
            DirEvent::EndOfDir,
        ]),
        "Path is not a file"
    );
    assert!(DirImport::new(2, true).advance(DirEvent::Opened(Ok(()))).outcome().is_none());
}

#[test]
fn messages() {
    assert_eq!(labelled("a: ", "b"), "a: b");
    let e = || "e".to_owned();
    assert_eq!(ExtractError::CreateManager(e()).message(), "e");
    assert_eq!(ExtractError::AddSae(e()).message(), "Cannot add SAE config: e");
    assert_eq!(ExtractError::AddKmeNetInfo(e()).message(), "Cannot add KME classical network info: e");
    assert_eq!(ExtractError::CreateWatcher(e()).message(), "Error creating watcher: e");
    assert_eq!(
        ExtractError::WatchDirectory("unexisting/directory".to_owned()).message(),
        "Error watching directory: \"unexisting/directory\""
    );
    assert_eq!(ExtractError::WatchDirectory("a\"b".to_owned()).message(), "Error watching directory: \"a\\\"b\"");
}

#[test]
fn the_outcome_tells_whether_keys_are_stored() {
    let e = || "e".to_owned();
    assert!(stored_keys(&Ok(())));
    assert!(stored_keys(&Err(ExtractError::DeleteFile(e()))));
    for failure in [
        ExtractError::ReadMetadata(e()),
        ExtractError::NotAFile,
        ExtractError::OpenFile(e()),
        ExtractError::CreateKey(e()),
        ExtractError::StoreKeys(e()),
    ] {
        assert!(!stored_keys(&Err(failure)));
    }
}

#[test]
fn a_file_that_is_too_short_has_no_keys_to_create() {
    let events = vec![
        FileEvent::Metadata(Ok(FileMetadata { is_file: true, len: 31 })),
        FileEvent::Opened(Ok(())),
        FileEvent::Contents(vec![0x42; 31]),
    ];
    match import_until(events, false).stage() {
        FileStage::StoreKeys(keys) => assert!(keys.is_empty()),
        _ => panic!("keys"),
    }
}
