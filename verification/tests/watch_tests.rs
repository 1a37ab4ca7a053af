use qkd_config_extractor::completion::FileMetadata;
use qkd_config_extractor::config::{Config, OtherKmeConfig, SaeConfig, Startup, StartupStep, StepReply, ThisKmeConfig};
use qkd_config_extractor::error::ExtractError;
use qkd_config_extractor::extractor::ConfigExtractor;
use qkd_config_extractor::imported::{ImportedKeyFiles, LockPoisoned};
use qkd_config_extractor::path::KeyPath;
use qkd_config_extractor::setup::{SetupEvent, SetupStage, WatchSetup};
use qkd_config_extractor::watch::{AccessKind, AccessMode, ImportTask, TaskEvent, TaskStage, WatchEvent, WatchEventKind};

#[test]
fn event_kinds() {
    assert!(WatchEventKind::Access(AccessKind::Close(AccessMode::Write)).starts_import());
    assert!(WatchEventKind::Create.starts_import());
    assert!(WatchEventKind::Modify.starts_import());
    for kind in [
        WatchEventKind::Any,
        WatchEventKind::Remove,
        WatchEventKind::Other,
        WatchEventKind::Access(AccessKind::Any),
        WatchEventKind::Access(AccessKind::Read),
        WatchEventKind::Access(AccessKind::Open(AccessMode::Write)),
        WatchEventKind::Access(AccessKind::Close(AccessMode::Read)),
        WatchEventKind::Access(AccessKind::Close(AccessMode::Any)),
    ] {
        assert!(!kind.starts_import());
    }
}

fn named(kind: WatchEventKind) -> Vec<String> {
    let paths = vec![
        Some(KeyPath::new("d/a.cor")),
        None,
        Some(KeyPath::new("d/b.txt")),
        Some(KeyPath::new("d/c.cor")),
        Some(KeyPath::new("d//a.cor")),
    ];
    WatchEvent { kind, paths }.key_files().iter().map(|path| path.as_str().to_owned()).collect()
}

#[test]
fn event_key_files() {
    assert_eq!(named(WatchEventKind::Create), vec!["d/a.cor", "d/c.cor", "d//a.cor"]);
    assert!(named(WatchEventKind::Remove).is_empty());
}

fn task_after(events: Vec<TaskEvent>) -> TaskStage {
    let mut task = ImportTask::new(KeyPath::new("d/a.cor"), 3, true);
    assert_eq!(task.path().as_str(), "d/a.cor");
    for event in events {
        task = task.advance(event);
    }
    task.stage()
}

fn checked() -> TaskEvent {
    TaskEvent::Checked(Some(FileMetadata { is_file: true, len: 32 }))
}

fn import_with(outcome: Result<(), ExtractError>) -> Vec<TaskEvent> {
    vec![checked(), TaskEvent::Slept, checked(), TaskEvent::Imported(outcome)]
}

#[test]
fn a_complete_file_is_imported() {
    assert_eq!(task_after(vec![]), TaskStage::Check);
    assert_eq!(task_after(vec![checked()]), TaskStage::Sleep);
    assert_eq!(task_after(vec![checked(), TaskEvent::Slept]), TaskStage::Check);
    assert_eq!(task_after(vec![checked(), TaskEvent::Slept, checked()]), TaskStage::ImportFile { other_kme_id: 3, delete_file_afterwards: true });
    assert_eq!(task_after(import_with(Ok(()))), TaskStage::Done);
    assert_eq!(task_after(import_with(Err(ExtractError::StoreKeys("e".to_owned())))), TaskStage::FreePath);
    let mut freed = import_with(Err(ExtractError::NotAFile));
    freed.push(TaskEvent::Freed);
    assert_eq!(task_after(freed), TaskStage::Done);
    assert_eq!(task_after(vec![TaskEvent::Checked(None)]), TaskStage::FreePath);
    assert_eq!(task_after(vec![TaskEvent::Imported(Ok(())), TaskEvent::Freed]), TaskStage::Check);
}

#[test]
fn stored_keys_are_not_stored_again_after_a_failed_delete() {
    let mut files = ImportedKeyFiles::new();
    let event = || WatchEvent { kind: WatchEventKind::Create, paths: vec![Some(KeyPath::new("d/a.cor"))] };
    assert_eq!(ConfigExtractor::begin_imports(Ok(&mut files), event()).len(), 1);
    // The path is not freed, so no later event begins an import
    assert_eq!(task_after(import_with(Err(ExtractError::DeleteFile("e".to_owned())))), TaskStage::Done);
    assert!(ConfigExtractor::begin_imports(Ok(&mut files), event()).is_empty());
}

#[test]
fn an_event_begins_imports_of_new_key_files() {
    let event = |kind: WatchEventKind| WatchEvent {
        kind,
        paths: vec![
            Some(KeyPath::new("d/a.cor")),
            None,
            Some(KeyPath::new("d/b.txt")),
            Some(KeyPath::new("d/c.cor")),
            Some(KeyPath::new("d//a.cor")),
            Some(KeyPath::new("d/e.cor")),
        ],
    };
    let mut files = ImportedKeyFiles::new();
    files.insert(KeyPath::new("d/c.cor"));
    assert!(ConfigExtractor::begin_imports(Ok(&mut files), event(WatchEventKind::Remove)).is_empty());
    let begun = ConfigExtractor::begin_imports(Ok(&mut files), event(WatchEventKind::Modify));
    let texts: Vec<&str> = begun.iter().map(|path| path.as_str()).collect();
    assert_eq!(texts, vec!["d/a.cor", "d/e.cor"]);
    assert!(ConfigExtractor::begin_imports(Ok(&mut files), event(WatchEventKind::Create)).is_empty());
    assert!(!files.insert(KeyPath::new("d/e.cor")));
    assert!(files.insert(KeyPath::new("d/b.txt")));
    assert!(ConfigExtractor::begin_imports(Err(LockPoisoned {}), event(WatchEventKind::Create)).is_empty());
}

#[test]
fn a_failed_import_can_be_tried_again() {
    let mut files = ImportedKeyFiles::new();
    let path = KeyPath::new("d/runtime_key.cor");
    assert!(ConfigExtractor::reserve_key_file(Ok(&mut files), &path));
    let task = ImportTask::new(path.copy(), 3, false).advance(TaskEvent::Checked(None));
    assert_eq!(task.stage(), TaskStage::FreePath);
    ConfigExtractor::free_key_file(Ok(&mut files), &path);
    assert_eq!(task.advance(TaskEvent::Freed).stage(), TaskStage::Done);
    assert!(ConfigExtractor::reserve_key_file(Ok(&mut files), &path));
}

#[test]
fn a_watch_starts_with_the_files_that_were_read() {
    let mut read = ImportedKeyFiles::new();
    read.insert(KeyPath::new("d/a.cor"));
    let mut setup = WatchSetup::new("d".to_owned(), 3, true);
    assert!(matches!(setup.stage(), SetupStage::ImportDir { kme_id: 3, delete_key_files_afterwards: true }));
    assert!(setup.take_imported().is_none());
    setup = setup.advance(SetupEvent::DirImported(Ok(read)));
    assert!(matches!(setup.stage(), SetupStage::CreateWatcher { kme_id: 3, delete_key_files_afterwards: true }));
    let mut files = setup.take_imported().unwrap();
    assert!(setup.take_imported().is_none());
    assert!(!ConfigExtractor::reserve_key_file(Ok(&mut files), &KeyPath::new("d/a.cor")));
    setup = setup.advance(SetupEvent::WatcherCreated(Ok(())));
    assert!(matches!(setup.stage(), SetupStage::StartWatch));
    setup = setup.advance(SetupEvent::WatchStarted(true));
    assert!(matches!(setup.stage(), SetupStage::KeepWatcher));
    setup = setup.advance(SetupEvent::WatcherKept);
    assert!(matches!(setup.outcome(), Some(Ok(()))));
}

#[test]
fn a_watch_can_fail_to_start() {
    let failed = |events: Vec<SetupEvent>| {
        let mut setup = WatchSetup::new("d".to_owned(), 3, true);
        for event in events {
            setup = setup.advance(event);
        }
        match setup.outcome() {
            Some(Err(e)) => e.message(),
            _ => panic!("no error"),
        }
    };
    let imported = || SetupEvent::DirImported(Ok(ImportedKeyFiles::new()));
    assert_eq!(
        failed(vec![SetupEvent::DirImported(Err(ExtractError::ReadDirectory("gone".to_owned())))]),
        "Cannot read directory: gone"
    );
    assert_eq!(failed(vec![imported(), SetupEvent::WatcherCreated(Err("e".to_owned()))]), "Error creating watcher: e");
    assert_eq!(
        failed(vec![imported(), SetupEvent::WatcherCreated(Ok(())), SetupEvent::WatchStarted(false)]),
        "Error watching directory: \"d\""
    );
}

fn config() -> Config {
    let kme = |id: i64, ignore_system_proxy_settings: Option<bool>| OtherKmeConfig {
        id,
        key_directory_to_watch: format!("raw_keys/kme-1-{}", id),
        inter_kme_bind_address: format!("127.0.0.1:300{}", id),
        https_client_authentication_certificate: "cert.pfx".to_owned(),
        https_client_authentication_certificate_password: "password".to_owned(),
        ignore_system_proxy_settings,
    };
    Config {
        this_kme_config: ThisKmeConfig {
            id: 1,
            nickname: Some("Alice".to_owned()),
            db_uri: ":memory:".to_owned(),
            key_directory_to_watch: "raw_keys/kme-1-1".to_owned(),
            delete_key_file_after_read: true,
        },
        other_kme_configs: vec![kme(2, Some(false)), kme(3, None)],
        sae_configs: vec![SaeConfig { id: 7, kme_id: 1, https_client_certificate_serial: Some(vec![1, 2]) }],
    }
}

fn told(step: StartupStep) -> String {
    match step {
        StartupStep::CreateManager { db_uri, kme_id, nickname } => format!("manager {} {} {:?}", db_uri, kme_id, nickname),
        StartupStep::AddSae { id, kme_id, certificate_serial } => format!("sae {} {} {:?}", id, kme_id, certificate_serial),
        StartupStep::WatchKeyDir { kme_id, dir, delete_key_files_afterwards } => {
            format!("watch {} {} {}", kme_id, dir, delete_key_files_afterwards)
        }
        StartupStep::AddKmeNetInfo { kme_id, bind_address, certificate, certificate_password, ignore_system_proxy } => {
            format!("kme {} {} {} {} {}", kme_id, bind_address, certificate, certificate_password, ignore_system_proxy)
        }
    }
}

#[test]
fn a_configuration_is_extracted_in_order() {
    let config = config();
    let mut startup = Startup::new(&config, true);
    let mut steps = Vec::new();
    while let Some(step) = startup.next_step() {
        steps.push(told(step));
        startup = startup.advance(StepReply::Done);
    }
    assert_eq!(
        steps,
        vec![
            "manager :memory: 1 Some(\"Alice\")",
            "sae 7 1 Some([1, 2])",
            "watch 2 raw_keys/kme-1-2 true",
            "watch 3 raw_keys/kme-1-3 true",
            "watch 1 raw_keys/kme-1-1 true",
            "kme 2 127.0.0.1:3002 cert.pfx password false",
            "kme 3 127.0.0.1:3003 cert.pfx password true",
        ]
    );
    assert!(startup.into_failure().is_none());
    assert_eq!(told(config.kme_net_info_steps(false)[1]), "kme 3 127.0.0.1:3003 cert.pfx password false");
}

#[test]
fn the_first_failure_ends_the_extraction() {
    let config = config();
    let failed = |done: usize, reply: StepReply| {
        let mut startup = Startup::new(&config, true);
        for _ in 0..done {
            startup = startup.advance(StepReply::Done);
        }
        startup = startup.advance(reply);
        assert!(startup.next_step().is_none());
        startup = startup.advance(StepReply::Done);
        startup.into_failure().unwrap().message()
    };
    let e = || StepReply::Refused("e".to_owned());
    assert_eq!(failed(0, e()), "e");
    assert_eq!(failed(1, e()), "Cannot add SAE config: e");
    assert_eq!(failed(2, StepReply::WatchFailed(ExtractError::NotAFile)), "Path is not a file");
    assert_eq!(failed(6, e()), "Cannot add KME classical network info: e");
}
