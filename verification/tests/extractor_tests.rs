use qkd_config_extractor::extractor::ConfigExtractor;
use qkd_config_extractor::imported::{ImportedKeyFiles, LockPoisoned};
use qkd_config_extractor::path::KeyPath;
use std::sync::Mutex;

#[test]
fn test_file_extension_check() {
    assert!(ConfigExtractor::check_file_extension_qkd_keys("path/to/test_file.cor"));
    assert!(!ConfigExtractor::check_file_extension_qkd_keys("test_file.bad_ext"));
    assert!(!ConfigExtractor::check_file_extension_qkd_keys("path/to/test_file.bad_ext"));
    assert!(!ConfigExtractor::check_file_extension_qkd_keys("test_file"));
    assert!(!ConfigExtractor::check_file_extension_qkd_keys("path/to/test_file"));
}

#[test]
fn test_reserve_and_free_key_file() {
    let imported_key_files = Mutex::new(ImportedKeyFiles::new());
    let path = KeyPath::new("tests/tmp/a_key_file.cor");

    // The first call reserves the path, the second call must not
    assert!(ConfigExtractor::reserve_key_file(Ok(&mut *imported_key_files.lock().unwrap()), &path));
    assert!(!ConfigExtractor::reserve_key_file(Ok(&mut *imported_key_files.lock().unwrap()), &path));

    // After a free, a new reservation is possible again
    ConfigExtractor::free_key_file(Ok(&mut *imported_key_files.lock().unwrap()), &path);
    assert!(ConfigExtractor::reserve_key_file(Ok(&mut *imported_key_files.lock().unwrap()), &path));

    // A different path is independent
    let other_path = KeyPath::new("tests/tmp/an_other_key_file.cor");
    assert!(ConfigExtractor::reserve_key_file(Ok(&mut *imported_key_files.lock().unwrap()), &other_path));
}

#[test]
fn nothing_is_reserved_under_a_poisoned_lock() {
    let path = KeyPath::new("a.cor");
    assert!(!ConfigExtractor::reserve_key_file(Err(LockPoisoned {}), &path));
    ConfigExtractor::free_key_file(Err(LockPoisoned {}), &path);
}

#[test]
fn spellings_of_one_path_share_a_reservation() {
    let mut files = ImportedKeyFiles::new();
    assert!(ConfigExtractor::reserve_key_file(Ok(&mut files), &KeyPath::new("keys/a.cor")));
    assert!(!ConfigExtractor::reserve_key_file(Ok(&mut files), &KeyPath::new("keys//a.cor")));
    assert!(!ConfigExtractor::reserve_key_file(Ok(&mut files), &KeyPath::new("keys/./a.cor")));
    assert!(ConfigExtractor::reserve_key_file(Ok(&mut files), &KeyPath::new("./keys/a.cor")));
    assert!(ConfigExtractor::reserve_key_file(Ok(&mut files), &KeyPath::new("/keys/a.cor")));
    assert!(ConfigExtractor::reserve_key_file(Ok(&mut files), &KeyPath::new("keys/../keys/a.cor")));
    ConfigExtractor::free_key_file(Ok(&mut files), &KeyPath::new("keys/a.cor/"));
    assert!(ConfigExtractor::reserve_key_file(Ok(&mut files), &KeyPath::new("keys/a.cor")));
}

#[test]
fn freeing_leaves_other_reservations() {
    let mut files = ImportedKeyFiles::new();
    let a = KeyPath::new("a.cor");
    let b = KeyPath::new("b.cor");
    let c = KeyPath::new("c.cor");
    assert!(files.insert(a.copy()));
    assert!(files.insert(b.copy()));
    assert!(files.insert(c.copy()));
    ConfigExtractor::free_key_file(Ok(&mut files), &b);
    ConfigExtractor::free_key_file(Ok(&mut files), &b);
    assert!(!ConfigExtractor::reserve_key_file(Ok(&mut files), &a));
    assert!(!ConfigExtractor::reserve_key_file(Ok(&mut files), &c));
    assert!(ConfigExtractor::reserve_key_file(Ok(&mut files), &b));
}

#[test]
fn extension_edge_cases() {
    for path in ["a.cor", "a.b.cor", "..cor", "/a.cor", "a.cor/", "a.cor/.", "d/.hidden.cor"] {
        assert!(ConfigExtractor::check_file_extension_qkd_keys(path), "{}", path);
    }
    for path in ["", ".", "..", "/", ".cor", "d/.cor", "a.COR", "a.cor.bak", "a.cor/..", "a.cor/b", "cor", "a.", "acor"] {
        assert!(!ConfigExtractor::check_file_extension_qkd_keys(path), "{}", path);
    }
}

#[test]
fn extensions() {
    assert_eq!(KeyPath::new("a/b.tar.gz").extension(), Some("gz"));
    assert_eq!(KeyPath::new("a/b.").extension(), Some(""));
    assert_eq!(KeyPath::new("a/.profile").extension(), None);
    assert_eq!(KeyPath::new("a.d/b").extension(), None);
    assert_eq!(KeyPath::new("clé.clé").extension(), Some("clé"));
    assert_eq!(KeyPath::new("a/..").extension(), None);
}

#[test]
fn path_identity() {
    let path = KeyPath::new("a//b/.");
    assert_eq!(path.as_str(), "a//b/.");
    assert_eq!(path.copy().as_str(), "a//b/.");
    assert!(path.same(&path.copy()));
    assert!(path.same(&KeyPath::new("a/b")));
    assert!(!path.same(&KeyPath::new("a/b/c")));
    assert!(!path.same(&KeyPath::new("a/c")));
    assert!(!path.same(&KeyPath::new("/a/b")));
    assert!(!KeyPath::new(".").same(&KeyPath::new("")));
}

#[test]
fn a_colon_in_a_name_is_an_ordinary_character() {
    assert!(ConfigExtractor::check_file_extension_qkd_keys("d/12:00.cor"));
    assert!(!ConfigExtractor::check_file_extension_qkd_keys("d/12:00.bak"));
    let mut files = ImportedKeyFiles::new();
    assert!(ConfigExtractor::reserve_key_file(Ok(&mut files), &KeyPath::new("d/12:00.cor")));
    assert!(ConfigExtractor::reserve_key_file(Ok(&mut files), &KeyPath::new("d/12:01.cor")));
    assert!(!ConfigExtractor::reserve_key_file(Ok(&mut files), &KeyPath::new("d//12:00.cor")));
}

#[test]
fn backslashes_do_not_hide_the_extension() {
    assert!(ConfigExtractor::check_file_extension_qkd_keys("keys\\a.cor"));
    assert!(!ConfigExtractor::check_file_extension_qkd_keys("keys\\a.bak"));
    assert!(ConfigExtractor::check_file_extension_qkd_keys("C:\\keys\\a.cor"));
    assert!(!KeyPath::new("keys\\a.cor").same(&KeyPath::new("keys\\b.cor")));
}

#[test]
fn only_the_last_component_decides() {
    assert!(!ConfigExtractor::check_file_extension_qkd_keys("keys.cor/readme"));
    assert!(ConfigExtractor::check_file_extension_qkd_keys("keys.bak/readme.cor"));
    for name in ["a.cor", "a", ".cor", "..", "a.b.cor"] {
        for dir in ["", "d", "d.cor", "/d.cor/", "."] {
            let path = format!("{}/{}", dir, name);
            assert_eq!(
                ConfigExtractor::check_file_extension_qkd_keys(&path),
                ConfigExtractor::check_file_extension_qkd_keys(name)
            );
        }
    }
}

#[test]
fn two_leading_separators_do_not_make_a_key_file() {
    assert!(!ConfigExtractor::check_file_extension_qkd_keys("//host/share.cor/a.bak"));
    assert!(ConfigExtractor::check_file_extension_qkd_keys("//host/share/d/a.cor"));
}
