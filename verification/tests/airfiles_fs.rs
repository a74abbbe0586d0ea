use airos::airfiles::fs::{EntryMeta, FileKind, FsEntry};

fn file(name: &str, size: u64) -> FsEntry {
    FsEntry::new(name, name.to_string(), FileKind::File, EntryMeta::file(size))
}

fn dir(name: &str) -> FsEntry {
    FsEntry::new(name, name.to_string(), FileKind::Directory, EntryMeta::dir())
}

#[test]
fn file_is_not_dir() {
    let e = file("readme.txt", 1024);
    assert!(!e.is_dir());
    assert!(e.is_file());
}

#[test]
fn dir_is_dir() {
    let e = dir("Documents");
    assert!(e.is_dir());
    assert!(!e.is_file());
}

#[test]
fn symlink_is_neither_file_nor_dir() {
    let e = FsEntry::new("link", "link".to_string(), FileKind::Symlink, EntryMeta::file(0));
    assert!(!e.is_dir());
    assert!(!e.is_file());
}

#[test]
fn file_has_size() {
    let e = file("data.bin", 4096);
    assert_eq!(e.meta.size_bytes, Some(4096));
}

#[test]
fn dir_has_no_size() {
    let e = dir("Downloads");
    assert_eq!(e.meta.size_bytes, None);
}

#[test]
fn entry_name_stored_correctly() {
    let e = file("my_file.rs", 42);
    assert_eq!(e.name, "my_file.rs");
}

#[test]
fn entry_meta_has_no_modification_time() {
    assert_eq!(EntryMeta::file(7).modified_secs, None);
    assert_eq!(EntryMeta::dir().modified_secs, None);
}
