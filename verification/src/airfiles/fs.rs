use vstd::prelude::*;

verus! {

/// Kind of a file-system entry.
#[derive(Debug, Clone, Copy, PartialEq, Eq, Structural)]
pub enum FileKind {
    File,
    Directory,
    Symlink,
}

/// Metadata of an entry.
#[derive(Debug, Clone, Copy, PartialEq, Eq, Structural)]
pub struct EntryMeta {
    /// Size in bytes; `None` for directories.
    pub size_bytes: Option<u64>,
    /// Unix time of the last change, when known.
    pub modified_secs: Option<u64>,
}

impl EntryMeta {
    /// Metadata of a file of `size` bytes.
    pub fn file(size: u64) -> (m: Self)
        ensures
            m == (EntryMeta { size_bytes: Some(size), modified_secs: None }),
    {
        EntryMeta { size_bytes: Some(size), modified_secs: None }
    }

    /// Metadata of a directory.
    pub fn dir() -> (m: Self)
        ensures
            m == (EntryMeta { size_bytes: None, modified_secs: None }),
    {
        EntryMeta { size_bytes: None, modified_secs: None }
    }
}

/// One entry of a directory listing. The path is held as text.
#[derive(Debug, Clone, PartialEq)]
pub struct FsEntry {
    pub name: String,
    pub path: String,
    pub kind: FileKind,
    pub meta: EntryMeta,
}

impl FsEntry {
    pub fn new(name: &str, path: String, kind: FileKind, meta: EntryMeta) -> (e: Self)
        ensures
            e.name@ == name@,
            e.path == path,
            e.kind == kind,
            e.meta == meta,
    {
        FsEntry { name: name.to_owned(), path, kind, meta }
    }

    pub fn is_dir(&self) -> (r: bool)
        ensures
            r == (self.kind == FileKind::Directory),
    {
        self.kind == FileKind::Directory
    }

    pub fn is_file(&self) -> (r: bool)
        ensures
            r == (self.kind == FileKind::File),
    {
        self.kind == FileKind::File
    }
}

} // verus!
