//! The records that flow through the pipeline.
use vstd::prelude::*;

verus! {

/// Where a file record was enumerated from.
#[derive(Clone, Copy, Debug, PartialEq, Eq, Structural)]
pub enum FileSource {
    Local,
    GoogleDrive,
    ICloud,
    OneDrive,
    Dropbox,
}

/// One candidate file: its path, its byte length, its content digest once
/// computed, and its origin.
#[derive(Clone, Debug)]
pub struct FileEntry {
    pub path: String,
    pub size: u64,
    pub hash: Option<String>,
    pub source: FileSource,
}

/// Files sharing one digest; `files[0]` is the survivor of a cleanup.
#[derive(Debug)]
pub struct DuplicateGroup {
    pub hash: String,
    pub files: Vec<FileEntry>,
}

/// The digest of an entry, as a sequence of characters, if it has one.
pub open spec fn digest_of(e: FileEntry) -> Option<Seq<char>> {
    match e.hash {
        Some(h) => Some(h@),
        None => None,
    }
}

impl FileEntry {
    /// A copy of this entry, field for field.
    pub fn duplicate(&self) -> (r: FileEntry)
        ensures
            r == *self,
    {
        let hash = match &self.hash {
            Some(h) => Some(h.clone()),
            None => None,
        };
        FileEntry { path: self.path.clone(), size: self.size, hash, source: self.source }
    }
}

} // verus!
