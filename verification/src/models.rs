//! Data model of a directory snapshot: a tree of directories and files, the
//! raw filesystem facts a walk consumes, and the error kinds the core reports.

use vstd::prelude::*;

verus! {

/// One directory of the snapshot: its final path segment, its (absolute or
/// root-relative) path as a string, and its children.
pub struct Directory {
    pub name: String,
    pub entries: Vec<DirectoryEntry>,
    pub path: String,
}

/// One child of a directory: either a nested directory or a leaf file.
pub enum DirectoryEntry {
    Directory(Directory),
    File { name: String, path: String },
}

impl DirectoryEntry {
    /// True exactly on the `Directory` variant.
    pub fn is_directory(&self) -> (r: bool)
        ensures
            r == (self is Directory),
    {
        match self {
            Self::Directory(_) => true,
            Self::File { name: _, path: _ } => false,
        }
    }
}

/// What the filesystem reports about one child of a directory: its file name,
/// its full path, and whether its metadata marks it as a directory (a child
/// whose metadata cannot be read is reported as a non-directory).
pub struct RawEntry {
    pub name: String,
    pub path: String,
    pub is_dir: bool,
}

/// The raw listing of one directory, keyed by the directory's path.
pub struct DirListing {
    pub path: String,
    pub entries: Vec<RawEntry>,
}

/// The failures the core reports to its caller.
#[derive(PartialEq, Eq, Structural, Clone, Copy, Debug)]
pub enum ServeError {
    /// The target's metadata could not be read at all.
    TargetNotFound,
    /// The target exists but is a file where a directory was required.
    NotADirectory,
    /// A top-level directory that was expected to be readable could not be read.
    PermissionOrReadFailure,
    /// The target file could not be opened for streaming.
    FileOpenFailure,
    /// A read failed in the middle of a content stream.
    StreamReadFailure,
}

/// Decides whether a listing target is acceptable, from the two facts the
/// caller's metadata lookup yields: whether the lookup succeeded and whether
/// it reported a directory.
pub fn validate_target(found: bool, is_dir: bool) -> (r: Result<(), ServeError>)
    ensures
        !found ==> r == Result::<(), ServeError>::Err(ServeError::TargetNotFound),
        found && !is_dir ==> r == Result::<(), ServeError>::Err(ServeError::NotADirectory),
        found && is_dir ==> r == Result::<(), ServeError>::Ok(()),
{
    if !found {
        Err(ServeError::TargetNotFound)
    } else if !is_dir {
        Err(ServeError::NotADirectory)
    } else {
        Ok(())
    }
}

} // verus!
