//! Snapshots of file system entries.

use crate::error::{ErrorKind, WalkError, WalkErrorView};
use crate::text::Text;
use vstd::prelude::*;

verus! {

/// An abstracted view of a file: its path as it was handed in or discovered,
/// its size in bytes, and whether it is a directory.
#[derive(Clone, Debug, PartialEq, Eq)]
pub struct File {
    pub path: String,
    pub size: u64,
    pub is_dir: bool,
}

/// A [`File`] as specifications see it.
pub struct FileView {
    pub path: Text,
    pub size: u64,
    pub is_dir: bool,
}

impl View for File {
    type V = FileView;

    open spec fn view(&self) -> FileView {
        FileView { path: self.path@, size: self.size, is_dir: self.is_dir }
    }
}

/// What a successful metadata query reports about a path.
#[derive(Clone, Copy, Debug, PartialEq, Eq, Structural)]
pub struct Metadata {
    pub size: u64,
    pub is_dir: bool,
}

/// The file that `probe` describes at `path`, or the failure it reports.
pub open spec fn described(path: Text, probe: Result<Metadata, Text>) -> Result<
    FileView,
    WalkErrorView,
> {
    match probe {
        Ok(metadata) => Ok(FileView { path, size: metadata.size, is_dir: metadata.is_dir }),
        Err(cause) => Err(WalkErrorView { kind: ErrorKind::Metadata, path, cause }),
    }
}

/// The outcome of a metadata query as specifications see it.
pub open spec fn probe_view(probe: Result<Metadata, String>) -> Result<Metadata, Text> {
    match probe {
        Ok(metadata) => Ok(metadata),
        Err(cause) => Err(cause@),
    }
}

impl File {
    /// Constructs a `File` for `path` from the outcome of a metadata query on
    /// it: `Ok` with what the file system reported, or `Err` with the cause.
    ///
    /// The path is kept exactly as given. A failed query becomes a
    /// `Metadata` error that carries the path and the cause.
    pub fn from(path: &str, probe: Result<Metadata, String>) -> (r: Result<File, WalkError>)
        ensures
            match r {
                Ok(file) => described(path@, probe_view(probe)) == Ok::<FileView, WalkErrorView>(
                    file@,
                ),
                Err(e) => described(path@, probe_view(probe)) == Err::<FileView, WalkErrorView>(
                    e@,
                ),
            },
    {
        match probe {
            Ok(metadata) => Ok(
                File { path: path.to_owned(), size: metadata.size, is_dir: metadata.is_dir },
            ),
            Err(cause) => Err(
                WalkError { kind: ErrorKind::Metadata, path: path.to_owned(), cause },
            ),
        }
    }
}

} // verus!
