//! The failures a walk survives, as values.

use crate::text::Text;
use vstd::prelude::*;

verus! {

/// Which question to the file system went unanswered.
#[derive(Clone, Copy, Debug, PartialEq, Eq, Structural)]
pub enum ErrorKind {
    /// The metadata of a path could not be read.
    Metadata,
    /// The entries of a directory could not be listed.
    DirectoryListing,
    /// One entry of an otherwise readable directory could not be read.
    DirectoryEntry,
}

/// One recoverable failure: what failed, on which path, and why.
///
/// For `DirectoryEntry` the path is that of the directory being read, since
/// the entry itself never got a name.
#[derive(Clone, Debug, PartialEq, Eq)]
pub struct WalkError {
    pub kind: ErrorKind,
    pub path: String,
    pub cause: String,
}

/// A [`WalkError`] as specifications see it.
pub struct WalkErrorView {
    pub kind: ErrorKind,
    pub path: Text,
    pub cause: Text,
}

impl View for WalkError {
    type V = WalkErrorView;

    open spec fn view(&self) -> WalkErrorView {
        WalkErrorView { kind: self.kind, path: self.path@, cause: self.cause@ }
    }
}

/// How a diagnostic line for a failure of the given kind begins.
pub open spec fn prefix(kind: ErrorKind) -> Text {
    match kind {
        ErrorKind::Metadata => "get metadata for "@,
        ErrorKind::DirectoryListing => "read dir "@,
        ErrorKind::DirectoryEntry => "read dir "@,
    }
}

/// The diagnostic line for a failure: prefix, path, a colon, the cause.
pub open spec fn message_text(e: WalkErrorView) -> Text {
    prefix(e.kind) + e.path + ": "@ + e.cause
}

impl WalkError {
    /// Renders the failure as one diagnostic line, without a newline.
    pub fn message(&self) -> (line: String)
        ensures
            line@ == message_text(self@),
    {
        let mut line = match self.kind {
            ErrorKind::Metadata => String::from_str("get metadata for "),
            ErrorKind::DirectoryListing => String::from_str("read dir "),
            ErrorKind::DirectoryEntry => String::from_str("read dir "),
        };
        line.append(self.path.as_str());
        line.append(": ");
        line.append(self.cause.as_str());
        line
    }
}

} // verus!
