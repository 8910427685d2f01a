//! What a walk ought to find: the file system as a finite tree, and the
//! depth-first, pre-order result defined by recursion over it.

use crate::error::{ErrorKind, WalkErrorView};
use crate::file::{FileView, Metadata};
use crate::filter::passes;
use crate::text::Text;
use crate::walk::{ActionView, EventView};
use vstd::prelude::*;

verus! {

/// What the file system holds at one place below a directory.
pub enum Entry {
    /// A listing record that could not be read; it never got a name.
    Unreadable { cause: Text },
    /// A named entry whose metadata could not be read.
    Missing { path: Text, cause: Text },
    /// A named entry with its snapshot and, below it, the outcome of listing
    /// it. The listing is only ever consulted for a directory.
    Present { file: FileView, listing: Result<Seq<Entry>, Text> },
}

/// What a walk produces: the matches and the failures, each in the order in
/// which they arise.
#[verifier::ext_equal]
pub struct Outcome {
    pub found: Seq<FileView>,
    pub errors: Seq<WalkErrorView>,
}

impl Outcome {
    /// No match and no failure.
    pub open spec fn nothing() -> Outcome {
        Outcome { found: Seq::empty(), errors: Seq::empty() }
    }

    /// One failure and no match.
    pub open spec fn failure(kind: ErrorKind, path: Text, cause: Text) -> Outcome {
        Outcome { found: Seq::empty(), errors: seq![WalkErrorView { kind, path, cause }] }
    }

    /// This outcome followed by `later`.
    pub open spec fn followed_by(self, later: Outcome) -> Outcome {
        Outcome { found: self.found + later.found, errors: self.errors + later.errors }
    }
}

/// The file itself, where it passes the filter.
pub open spec fn own_outcome(file: FileView, patterns: Seq<Set<Text>>, min_size: u64) -> Outcome {
    if passes(file, patterns, min_size) {
        Outcome { found: seq![file], errors: Seq::empty() }
    } else {
        Outcome::nothing()
    }
}

/// The outcome of walking the tree rooted at `file`: the file itself first,
/// then, for a directory, everything below it.
pub open spec fn node_outcome(
    file: FileView,
    listing: Result<Seq<Entry>, Text>,
    patterns: Seq<Set<Text>>,
    min_size: u64,
) -> Outcome
    decreases listing, 1int,
{
    own_outcome(file, patterns, min_size).followed_by(
        below_outcome(file, listing, patterns, min_size),
    )
}

/// The outcome of descending into `file`: nothing for a leaf, one failure
/// for a directory that cannot be listed, and otherwise its entries' outcomes
/// in listing order.
pub open spec fn below_outcome(
    file: FileView,
    listing: Result<Seq<Entry>, Text>,
    patterns: Seq<Set<Text>>,
    min_size: u64,
) -> Outcome
    decreases listing, 0int,
{
    if !file.is_dir {
        Outcome::nothing()
    } else {
        match listing {
            Err(cause) => Outcome::failure(ErrorKind::DirectoryListing, file.path, cause),
            Ok(entries) => entries_outcome(file.path, entries, patterns, min_size),
        }
    }
}

/// The outcome of one entry of the directory `dir`.
pub open spec fn entry_outcome(dir: Text, entry: Entry, patterns: Seq<Set<Text>>, min_size: u64)
    -> Outcome
    decreases entry,
{
    match entry {
        Entry::Unreadable { cause } => Outcome::failure(ErrorKind::DirectoryEntry, dir, cause),
        Entry::Missing { path, cause } => Outcome::failure(ErrorKind::Metadata, path, cause),
        Entry::Present { file, listing } => node_outcome(file, listing, patterns, min_size),
    }
}

/// The outcomes of the entries of `dir`, one after the other.
pub open spec fn entries_outcome(
    dir: Text,
    entries: Seq<Entry>,
    patterns: Seq<Set<Text>>,
    min_size: u64,
) -> Outcome
    decreases entries,
{
    if entries.len() == 0 {
        Outcome::nothing()
    } else {
        entry_outcome(dir, entries.first(), patterns, min_size).followed_by(
            entries_outcome(dir, entries.drop_first(), patterns, min_size),
        )
    }
}

/// The files a walk of the tree rooted at `file` comes by, in the order it
/// comes by them: the file itself, then, for a directory that can be listed,
/// the files below it.
pub open spec fn node_files(file: FileView, listing: Result<Seq<Entry>, Text>) -> Seq<FileView>
    decreases listing,
{
    seq![file] + match listing {
        Ok(entries) if file.is_dir => entries_files(entries),
        _ => Seq::empty(),
    }
}

/// The files a walk comes by at and below one entry: none where the entry
/// has no snapshot.
pub open spec fn entry_files(entry: Entry) -> Seq<FileView>
    decreases entry,
{
    match entry {
        Entry::Present { file, listing } => node_files(file, listing),
        _ => Seq::empty(),
    }
}

/// The files a walk comes by at and below the entries of a directory.
pub open spec fn entries_files(entries: Seq<Entry>) -> Seq<FileView>
    decreases entries,
{
    if entries.len() == 0 {
        Seq::empty()
    } else {
        entry_files(entries.first()) + entries_files(entries.drop_first())
    }
}

/// The filter as a predicate on files.
pub open spec fn passing(patterns: Seq<Set<Text>>, min_size: u64) -> spec_fn(FileView) -> bool {
    |file: FileView| passes(file, patterns, min_size)
}

/// One question of a walk together with the file system's answer to it.
pub struct Exchange {
    pub asked: ActionView,
    pub answered: EventView,
}

/// The listing record under which an entry shows up in its directory.
pub open spec fn record_of(entry: Entry) -> Result<Text, Text> {
    match entry {
        Entry::Unreadable { cause } => Err(cause),
        Entry::Missing { path, cause } => Ok(path),
        Entry::Present { file, listing } => Ok(file.path),
    }
}

/// The listing of a directory that holds `entries`.
pub open spec fn records_of(entries: Seq<Entry>) -> Seq<Result<Text, Text>> {
    Seq::new(entries.len(), |i: int| record_of(entries[i]))
}

/// The exchanges it takes to descend into `file`: none for a leaf, and for a
/// directory the listing followed by the exchanges for its entries.
pub open spec fn below_dialogue(file: FileView, listing: Result<Seq<Entry>, Text>) -> Seq<Exchange>
    decreases listing,
{
    if !file.is_dir {
        Seq::empty()
    } else {
        match listing {
            Err(cause) => seq![
                Exchange {
                    asked: ActionView::List(file.path),
                    answered: EventView::Listing(Err(cause)),
                },
            ],
            Ok(entries) => seq![
                Exchange {
                    asked: ActionView::List(file.path),
                    answered: EventView::Listing(Ok(records_of(entries))),
                },
            ] + entries_dialogue(entries),
        }
    }
}

/// The exchanges it takes to deal with one entry: none for an unreadable
/// record, and for a named one the metadata query followed, where it
/// succeeds, by the descent.
pub open spec fn entry_dialogue(entry: Entry) -> Seq<Exchange>
    decreases entry,
{
    match entry {
        Entry::Unreadable { cause } => Seq::empty(),
        Entry::Missing { path, cause } => seq![
            Exchange { asked: ActionView::Stat(path), answered: EventView::Metadata(Err(cause)) },
        ],
        Entry::Present { file, listing } => seq![
            Exchange {
                asked: ActionView::Stat(file.path),
                answered: EventView::Metadata(
                    Ok(Metadata { size: file.size, is_dir: file.is_dir }),
                ),
            },
        ] + below_dialogue(file, listing),
    }
}

/// The exchanges for the entries of a directory, one entry after the other.
pub open spec fn entries_dialogue(entries: Seq<Entry>) -> Seq<Exchange>
    decreases entries,
{
    if entries.len() == 0 {
        Seq::empty()
    } else {
        entry_dialogue(entries.first()) + entries_dialogue(entries.drop_first())
    }
}

} // verus!
