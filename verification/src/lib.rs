//! Verified core of a regex-driven file search.
//!
//! Given a root, a list of regular expressions and a size threshold, a walk
//! visits the root and everything below it, depth first and parents first,
//! and collects the entries whose path matches every expression and whose
//! size exceeds the threshold. Failures to read metadata, a directory or one
//! of its records are put on record and cost nothing but what they hide.
//!
//! The library never touches the file system itself. A caller asks the
//! questions that a [`Walk`] hands out (the metadata of a path, the entries
//! of a directory) and feeds the answers back in; everything that is decided
//! along the way is decided, and proved, here.
//!
//! - [`file`]: snapshots of file system entries;
//! - [`error`]: the failures a walk survives, and their diagnostic lines;
//! - [`pattern`]: regular expressions and their lenient compilation;
//! - [`filter`]: the filter an entry has to pass;
//! - [`walk`]: the walk as a state machine;
//! - [`tree`]: the file system as a finite tree, and what a walk of it
//!   ought to find;
//! - [`laws`]: the proof that the state machine finds just that, and what
//!   follows from it;
//! - [`text`]: text and sequences as specifications see them.

pub mod error;
pub mod file;
pub mod filter;
pub mod laws;
pub mod pattern;
pub mod text;
pub mod tree;
pub mod walk;

pub use error::{ErrorKind, WalkError};
pub use file::{File, Metadata};
pub use filter::{filter_path, filter_size};
pub use pattern::{compile, compile_patterns, or_match_all};
pub use walk::{do_traverse, traverse, Action, Event, Walk};
