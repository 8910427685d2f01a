//! The walk as a state machine.

use crate::error::{ErrorKind, WalkError, WalkErrorView};
use crate::file::{described, probe_view, File, FileView, Metadata};
use crate::filter::{filter_path, filter_size, passes};
use crate::pattern::{compile_patterns, languages, stand_for};
use crate::text::{views, views_drop_last, views_push, Text};
use regex::Regex;
use vstd::prelude::*;

verus! {

/// What a walk needs from the file system next.
#[derive(Clone, Debug, PartialEq, Eq)]
pub enum Action {
    /// Query the metadata of this path.
    Stat(String),
    /// List the entries of this directory.
    List(String),
    /// Nothing more: the walk is over.
    Done,
}

/// An [`Action`] as specifications see it.
pub enum ActionView {
    Stat(Text),
    List(Text),
    Done,
}

impl View for Action {
    type V = ActionView;

    open spec fn view(&self) -> ActionView {
        match self {
            Action::Stat(path) => ActionView::Stat(path@),
            Action::List(path) => ActionView::List(path@),
            Action::Done => ActionView::Done,
        }
    }
}

/// The file system's answer to an [`Action`].
#[derive(Debug)]
pub enum Event {
    /// The answer to `Stat`: the metadata, or why it could not be read.
    Metadata(Result<Metadata, String>),
    /// The answer to `List`: the entries in the order the file system yields
    /// them, each either the entry's path or why that record could not be
    /// read; or why the directory could not be listed at all.
    Listing(Result<Vec<Result<String, String>>, String>),
}

/// An [`Event`] as specifications see it.
pub enum EventView {
    Metadata(Result<Metadata, Text>),
    Listing(Result<Seq<Result<Text, Text>>, Text>),
}

/// One listing record as specifications see it.
pub open spec fn record_view(record: Result<String, String>) -> Result<Text, Text> {
    match record {
        Ok(path) => Ok(path@),
        Err(cause) => Err(cause@),
    }
}

/// The records of a listing as specifications see them.
pub open spec fn records_view(records: Seq<Result<String, String>>) -> Seq<Result<Text, Text>> {
    Seq::new(records.len(), |i: int| record_view(records[i]))
}

impl View for Event {
    type V = EventView;

    open spec fn view(&self) -> EventView {
        match self {
            Event::Metadata(probe) => EventView::Metadata(probe_view(*probe)),
            Event::Listing(Ok(records)) => EventView::Listing(Ok(records_view(records@))),
            Event::Listing(Err(cause)) => EventView::Listing(Err(cause@)),
        }
    }
}

/// One piece of work a walk has put aside.
#[derive(Debug)]
pub enum Task {
    /// Record this failure when its turn comes.
    Report(WalkError),
    /// Visit this path when its turn comes.
    Probe(String),
}

/// A [`Task`] as specifications see it.
pub enum TaskView {
    Report(WalkErrorView),
    Probe(Text),
}

impl View for Task {
    type V = TaskView;

    open spec fn view(&self) -> TaskView {
        match self {
            Task::Report(e) => TaskView::Report(e@),
            Task::Probe(path) => TaskView::Probe(path@),
        }
    }
}

/// The task that one listing record of the directory `dir` gives rise to.
pub open spec fn task_for(dir: Text, record: Result<Text, Text>) -> TaskView {
    match record {
        Ok(path) => TaskView::Probe(path),
        Err(cause) => TaskView::Report(
            WalkErrorView { kind: ErrorKind::DirectoryEntry, path: dir, cause },
        ),
    }
}

/// The tasks for a whole listing of `dir`, in reverse: the first record's
/// task comes last, where it is the next to be taken up.
pub open spec fn tasks_for(dir: Text, records: Seq<Result<Text, Text>>) -> Seq<TaskView> {
    Seq::new(records.len(), |j: int| task_for(dir, records[records.len() - 1 - j]))
}

/// The state of a walk as specifications see it.
#[verifier::ext_equal]
pub struct WalkView {
    /// The languages of the patterns a path has to match.
    pub patterns: Seq<Set<Text>>,
    /// The size a file has to exceed.
    pub min_size: u64,
    /// Work put aside; the last task is the next to be taken up.
    pub agenda: Seq<TaskView>,
    /// The question that is waiting for its answer.
    pub pending: ActionView,
    /// The matches so far, in the order they were found.
    pub found: Seq<FileView>,
    /// The failures so far, in the order they arose.
    pub errors: Seq<WalkErrorView>,
}

impl WalkView {
    /// This state with one more failure on record.
    pub open spec fn report(self, e: WalkErrorView) -> WalkView {
        WalkView { errors: self.errors.push(e), ..self }
    }

    /// This state with `file` among the matches, if it passes the filter.
    pub open spec fn sift(self, file: FileView) -> WalkView {
        if passes(file, self.patterns, self.min_size) {
            WalkView { found: self.found.push(file), ..self }
        } else {
            self
        }
    }

    /// This state with the listing of `dir` put aside for later.
    pub open spec fn enqueue(self, dir: Text, records: Seq<Result<Text, Text>>) -> WalkView {
        WalkView { agenda: self.agenda + tasks_for(dir, records), ..self }
    }

    /// Takes up the work put aside until a path needs visiting: failures
    /// met on the way go on record, the first path met becomes the pending
    /// `Stat`, and with no work left the walk is `Done`.
    pub open spec fn advance(self) -> WalkView
        decreases self.agenda.len(),
    {
        if self.agenda.len() == 0 {
            WalkView { pending: ActionView::Done, ..self }
        } else {
            let rest = WalkView { agenda: self.agenda.drop_last(), ..self };
            match self.agenda.last() {
                TaskView::Report(e) => rest.report(e).advance(),
                TaskView::Probe(path) => WalkView { pending: ActionView::Stat(path), ..rest },
            }
        }
    }

    /// Visits `file`: it is filtered first; then a directory asks for its
    /// listing, and anything else moves the walk on at once.
    pub open spec fn visit(self, file: FileView) -> WalkView {
        if file.is_dir {
            WalkView { pending: ActionView::List(file.path), ..self.sift(file) }
        } else {
            self.sift(file).advance()
        }
    }

    /// The state after `event` has answered the pending question. An event
    /// that does not answer it changes nothing.
    pub open spec fn step(self, event: EventView) -> WalkView {
        match (self.pending, event) {
            (ActionView::Stat(path), EventView::Metadata(probe)) => match described(path, probe) {
                Ok(file) => self.visit(file),
                Err(e) => self.report(e).advance(),
            },
            (ActionView::List(path), EventView::Listing(Ok(records))) => self.enqueue(
                path,
                records,
            ).advance(),
            (ActionView::List(path), EventView::Listing(Err(cause))) => self.report(
                WalkErrorView { kind: ErrorKind::DirectoryListing, path, cause },
            ).advance(),
            _ => self,
        }
    }

    /// The state in which a walk of the tree rooted at `file` begins: the
    /// root has been visited and nothing else has happened.
    pub open spec fn begin(file: FileView, patterns: Seq<Set<Text>>, min_size: u64) -> WalkView {
        (WalkView {
            patterns,
            min_size,
            agenda: Seq::empty(),
            pending: ActionView::Done,
            found: Seq::empty(),
            errors: Seq::empty(),
        }).visit(file)
    }
}

/// A depth-first, pre-order walk in progress.
///
/// The walk does no I/O. It says what it needs next ([`Walk::action`]), the
/// caller gets it from the file system and hands the answer to
/// [`Walk::step`], until the action is [`Action::Done`].
pub struct Walk {
    patterns: Vec<Regex>,
    min_size: u64,
    agenda: Vec<Task>,
    pending: Action,
    found: Vec<File>,
    errors: Vec<WalkError>,
}

impl View for Walk {
    type V = WalkView;

    closed spec fn view(&self) -> WalkView {
        WalkView {
            patterns: languages(self.patterns@),
            min_size: self.min_size,
            agenda: views(self.agenda@),
            pending: self.pending@,
            found: views(self.found@),
            errors: views(self.errors@),
        }
    }
}

impl Walk {
    /// What the walk needs next.
    pub fn action(&self) -> (a: Action)
        ensures
            a@ == self@.pending,
    {
        match &self.pending {
            Action::Stat(path) => Action::Stat(path.clone()),
            Action::List(path) => Action::List(path.clone()),
            Action::Done => Action::Done,
        }
    }

    /// The matches so far, in the order they were found.
    pub fn found(&self) -> (files: &Vec<File>)
        ensures
            views(files@) == self@.found,
    {
        &self.found
    }

    /// The failures so far, in the order they arose.
    pub fn errors(&self) -> (errors: &Vec<WalkError>)
        ensures
            views(errors@) == self@.errors,
    {
        &self.errors
    }

    /// Ends the walk and hands out its matches.
    pub fn into_found(self) -> (files: Vec<File>)
        ensures
            views(files@) == self@.found,
    {
        self.found
    }

    /// Puts one more failure on record.
    fn report(&mut self, e: WalkError)
        ensures
            final(self)@ == old(self)@.report(e@),
    {
        proof {
            views_push(self.errors@, e);
        }
        self.errors.push(e);
    }

    /// Puts the listing of `dir` aside. The records are taken from the back,
    /// so that the first of them ends up on top of the agenda.
    fn enqueue(&mut self, dir: &String, records: Vec<Result<String, String>>)
        ensures
            final(self)@ == old(self)@.enqueue(dir@, records_view(records@)),
    {
        let mut records = records;
        let ghost all = records_view(records@);
        let ghost before = self@;
        assert(self@.agenda =~= before.agenda + tasks_for(dir@, all).take(0));
        loop
            invariant
                records@.len() <= all.len(),
                records_view(records@) == all.take(records@.len() as int),
                self@ == (WalkView {
                    agenda: before.agenda + tasks_for(dir@, all).take(all.len() - records@.len()),
                    ..before
                }),
            ensures
                records@.len() == 0,
            decreases records.len(),
        {
            let ghost k = all.len() - records@.len();
            let ghost last = records@.len() - 1;
            let ghost done = self.agenda@;
            assert(records@.len() > 0 ==> records_view(records@)[last] == all[last]);
            let task = match records.pop() {
                None => {
                    break ;
                },
                Some(Ok(path)) => Task::Probe(path),
                Some(Err(cause)) => Task::Report(
                    WalkError { kind: ErrorKind::DirectoryEntry, path: dir.clone(), cause },
                ),
            };
            assert(task@ == tasks_for(dir@, all)[k]);
            self.agenda.push(task);
            proof {
                views_push(done, task);
                assert(tasks_for(dir@, all).take(k + 1) =~= tasks_for(dir@, all).take(k).push(
                    task@,
                ));
                assert(before.agenda + tasks_for(dir@, all).take(k + 1) =~= (before.agenda
                    + tasks_for(dir@, all).take(k)).push(task@));
                assert(records_view(records@) =~= all.take(records@.len() as int));
            }
        }
        assert(tasks_for(dir@, all).take(all.len() as int) =~= tasks_for(dir@, all));
    }

    /// Takes up the work put aside until a path needs visiting or none is
    /// left.
    fn advance(&mut self)
        ensures
            final(self)@ == old(self)@.advance(),
    {
        loop
            invariant
                self@.advance() == old(self)@.advance(),
            decreases self.agenda.len(),
        {
            proof {
                if self.agenda@.len() > 0 {
                    views_drop_last(self.agenda@);
                }
            }
            match self.agenda.pop() {
                None => {
                    self.pending = Action::Done;
                    return ;
                },
                Some(Task::Report(e)) => {
                    self.report(e);
                },
                Some(Task::Probe(path)) => {
                    self.pending = Action::Stat(path);
                    return ;
                },
            }
        }
    }

    /// Filters `file`, then asks for its listing if it is a directory and
    /// moves on if it is not.
    fn visit(&mut self, file: File)
        ensures
            final(self)@ == old(self)@.visit(file@),
    {
        let keep = filter_path(&file, &self.patterns) && filter_size(&file, self.min_size);
        let descend = if file.is_dir {
            Some(file.path.clone())
        } else {
            None
        };
        if keep {
            proof {
                views_push(self.found@, file);
            }
            self.found.push(file);
        }
        match descend {
            Some(dir) => {
                self.pending = Action::List(dir);
            },
            None => {
                self.advance();
            },
        }
    }

    /// Takes the answer to the pending action and moves the walk on; returns
    /// what the walk needs next.
    ///
    /// An event of the wrong kind for the pending action, or any event once
    /// the walk is done, is ignored: the state stays as it is and the same
    /// action is handed out again.
    pub fn step(&mut self, event: Event) -> (next: Action)
        ensures
            final(self)@ == old(self)@.step(event@),
            next@ == final(self)@.pending,
    {
        let asked = self.action();
        match (asked, event) {
            (Action::Stat(path), Event::Metadata(probe)) => {
                match File::from(path.as_str(), probe) {
                    Ok(file) => self.visit(file),
                    Err(e) => {
                        self.report(e);
                        self.advance();
                    },
                }
            },
            (Action::List(path), Event::Listing(Ok(records))) => {
                self.enqueue(&path, records);
                self.advance();
            },
            (Action::List(path), Event::Listing(Err(cause))) => {
                self.report(WalkError { kind: ErrorKind::DirectoryListing, path, cause });
                self.advance();
            },
            _ => {},
        }
        self.action()
    }
}

/// Begins the walk of the tree rooted at `file`, for files whose paths match
/// every one of the compiled patterns `res` and whose size is greater than
/// `size` bytes.
///
/// The root is visited on the spot: a root that is no directory yields a
/// walk that is already done, with the root as its only possible match.
pub fn do_traverse(file: &File, res: Vec<Regex>, size: u64) -> (walk: Walk)
    ensures
        walk@ == WalkView::begin(file@, languages(res@), size),
{
    let mut walk = Walk {
        patterns: res,
        min_size: size,
        agenda: Vec::new(),
        pending: Action::Done,
        found: Vec::new(),
        errors: Vec::new(),
    };
    assert(walk@.agenda =~= Seq::empty() && walk@.found =~= Seq::empty() && walk@.errors
        =~= Seq::empty());
    walk.visit(File { path: file.path.clone(), size: file.size, is_dir: file.is_dir });
    walk
}

/// Begins the walk of the tree rooted at `file`, for files (and directories)
/// with paths matching `pats` and size greater than `size` bytes.
///
/// Each pattern is compiled on its own; one that does not compile matches
/// every path. The walk then is the one that [`do_traverse`] begins with the
/// compiled patterns.
pub fn traverse(file: &File, pats: &Vec<String>, size: u64) -> (walk: Walk)
    ensures
        stand_for(views(pats@), walk@.patterns),
        walk@ == WalkView::begin(file@, walk@.patterns, size),
{
    do_traverse(file, compile_patterns(pats), size)
}

} // verus!
