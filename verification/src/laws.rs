//! The walk does what the tree says: fed the answers of a file system that
//! looks like a given tree, the state machine asks exactly the questions of
//! the depth-first descent and ends with the tree's outcome.

use crate::error::{ErrorKind, WalkErrorView};
use crate::file::{FileView, Metadata};
use crate::filter::passes;
use crate::text::Text;
use crate::tree::{
    below_dialogue, below_outcome, entries_dialogue, entries_files, entries_outcome,
    entry_dialogue, entry_files, entry_outcome, node_files, node_outcome, own_outcome, passing,
    record_of, records_of, Entry, Exchange, Outcome,
};
use crate::walk::{task_for, tasks_for, ActionView, EventView, TaskView, WalkView};
use vstd::prelude::*;
use vstd::seq_lib::{
    lemma_multiset_commutative, to_multiset_contains, to_multiset_len, to_multiset_remove,
};

verus! {

/// The state `w` with `outcome` added to what it has on record.
pub open spec fn absorb(w: WalkView, outcome: Outcome) -> WalkView {
    WalkView { found: w.found + outcome.found, errors: w.errors + outcome.errors, ..w }
}

/// Takes the walk through `talk`, one exchange at a time: `None` as soon as
/// the walk asks anything but what the next exchange answers, and otherwise
/// the state after the last answer.
pub open spec fn conduct(w: WalkView, talk: Seq<Exchange>) -> Option<WalkView>
    decreases talk.len(),
{
    if talk.len() == 0 {
        Some(w)
    } else if w.pending != talk.first().asked {
        None
    } else {
        conduct(w.step(talk.first().answered), talk.drop_first())
    }
}

/// The state of a finished walk with the given outcome.
pub open spec fn finished(patterns: Seq<Set<Text>>, min_size: u64, outcome: Outcome) -> WalkView {
    WalkView {
        patterns,
        min_size,
        agenda: Seq::empty(),
        pending: ActionView::Done,
        found: outcome.found,
        errors: outcome.errors,
    }
}

/// A talk can be conducted in two parts.
proof fn conduct_in_two(w: WalkView, first: Seq<Exchange>, second: Seq<Exchange>)
    ensures
        conduct(w, first + second) == match conduct(w, first) {
            Some(halfway) => conduct(halfway, second),
            None => None,
        },
    decreases first.len(),
{
    if first.len() == 0 {
        assert(first + second =~= second);
    } else {
        let talk = first + second;
        assert(talk.first() == first.first());
        assert(talk.drop_first() =~= first.drop_first() + second);
        if w.pending == first.first().asked {
            conduct_in_two(w.step(first.first().answered), first.drop_first(), second);
        }
    }
}

/// Moving on overwrites the pending question, whatever it was.
proof fn advance_forgets_pending(w: WalkView, pending: ActionView)
    ensures
        (WalkView { pending, ..w }).advance() == w.advance(),
    decreases w.agenda.len(),
{
    if w.agenda.len() > 0 {
        let rest = WalkView { agenda: w.agenda.drop_last(), ..w };
        match w.agenda.last() {
            TaskView::Report(e) => {
                advance_forgets_pending(rest.report(e), pending);
                assert((WalkView { pending, ..rest }).report(e) == (WalkView {
                    pending,
                    ..rest.report(e)
                }));
            },
            TaskView::Probe(path) => {},
        }
    }
}

/// The first entry of a listing gives the task that is taken up first.
proof fn tasks_for_unfold(dir: Text, entries: Seq<Entry>)
    requires
        entries.len() > 0,
    ensures
        tasks_for(dir, records_of(entries)) == tasks_for(
            dir,
            records_of(entries.drop_first()),
        ).push(task_for(dir, record_of(entries.first()))),
{
    assert(tasks_for(dir, records_of(entries)) =~= tasks_for(
        dir,
        records_of(entries.drop_first()),
    ).push(task_for(dir, record_of(entries.first()))));
}

/// Once the entries of a directory are put aside, the exchanges for them
/// bring the walk to where it would be had their outcome been on record at
/// once.
proof fn entries_walked(w: WalkView, dir: Text, entries: Seq<Entry>)
    ensures
        conduct(w.enqueue(dir, records_of(entries)).advance(), entries_dialogue(entries)) == Some(
            absorb(w, entries_outcome(dir, entries, w.patterns, w.min_size)).advance(),
        ),
    decreases entries,
{
    let queued = w.enqueue(dir, records_of(entries));
    if entries.len() == 0 {
        assert(queued =~= w);
        assert(absorb(w, Outcome::nothing()) =~= w);
    } else {
        let entry = entries.first();
        let others = entries.drop_first();
        let outcome = entry_outcome(dir, entry, w.patterns, w.min_size);
        let later = entries_outcome(dir, others, w.patterns, w.min_size);
        tasks_for_unfold(dir, entries);
        assert(queued.agenda.last() == task_for(dir, record_of(entry)));
        assert(queued.agenda.drop_last() =~= w.enqueue(dir, records_of(others)).agenda);
        assert(absorb(absorb(w, outcome), later) =~= absorb(w, outcome.followed_by(later)));
        entries_walked(absorb(w, outcome), dir, others);
        match entry {
            Entry::Unreadable { cause } => {
                let e = WalkErrorView { kind: ErrorKind::DirectoryEntry, path: dir, cause };
                assert(absorb(w, outcome) =~= w.report(e));
                assert(queued.advance() == w.report(e).enqueue(dir, records_of(others)).advance())
                    by {
                    assert((WalkView { agenda: queued.agenda.drop_last(), ..queued }).report(e)
                        =~= w.report(e).enqueue(dir, records_of(others)));
                }
                assert(entries_dialogue(entries) =~= entries_dialogue(others));
            },
            _ => {
                let path = record_of(entry)->Ok_0;
                let asking = WalkView {
                    pending: ActionView::Stat(path),
                    ..w.enqueue(dir, records_of(others))
                };
                assert(queued.advance() =~= asking);
                entry_walked(asking, dir, entry);
                conduct_in_two(asking, entry_dialogue(entry), entries_dialogue(others));
                advance_forgets_pending(
                    absorb(w, outcome).enqueue(dir, records_of(others)),
                    ActionView::Stat(path),
                );
                assert(absorb(asking, outcome) =~= (WalkView {
                    pending: ActionView::Stat(path),
                    ..absorb(w, outcome).enqueue(dir, records_of(others))
                }));
            },
        }
    }
}

/// A walk that asks for the metadata of a named entry is brought, by the
/// exchanges for that entry, to where it would be with the entry's outcome on
/// record.
proof fn entry_walked(w: WalkView, dir: Text, entry: Entry)
    requires
        entry !is Unreadable,
        w.pending == ActionView::Stat(record_of(entry)->Ok_0),
    ensures
        conduct(w, entry_dialogue(entry)) == Some(
            absorb(w, entry_outcome(dir, entry, w.patterns, w.min_size)).advance(),
        ),
    decreases entry,
{
    let talk = entry_dialogue(entry);
    match entry {
        Entry::Unreadable { cause } => {},
        Entry::Missing { path, cause } => {
            let e = WalkErrorView { kind: ErrorKind::Metadata, path, cause };
            assert(talk.drop_first() =~= Seq::empty());
            assert(absorb(w, Outcome::failure(ErrorKind::Metadata, path, cause)) =~= w.report(e));
            assert(conduct(w.step(talk.first().answered), talk.drop_first()) == Some(
                w.report(e).advance(),
            ));
        },
        Entry::Present { file, listing } => {
            assert(talk.drop_first() =~= below_dialogue(file, listing));
            assert(w.step(talk.first().answered) == w.visit(file));
            node_walked(w, file, listing);
        },
    }
}

/// Visiting a file and conducting the exchanges for what lies below it
/// leaves the outcome of the whole subtree on record.
proof fn node_walked(w: WalkView, file: FileView, listing: Result<Seq<Entry>, Text>)
    ensures
        conduct(w.visit(file), below_dialogue(file, listing)) == Some(
            absorb(w, node_outcome(file, listing, w.patterns, w.min_size)).advance(),
        ),
    decreases listing,
{
    let own = own_outcome(file, w.patterns, w.min_size);
    let below = below_outcome(file, listing, w.patterns, w.min_size);
    let talk = below_dialogue(file, listing);
    assert(absorb(w, own) =~= w.sift(file));
    assert(absorb(absorb(w, own), below) =~= absorb(w, own.followed_by(below)));
    if !file.is_dir {
        assert(absorb(w.sift(file), Outcome::nothing()) =~= w.sift(file));
    } else {
        let asking = WalkView { pending: ActionView::List(file.path), ..w.sift(file) };
        match listing {
            Err(cause) => {
                let e = WalkErrorView {
                    kind: ErrorKind::DirectoryListing,
                    path: file.path,
                    cause,
                };
                assert(talk.drop_first() =~= Seq::empty());
                advance_forgets_pending(w.sift(file).report(e), ActionView::List(file.path));
                assert(asking.report(e) =~= (WalkView {
                    pending: ActionView::List(file.path),
                    ..w.sift(file).report(e)
                }));
                assert(absorb(w.sift(file), below) =~= w.sift(file).report(e));
                assert(conduct(asking.step(talk.first().answered), talk.drop_first()) == Some(
                    asking.report(e).advance(),
                ));
            },
            Ok(entries) => {
                assert(talk.drop_first() =~= entries_dialogue(entries));
                entries_walked(asking, file.path, entries);
                advance_forgets_pending(absorb(w.sift(file), below), ActionView::List(file.path));
                assert(absorb(asking, below) =~= (WalkView {
                    pending: ActionView::List(file.path),
                    ..absorb(w.sift(file), below)
                }));
            },
        }
    }
}

/// A walk of a tree asks the file system exactly the questions of the
/// depth-first descent, in order, and, given the tree's answers, ends done,
/// with nothing put aside, and with the tree's outcome on record: every
/// match and every failure, in pre-order.
pub proof fn walk_yields_outcome(
    file: FileView,
    listing: Result<Seq<Entry>, Text>,
    patterns: Seq<Set<Text>>,
    min_size: u64,
)
    ensures
        conduct(WalkView::begin(file, patterns, min_size), below_dialogue(file, listing)) == Some(
            finished(patterns, min_size, node_outcome(file, listing, patterns, min_size)),
        ),
{
    let blank = WalkView {
        patterns,
        min_size,
        agenda: Seq::empty(),
        pending: ActionView::Done,
        found: Seq::empty(),
        errors: Seq::empty(),
    };
    let outcome = node_outcome(file, listing, patterns, min_size);
    node_walked(blank, file, listing);
    assert(absorb(blank, outcome) =~= finished(patterns, min_size, outcome));
}

/// The outcome of a listing is that of its front followed by that of its
/// back.
proof fn entries_outcome_concat(
    dir: Text,
    front: Seq<Entry>,
    back: Seq<Entry>,
    patterns: Seq<Set<Text>>,
    min_size: u64,
)
    ensures
        entries_outcome(dir, front + back, patterns, min_size) == entries_outcome(
            dir,
            front,
            patterns,
            min_size,
        ).followed_by(entries_outcome(dir, back, patterns, min_size)),
    decreases front.len(),
{
    let all = front + back;
    let rest = entries_outcome(dir, back, patterns, min_size);
    if front.len() == 0 {
        assert(all =~= back);
        assert(Outcome::nothing().followed_by(rest) =~= rest);
    } else {
        let head = entry_outcome(dir, front.first(), patterns, min_size);
        let tail = entries_outcome(dir, front.drop_first(), patterns, min_size);
        assert(all.first() == front.first());
        assert(all.drop_first() =~= front.drop_first() + back);
        entries_outcome_concat(dir, front.drop_first(), back, patterns, min_size);
        assert(head.followed_by(tail.followed_by(rest)) =~= head.followed_by(tail).followed_by(
            rest,
        ));
    }
}

/// Every entry of a directory contributes one unbroken block to the outcome,
/// and the blocks stand in listing order: what the entries before it yield
/// comes first, then what the entry and everything below it yields, then
/// what the entries after it yield. No entry's block depends on any other
/// entry.
pub proof fn entry_keeps_its_place(
    dir: Text,
    entries: Seq<Entry>,
    i: int,
    patterns: Seq<Set<Text>>,
    min_size: u64,
)
    requires
        0 <= i < entries.len(),
    ensures
        entries_outcome(dir, entries, patterns, min_size) == entries_outcome(
            dir,
            entries.take(i),
            patterns,
            min_size,
        ).followed_by(entry_outcome(dir, entries[i], patterns, min_size)).followed_by(
            entries_outcome(dir, entries.skip(i + 1), patterns, min_size),
        ),
{
    let before = entries.take(i);
    let from = entries.skip(i);
    let block = entry_outcome(dir, entries[i], patterns, min_size);
    let after = entries_outcome(dir, entries.skip(i + 1), patterns, min_size);
    assert(entries =~= before + from);
    assert(from.first() == entries[i]);
    assert(from.drop_first() =~= entries.skip(i + 1));
    entries_outcome_concat(dir, before, from, patterns, min_size);
    let start = entries_outcome(dir, before, patterns, min_size);
    assert(start.followed_by(block.followed_by(after)) =~= start.followed_by(block).followed_by(
        after,
    ));
}

/// A subdirectory that cannot be listed costs the walk what lies below that
/// subdirectory and nothing else. The parent's own match, everything the
/// entries before and after the subdirectory yield, and the subdirectory's
/// own match are all still found, in their places; the one thing added is the
/// failure to list it.
pub proof fn unreadable_subdirectory_is_contained(
    parent: FileView,
    entries: Seq<Entry>,
    i: int,
    cause: Text,
    patterns: Seq<Set<Text>>,
    min_size: u64,
)
    requires
        parent.is_dir,
        0 <= i < entries.len(),
        entries[i] is Present,
        entries[i]->file.is_dir,
    ensures
        ({
            let sub = entries[i]->file;
            let sealed = entries.update(i, Entry::Present { file: sub, listing: Err(cause) });
            let walked = node_outcome(parent, Ok(sealed), patterns, min_size);
            let intact = node_outcome(parent, Ok(entries), patterns, min_size);
            let own = own_outcome(parent, patterns, min_size);
            let before = entries_outcome(parent.path, entries.take(i), patterns, min_size);
            let after = entries_outcome(parent.path, entries.skip(i + 1), patterns, min_size);
            let below = below_outcome(sub, entries[i]->listing, patterns, min_size);
            let sub_own = own_outcome(sub, patterns, min_size);
            &&& walked.found == own.found + before.found + sub_own.found + after.found
            &&& intact.found == own.found + before.found + sub_own.found + below.found
                + after.found
            &&& walked.errors == before.errors + seq![
                WalkErrorView { kind: ErrorKind::DirectoryListing, path: sub.path, cause },
            ] + after.errors
            &&& conduct(
                WalkView::begin(parent, patterns, min_size),
                below_dialogue(parent, Ok(sealed)),
            ) == Some(finished(patterns, min_size, walked))
        }),
{
    let sub = entries[i]->file;
    let sealed = entries.update(i, Entry::Present { file: sub, listing: Err(cause) });
    walk_yields_outcome(parent, Ok(sealed), patterns, min_size);
    entry_keeps_its_place(parent.path, entries, i, patterns, min_size);
    entry_keeps_its_place(parent.path, sealed, i, patterns, min_size);
    assert(sealed.take(i) =~= entries.take(i));
    assert(sealed.skip(i + 1) =~= entries.skip(i + 1));
    let walked = node_outcome(parent, Ok(sealed), patterns, min_size);
    let intact = node_outcome(parent, Ok(entries), patterns, min_size);
    let own = own_outcome(parent, patterns, min_size);
    let before = entries_outcome(parent.path, entries.take(i), patterns, min_size);
    let after = entries_outcome(parent.path, entries.skip(i + 1), patterns, min_size);
    let below = below_outcome(sub, entries[i]->listing, patterns, min_size);
    let sub_own = own_outcome(sub, patterns, min_size);
    assert(walked.found =~= own.found + before.found + sub_own.found + after.found);
    assert(intact.found =~= own.found + before.found + sub_own.found + below.found + after.found);
    assert(walked.errors =~= before.errors + seq![
        WalkErrorView { kind: ErrorKind::DirectoryListing, path: sub.path, cause },
    ] + after.errors);
}

/// What is found below a directory is what passes the filter there.
proof fn entries_found_pass(
    dir: Text,
    entries: Seq<Entry>,
    patterns: Seq<Set<Text>>,
    min_size: u64,
)
    ensures
        entries_outcome(dir, entries, patterns, min_size).found == entries_files(entries).filter(
            passing(patterns, min_size),
        ),
    decreases entries,
{
    let keep = passing(patterns, min_size);
    if entries.len() == 0 {
        reveal(Seq::filter);
    } else {
        let entry = entries.first();
        assert(entry_outcome(dir, entry, patterns, min_size).found == entry_files(entry).filter(
            keep,
        )) by {
            match entry {
                Entry::Present { file, listing } => {
                    found_is_filtered(file, listing, patterns, min_size);
                },
                _ => {
                    reveal(Seq::filter);
                },
            }
        }
        entries_found_pass(dir, entries.drop_first(), patterns, min_size);
        Seq::filter_distributes_over_add(
            entry_files(entry),
            entries_files(entries.drop_first()),
            keep,
        );
    }
}

/// Of the files a walk comes by, it finds exactly those that pass the
/// filter, once each and in the order it comes by them.
pub proof fn found_is_what_passes(
    file: FileView,
    listing: Result<Seq<Entry>, Text>,
    patterns: Seq<Set<Text>>,
    min_size: u64,
)
    ensures
        node_outcome(file, listing, patterns, min_size).found == node_files(file, listing).filter(
            passing(patterns, min_size),
        ),
    decreases listing,
{
    found_is_filtered(file, listing, patterns, min_size);
}

/// Every file a walk finds passes the filter, and every file it comes by
/// that passes the filter is found.
pub proof fn found_passes_and_passing_is_found(
    file: FileView,
    listing: Result<Seq<Entry>, Text>,
    patterns: Seq<Set<Text>>,
    min_size: u64,
)
    ensures
        forall|i: int|
            0 <= i < node_outcome(file, listing, patterns, min_size).found.len() ==> passes(
                #[trigger] node_outcome(file, listing, patterns, min_size).found[i],
                patterns,
                min_size,
            ),
        forall|i: int|
            0 <= i < node_files(file, listing).len() && passes(
                #[trigger] node_files(file, listing)[i],
                patterns,
                min_size,
            ) ==> node_outcome(file, listing, patterns, min_size).found.contains(
                node_files(file, listing)[i],
            ),
{
    let files = node_files(file, listing);
    let keep = passing(patterns, min_size);
    found_is_filtered(file, listing, patterns, min_size);
    assert forall|i: int| 0 <= i < files.filter(keep).len() implies passes(
        #[trigger] files.filter(keep)[i],
        patterns,
        min_size,
    ) by {
        files.lemma_filter_pred(keep, i);
    }
    assert forall|i: int| 0 <= i < files.len() && passes(
        #[trigger] files[i],
        patterns,
        min_size,
    ) implies files.filter(keep).contains(files[i]) by {
        files.lemma_filter_contains(keep, i);
    }
}

/// What is found in a subtree is what passes the filter there.
proof fn found_is_filtered(
    file: FileView,
    listing: Result<Seq<Entry>, Text>,
    patterns: Seq<Set<Text>>,
    min_size: u64,
)
    ensures
        node_outcome(file, listing, patterns, min_size).found == node_files(file, listing).filter(
            passing(patterns, min_size),
        ),
    decreases listing,
{
    let below = match listing {
        Ok(entries) if file.is_dir => entries_files(entries),
        _ => Seq::empty(),
    };
    assert(seq![file].filter(passing(patterns, min_size)) =~= own_outcome(
        file,
        patterns,
        min_size,
    ).found) by {
        reveal_with_fuel(Seq::filter, 2);
        assert(seq![file].drop_last() =~= Seq::empty());
    }
    assert(below.filter(passing(patterns, min_size)) == below_outcome(
        file,
        listing,
        patterns,
        min_size,
    ).found) by {
        reveal(Seq::filter);
        match listing {
            Ok(entries) if file.is_dir => {
                entries_found_pass(file.path, entries, patterns, min_size);
            },
            _ => {},
        }
    }
    Seq::filter_distributes_over_add(seq![file], below, passing(patterns, min_size));
}

/// Anything that is not a directory is visited once and never descended
/// into: as the root of a walk it leaves the walk done on the spot, with no
/// question asked, and the outcome is the file itself where it passes the
/// filter and nothing where it does not.
pub proof fn leaf_is_visited_once(
    file: FileView,
    listing: Result<Seq<Entry>, Text>,
    patterns: Seq<Set<Text>>,
    min_size: u64,
)
    requires
        !file.is_dir,
    ensures
        below_dialogue(file, listing) == Seq::<Exchange>::empty(),
        WalkView::begin(file, patterns, min_size) == finished(
            patterns,
            min_size,
            node_outcome(file, listing, patterns, min_size),
        ),
        node_outcome(file, listing, patterns, min_size).found == if passes(
            file,
            patterns,
            min_size,
        ) {
            seq![file]
        } else {
            Seq::empty()
        },
        node_outcome(file, listing, patterns, min_size).errors == Seq::<WalkErrorView>::empty(),
{
    walk_yields_outcome(file, listing, patterns, min_size);
    let outcome = node_outcome(file, listing, patterns, min_size);
    assert(outcome =~= own_outcome(file, patterns, min_size));
}

/// Inside a walk, the metadata of anything that is not a directory adds at
/// most that one file to the matches, puts no new work aside and asks for no
/// listing.
pub proof fn leaf_entry_is_visited_once(w: WalkView, path: Text, metadata: Metadata)
    requires
        w.pending == ActionView::Stat(path),
        !metadata.is_dir,
    ensures
        ({
            let file = FileView { path, size: metadata.size, is_dir: false };
            let next = w.step(EventView::Metadata(Ok(metadata)));
            &&& next.found == if passes(file, w.patterns, w.min_size) {
                w.found.push(file)
            } else {
                w.found
            }
            &&& next.agenda.len() <= w.agenda.len()
            &&& next.pending !is List
        }),
{
    let file = FileView { path, size: metadata.size, is_dir: false };
    advance_takes_up_work(w.sift(file));
}

/// Moving on finds nothing, puts nothing aside and never asks for a listing.
proof fn advance_takes_up_work(w: WalkView)
    ensures
        w.advance().found == w.found,
        w.advance().agenda.len() <= w.agenda.len(),
        w.advance().pending !is List,
        w.advance().patterns == w.patterns,
        w.advance().min_size == w.min_size,
    decreases w.agenda.len(),
{
    if w.agenda.len() > 0 {
        let rest = WalkView { agenda: w.agenda.drop_last(), ..w };
        match w.agenda.last() {
            TaskView::Report(e) => {
                advance_takes_up_work(rest.report(e));
            },
            TaskView::Probe(path) => {},
        }
    }
}

/// Walking an unchanged tree again, for the same patterns and threshold,
/// finds the same files: whatever two walks of one tree end with, both hold
/// the tree's outcome, match for match and failure for failure.
pub proof fn walk_is_repeatable(
    file: FileView,
    listing: Result<Seq<Entry>, Text>,
    patterns: Seq<Set<Text>>,
    min_size: u64,
    once: WalkView,
    again: WalkView,
)
    requires
        conduct(WalkView::begin(file, patterns, min_size), below_dialogue(file, listing)) == Some(
            once,
        ),
        conduct(WalkView::begin(file, patterns, min_size), below_dialogue(file, listing)) == Some(
            again,
        ),
    ensures
        once.found == again.found,
        once.errors == again.errors,
        once.found == node_outcome(file, listing, patterns, min_size).found,
{
    walk_yields_outcome(file, listing, patterns, min_size);
}

/// Where a directory yields the same entries in another order, the walk
/// finds the same files and meets the same failures, each as often as
/// before; only their order follows the listing.
pub proof fn listing_order_keeps_the_matches(
    dir: Text,
    first: Seq<Entry>,
    second: Seq<Entry>,
    patterns: Seq<Set<Text>>,
    min_size: u64,
)
    requires
        first.to_multiset() == second.to_multiset(),
    ensures
        entries_outcome(dir, first, patterns, min_size).found.to_multiset() == entries_outcome(
            dir,
            second,
            patterns,
            min_size,
        ).found.to_multiset(),
        entries_outcome(dir, first, patterns, min_size).errors.to_multiset() == entries_outcome(
            dir,
            second,
            patterns,
            min_size,
        ).errors.to_multiset(),
    decreases first.len(),
{
    to_multiset_len(first);
    to_multiset_len(second);
    if first.len() > 0 {
        let entry = first.first();
        assert(first[0] == entry);
        to_multiset_contains(first, entry);
        to_multiset_contains(second, entry);
        let k = choose|k: int| 0 <= k < second.len() && second[k] == entry;
        let others = second.remove(k);
        to_multiset_remove(first, 0);
        to_multiset_remove(second, k);
        assert(first.remove(0) =~= first.drop_first());
        listing_order_keeps_the_matches(dir, first.drop_first(), others, patterns, min_size);
        assert(others =~= second.take(k) + second.skip(k + 1));
        entries_outcome_concat(dir, second.take(k), second.skip(k + 1), patterns, min_size);
        entry_keeps_its_place(dir, second, k, patterns, min_size);
        let block = entry_outcome(dir, entry, patterns, min_size);
        let before = entries_outcome(dir, second.take(k), patterns, min_size);
        let after = entries_outcome(dir, second.skip(k + 1), patterns, min_size);
        let rest = entries_outcome(dir, first.drop_first(), patterns, min_size);
        lemma_multiset_commutative(block.found, rest.found);
        lemma_multiset_commutative(before.found, after.found);
        lemma_multiset_commutative(before.found, block.found);
        lemma_multiset_commutative(before.found + block.found, after.found);
        assert(block.found.to_multiset().add(
            before.found.to_multiset().add(after.found.to_multiset()),
        ) =~= before.found.to_multiset().add(block.found.to_multiset()).add(
            after.found.to_multiset(),
        ));
        lemma_multiset_commutative(block.errors, rest.errors);
        lemma_multiset_commutative(before.errors, after.errors);
        lemma_multiset_commutative(before.errors, block.errors);
        lemma_multiset_commutative(before.errors + block.errors, after.errors);
        assert(block.errors.to_multiset().add(
            before.errors.to_multiset().add(after.errors.to_multiset()),
        ) =~= before.errors.to_multiset().add(block.errors.to_multiset()).add(
            after.errors.to_multiset(),
        ));
    }
}

} // verus!
