use std::collections::HashMap;

use regex::RegexBuilder;
use rust_find::{
    do_traverse, traverse, Action, ErrorKind, Event, File, Metadata, WalkError,
};

/// A file system held in memory: what each path answers to a metadata query
/// and what each directory answers to a listing.
struct Fs {
    metadata: HashMap<String, Result<Metadata, String>>,
    listings: HashMap<String, Result<Vec<Result<String, String>>, String>>,
}

impl Fs {
    fn new() -> Fs {
        Fs { metadata: HashMap::new(), listings: HashMap::new() }
    }

    fn file(mut self, path: &str, size: u64) -> Fs {
        self.metadata.insert(path.to_string(), Ok(Metadata { size, is_dir: false }));
        self
    }

    fn dir(mut self, path: &str, size: u64, entries: &[&str]) -> Fs {
        self.metadata.insert(path.to_string(), Ok(Metadata { size, is_dir: true }));
        let records = entries.iter().map(|e| Ok(e.to_string())).collect();
        self.listings.insert(path.to_string(), Ok(records));
        self
    }

    fn records(mut self, path: &str, records: Vec<Result<String, String>>) -> Fs {
        self.listings.insert(path.to_string(), Ok(records));
        self
    }

    fn unlistable(mut self, path: &str, size: u64, cause: &str) -> Fs {
        self.metadata.insert(path.to_string(), Ok(Metadata { size, is_dir: true }));
        self.listings.insert(path.to_string(), Err(cause.to_string()));
        self
    }

    fn gone(mut self, path: &str, cause: &str) -> Fs {
        self.metadata.insert(path.to_string(), Err(cause.to_string()));
        self
    }

    fn root(&self, path: &str) -> Result<File, WalkError> {
        File::from(path, self.metadata[path].clone())
    }
}

/// What a finished walk leaves behind, and what it asked on the way.
struct Run {
    found: Vec<String>,
    errors: Vec<WalkError>,
    asked: Vec<Action>,
}

fn walk(fs: &Fs, root: &str, patterns: &[&str], size: u64) -> Run {
    let root = fs.root(root).unwrap();
    let patterns: Vec<String> = patterns.iter().map(|p| p.to_string()).collect();
    let mut walk = traverse(&root, &patterns, size);
    let mut asked = Vec::new();
    let mut next = walk.action();
    loop {
        let event = match &next {
            Action::Done => break,
            Action::Stat(path) => Event::Metadata(fs.metadata[path].clone()),
            Action::List(path) => Event::Listing(fs.listings[path].clone()),
        };
        asked.push(next);
        next = walk.step(event);
        assert_eq!(next, walk.action());
        assert!(asked.len() < 1000);
    }
    let errors = walk.errors().clone();
    let found = walk.into_found().into_iter().map(|f| f.path).collect();
    Run { found, errors, asked }
}

fn small_tree() -> Fs {
    Fs::new()
        .dir("/root", 4096, &["/root/a.txt", "/root/sub"])
        .file("/root/a.txt", 10)
        .dir("/root/sub", 4096, &["/root/sub/b.txt"])
        .file("/root/sub/b.txt", 5)
}

fn error(kind: ErrorKind, path: &str, cause: &str) -> WalkError {
    WalkError { kind, path: path.to_string(), cause: cause.to_string() }
}

#[test]
fn finds_both_text_files_and_not_the_directory() {
    let run = walk(&small_tree(), "/root", &["\\.txt$"], 0);
    assert_eq!(run.found, vec!["/root/a.txt", "/root/sub/b.txt"]);
    assert!(run.errors.is_empty());
}

#[test]
fn threshold_excludes_the_smaller_file() {
    let run = walk(&small_tree(), "/root", &["\\.txt$"], 7);
    assert_eq!(run.found, vec!["/root/a.txt"]);
    assert!(run.errors.is_empty());
}

#[test]
fn patterns_are_a_conjunction() {
    let run = walk(&small_tree(), "/root", &["a", "txt"], 0);
    assert_eq!(run.found, vec!["/root/a.txt"]);
}

#[test]
fn invalid_pattern_filters_nothing() {
    let with_invalid = walk(&small_tree(), "/root", &["(", "\\.txt$"], 0);
    let valid_alone = walk(&small_tree(), "/root", &["\\.txt$"], 0);
    assert_eq!(with_invalid.found, vec!["/root/a.txt", "/root/sub/b.txt"]);
    assert_eq!(with_invalid.found, valid_alone.found);
    assert!(with_invalid.errors.is_empty());
}

#[test]
fn unreadable_root_yields_nothing_and_one_diagnostic() {
    let fs = Fs::new().unlistable("/root", 4096, "Permission denied (os error 13)");
    let run = walk(&fs, "/root", &["\\.txt$"], 0);
    assert!(run.found.is_empty());
    assert_eq!(
        run.errors,
        vec![error(ErrorKind::DirectoryListing, "/root", "Permission denied (os error 13)")]
    );
    assert_eq!(run.asked, vec![Action::List("/root".to_string())]);
}

#[test]
fn root_without_metadata_is_a_metadata_error() {
    let fs = Fs::new().gone("/nowhere", "No such file or directory (os error 2)");
    let failure = fs.root("/nowhere").unwrap_err();
    assert_eq!(
        failure,
        error(ErrorKind::Metadata, "/nowhere", "No such file or directory (os error 2)")
    );
    assert_eq!(
        failure.message(),
        "get metadata for /nowhere: No such file or directory (os error 2)"
    );
}

#[test]
fn walking_twice_finds_the_same() {
    let fs = small_tree();
    let once = walk(&fs, "/root", &["\\.txt$"], 0);
    let again = walk(&fs, "/root", &["\\.txt$"], 0);
    assert_eq!(once.found, again.found);
    assert_eq!(once.errors, again.errors);
    assert_eq!(once.asked, again.asked);
}

#[test]
fn listing_order_changes_only_the_order() {
    let forward = small_tree();
    let backward = small_tree().dir("/root", 4096, &["/root/sub", "/root/a.txt"]);
    let a = walk(&forward, "/root", &["\\.txt$"], 0);
    let b = walk(&backward, "/root", &["\\.txt$"], 0);
    assert_eq!(a.found, vec!["/root/a.txt", "/root/sub/b.txt"]);
    assert_eq!(b.found, vec!["/root/sub/b.txt", "/root/a.txt"]);
}

#[test]
fn unreadable_subdirectory_does_not_hide_its_siblings() {
    let fs = Fs::new()
        .dir("/root", 4096, &["/root/a.txt", "/root/locked", "/root/sub", "/root/z.txt"])
        .file("/root/a.txt", 10)
        .unlistable("/root/locked", 4096, "Permission denied (os error 13)")
        .dir("/root/sub", 4096, &["/root/sub/b.txt"])
        .file("/root/sub/b.txt", 5)
        .file("/root/z.txt", 1);
    let run = walk(&fs, "/root", &["root"], 0);
    assert_eq!(
        run.found,
        vec![
            "/root",
            "/root/a.txt",
            "/root/locked",
            "/root/sub",
            "/root/sub/b.txt",
            "/root/z.txt"
        ]
    );
    assert_eq!(
        run.errors,
        vec![error(ErrorKind::DirectoryListing, "/root/locked", "Permission denied (os error 13)")]
    );
    assert_eq!(run.errors[0].message(), "read dir /root/locked: Permission denied (os error 13)");
}

#[test]
fn matching_leaf_is_the_only_result_and_is_not_descended_into() {
    let fs = Fs::new().file("/root/a.txt", 10);
    let run = walk(&fs, "/root/a.txt", &["\\.txt$"], 0);
    assert_eq!(run.found, vec!["/root/a.txt"]);
    assert!(run.asked.is_empty());
    assert!(run.errors.is_empty());
}

#[test]
fn leaf_that_fails_the_filter_yields_nothing() {
    let fs = Fs::new().file("/root/a.txt", 10);
    assert!(walk(&fs, "/root/a.txt", &["\\.rs$"], 0).found.is_empty());
    assert!(walk(&fs, "/root/a.txt", &["\\.txt$"], 10).found.is_empty());
    assert_eq!(walk(&fs, "/root/a.txt", &["\\.txt$"], 9).found, vec!["/root/a.txt"]);
}

#[test]
fn no_patterns_means_every_path_passes() {
    let run = walk(&small_tree(), "/root", &[], 0);
    assert_eq!(run.found, vec!["/root", "/root/a.txt", "/root/sub", "/root/sub/b.txt"]);
}

#[test]
fn empty_file_fails_the_default_threshold() {
    let fs = Fs::new().dir("/d", 4096, &["/d/empty", "/d/one"]).file("/d/empty", 0).file("/d/one", 1);
    assert_eq!(walk(&fs, "/d", &["/d/"], 0).found, vec!["/d/one"]);
}

#[test]
fn parent_comes_before_its_descendants_and_subtrees_stay_together() {
    let fs = Fs::new()
        .dir("/r", 1, &["/r/x", "/r/y"])
        .dir("/r/x", 1, &["/r/x/1", "/r/x/deep"])
        .file("/r/x/1", 1)
        .dir("/r/x/deep", 1, &["/r/x/deep/2"])
        .file("/r/x/deep/2", 1)
        .dir("/r/y", 1, &["/r/y/3"])
        .file("/r/y/3", 1);
    let run = walk(&fs, "/r", &[], 0);
    assert_eq!(
        run.found,
        vec!["/r", "/r/x", "/r/x/1", "/r/x/deep", "/r/x/deep/2", "/r/y", "/r/y/3"]
    );
    assert_eq!(
        run.asked,
        vec![
            Action::List("/r".to_string()),
            Action::Stat("/r/x".to_string()),
            Action::List("/r/x".to_string()),
            Action::Stat("/r/x/1".to_string()),
            Action::Stat("/r/x/deep".to_string()),
            Action::List("/r/x/deep".to_string()),
            Action::Stat("/r/x/deep/2".to_string()),
            Action::Stat("/r/y".to_string()),
            Action::List("/r/y".to_string()),
            Action::Stat("/r/y/3".to_string()),
        ]
    );
}

#[test]
fn unreadable_record_is_skipped_and_reported_against_the_directory() {
    let fs = Fs::new()
        .dir("/r", 1, &[])
        .records(
            "/r",
            vec![
                Ok("/r/a".to_string()),
                Err("Input/output error (os error 5)".to_string()),
                Ok("/r/b".to_string()),
            ],
        )
        .file("/r/a", 1)
        .file("/r/b", 1);
    let run = walk(&fs, "/r", &["/r/"], 0);
    assert_eq!(run.found, vec!["/r/a", "/r/b"]);
    assert_eq!(
        run.errors,
        vec![error(ErrorKind::DirectoryEntry, "/r", "Input/output error (os error 5)")]
    );
    assert_eq!(run.errors[0].message(), "read dir /r: Input/output error (os error 5)");
}

#[test]
fn entry_without_metadata_is_skipped_and_reported() {
    let fs = Fs::new()
        .dir("/r", 1, &["/r/a", "/r/vanished", "/r/b"])
        .file("/r/a", 1)
        .gone("/r/vanished", "No such file or directory (os error 2)")
        .file("/r/b", 1);
    let run = walk(&fs, "/r", &["/r/"], 0);
    assert_eq!(run.found, vec!["/r/a", "/r/b"]);
    assert_eq!(
        run.errors,
        vec![error(ErrorKind::Metadata, "/r/vanished", "No such file or directory (os error 2)")]
    );
}

#[test]
fn failures_keep_the_order_in_which_they_arise() {
    let fs = Fs::new()
        .dir("/r", 1, &[])
        .records(
            "/r",
            vec![
                Err("first".to_string()),
                Ok("/r/locked".to_string()),
                Ok("/r/vanished".to_string()),
                Err("last".to_string()),
            ],
        )
        .unlistable("/r/locked", 1, "second")
        .gone("/r/vanished", "third");
    let run = walk(&fs, "/r", &[], 0);
    assert_eq!(run.found, vec!["/r", "/r/locked"]);
    assert_eq!(
        run.errors,
        vec![
            error(ErrorKind::DirectoryEntry, "/r", "first"),
            error(ErrorKind::DirectoryListing, "/r/locked", "second"),
            error(ErrorKind::Metadata, "/r/vanished", "third"),
            error(ErrorKind::DirectoryEntry, "/r", "last"),
        ]
    );
}

#[test]
fn empty_directory_is_done_after_its_listing() {
    let fs = Fs::new().dir("/r", 1, &[]);
    let run = walk(&fs, "/r", &[], 0);
    assert_eq!(run.found, vec!["/r"]);
    assert_eq!(run.asked, vec![Action::List("/r".to_string())]);
}

#[test]
fn event_of_the_wrong_kind_is_ignored() {
    let root = File { path: "/r".to_string(), size: 1, is_dir: true };
    let mut walk = traverse(&root, &Vec::new(), 0);
    assert_eq!(walk.action(), Action::List("/r".to_string()));
    let next = walk.step(Event::Metadata(Ok(Metadata { size: 9, is_dir: false })));
    assert_eq!(next, Action::List("/r".to_string()));
    assert_eq!(walk.found().len(), 1);
    assert!(walk.errors().is_empty());
    let next = walk.step(Event::Listing(Ok(vec![Ok("/r/a".to_string())])));
    assert_eq!(next, Action::Stat("/r/a".to_string()));
    let next = walk.step(Event::Listing(Err("late".to_string())));
    assert_eq!(next, Action::Stat("/r/a".to_string()));
    assert!(walk.errors().is_empty());
}

#[test]
fn finished_walk_ignores_every_event() {
    let root = File { path: "/f".to_string(), size: 1, is_dir: false };
    let mut walk = traverse(&root, &Vec::new(), 0);
    assert_eq!(walk.action(), Action::Done);
    assert_eq!(walk.step(Event::Metadata(Err("x".to_string()))), Action::Done);
    assert_eq!(walk.step(Event::Listing(Ok(vec![Ok("/f/a".to_string())]))), Action::Done);
    assert!(walk.errors().is_empty());
    assert_eq!(walk.into_found(), vec![root]);
}

#[test]
fn path_is_kept_exactly_as_given() {
    let file = File::from("./a/../b//c.txt", Ok(Metadata { size: 3, is_dir: false })).unwrap();
    assert_eq!(file, File { path: "./a/../b//c.txt".to_string(), size: 3, is_dir: false });
    let dir = File::from("", Ok(Metadata { size: 0, is_dir: true })).unwrap();
    assert_eq!(dir, File { path: String::new(), size: 0, is_dir: true });
}

#[test]
fn compiled_patterns_can_be_handed_in() {
    let root = File { path: "/r".to_string(), size: 1, is_dir: true };
    let shouting = RegexBuilder::new("A\\.TXT$").case_insensitive(true).build().unwrap();
    let mut walk = do_traverse(&root, vec![shouting], 0);
    assert_eq!(walk.action(), Action::List("/r".to_string()));
    let records = vec![Ok("/r/a.txt".to_string()), Ok("/r/b.txt".to_string())];
    assert_eq!(walk.step(Event::Listing(Ok(records))), Action::Stat("/r/a.txt".to_string()));
    let small = Event::Metadata(Ok(Metadata { size: 1, is_dir: false }));
    assert_eq!(walk.step(small), Action::Stat("/r/b.txt".to_string()));
    let small = Event::Metadata(Ok(Metadata { size: 1, is_dir: false }));
    assert_eq!(walk.step(small), Action::Done);
    assert_eq!(walk.into_found(), vec![File { path: "/r/a.txt".to_string(), size: 1, is_dir: false }]);
}
