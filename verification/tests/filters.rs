use regex::Regex;
use rust_find::file::File;
use rust_find::filter::{filter_path, filter_size};

#[test]
fn test_filter_path() {
    let file = File {
        path: String::from("/foo/bar.txt"),
        size: 0,
        is_dir: false,
    };

    let re = Regex::new(r"baz").unwrap();
    assert!(!filter_path(&file, &vec![re]));
    let re = Regex::new(r"bar").unwrap();
    assert!(filter_path(&file, &vec![re]));
    let re = Regex::new(r".*.txt").unwrap();
    assert!(filter_path(&file, &vec![re]));
}

#[test]
fn test_filter_size() {
    let file = File {
        path: String::from(""),
        size: 10,
        is_dir: false,
    };

    assert!(!filter_size(&file, 11));
    assert!(filter_size(&file, 1))
}
