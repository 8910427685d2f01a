//! The filter a visited entry has to pass.

use crate::file::{File, FileView};
use crate::pattern::languages;
use crate::text::Text;
use regex::Regex;
use vstd::prelude::*;

verus! {

/// `path` lies in every one of the languages; vacuously so where there are
/// none.
pub open spec fn matches_all(path: Text, patterns: Seq<Set<Text>>) -> bool {
    forall|i: int| 0 <= i < patterns.len() ==> (#[trigger] patterns[i]).contains(path)
}

/// The whole filter: the path matches every pattern and the size is
/// strictly greater than the threshold.
pub open spec fn passes(file: FileView, patterns: Seq<Set<Text>>, min_size: u64) -> bool {
    matches_all(file.path, patterns) && file.size > min_size
}

/// Whether the file's path matches every one of the compiled patterns. Each
/// pattern may match anywhere in the path.
pub fn filter_path(file: &File, res: &Vec<Regex>) -> (b: bool)
    ensures
        b == matches_all(file.path@, languages(res@)),
        res@.len() == 0 ==> b,
{
    let n: usize = res.len();
    let mut i: usize = 0;
    while i < n
        invariant
            n == res@.len(),
            i <= n,
            forall|j: int| 0 <= j < i ==> (#[trigger] languages(res@)[j]).contains(file.path@),
        decreases n - i,
    {
        if !res[i].is_match(file.path.as_str()) {
            assert(!languages(res@)[i as int].contains(file.path@));
            return false;
        }
        i += 1;
    }
    true
}

/// Whether the file is larger than `size` bytes; a file of exactly `size`
/// bytes is not.
pub fn filter_size(file: &File, size: u64) -> (b: bool)
    ensures
        b == (file.size > size),
{
    file.size > size
}

} // verus!
