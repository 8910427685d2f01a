//! Regular expressions, seen as the languages they accept.

use crate::text::{views, Text};
use regex::Regex;
use vstd::prelude::*;

verus! {

/// `regex::Regex`, a compiled regular expression. Nothing of its inside is
/// known here; what it matches is spoken of through `regex_language`.
#[verifier::external_type_specification]
#[verifier::external_body]
pub struct ExRegex(regex::Regex);

/// `regex::Error`, the reason a pattern did not compile. It is only ever
/// passed along.
#[verifier::external_type_specification]
#[verifier::external_body]
pub struct ExRegexError(regex::Error);

/// The haystacks in which a compiled regex finds a match somewhere.
pub uninterp spec fn regex_language(re: Regex) -> Set<Seq<char>>;

/// The haystacks in which a pattern, read as a regular expression, finds a
/// match somewhere. It says nothing of a string that is no regular
/// expression.
pub uninterp spec fn pattern_language(pattern: Seq<char>) -> Set<Seq<char>>;

/// `Regex::new` compiles `re` with the default options. Where it succeeds,
/// the regex matches what the pattern means. Whether it succeeds is left
/// open: besides the syntax, a size limit decides, and how large a compiled
/// pattern counts depends on the machine. Only the empty pattern is known to
/// compile; it matches at the start of every haystack.
pub assume_specification[ Regex::new ](re: &str) -> (r: Result<Regex, regex::Error>)
    ensures
        r matches Ok(compiled) ==> regex_language(compiled) == pattern_language(re@),
        re@.len() == 0 ==> r is Ok && regex_language(r->Ok_0) == Set::<Seq<char>>::full(),
;

/// `Regex::is_match` says whether the regex matches anywhere in `haystack`;
/// it searches from offset 0 and does not panic.
pub assume_specification[ Regex::is_match ](re: &Regex, haystack: &str) -> (b: bool)
    ensures
        b == regex_language(*re).contains(haystack@),
;

/// `language` is what the pattern string can stand for: the pattern's own
/// language, or, for a string that did not compile, every text.
pub open spec fn stands_for(pattern: Text, language: Set<Text>) -> bool {
    language == pattern_language(pattern) || language == Set::<Text>::full()
}

/// Each of the languages is what the pattern string in its place can stand
/// for.
pub open spec fn stand_for(patterns: Seq<Text>, languages: Seq<Set<Text>>) -> bool {
    &&& languages.len() == patterns.len()
    &&& forall|i: int| 0 <= i < patterns.len() ==> stands_for(patterns[i], #[trigger] languages[i])
}

/// The languages of a sequence of compiled patterns.
pub open spec fn languages(res: Seq<Regex>) -> Seq<Set<Text>> {
    Seq::new(res.len(), |i: int| regex_language(res[i]))
}

/// The pattern to go on with after a compilation: the compiled pattern where
/// there is one, and otherwise the empty pattern, which matches every text.
pub fn or_match_all(compiled: Result<Regex, regex::Error>) -> (re: Regex)
    ensures
        regex_language(re) == match compiled {
            Ok(regex) => regex_language(regex),
            Err(_) => Set::<Text>::full(),
        },
{
    match compiled {
        Ok(re) => re,
        Err(_) => {
            proof {
                reveal_strlit("");
            }
            match Regex::new("") {
                Ok(re) => re,
                Err(_) => vstd::pervasive::unreached(),
            }
        },
    }
}

/// Compiles `pattern`. A string that does not compile is no error: it yields
/// a pattern that matches every text. Which of the two happened is decided by
/// the regex compiler; [`or_match_all`] says what becomes of either.
pub fn compile(pattern: &str) -> (re: Regex)
    ensures
        stands_for(pattern@, regex_language(re)),
{
    or_match_all(Regex::new(pattern))
}

/// Compiles every pattern string on its own. This never fails as a whole:
/// there is one compiled pattern per string, in the same order, and a string
/// that does not compile yields a pattern that matches every text.
pub fn compile_patterns(pats: &Vec<String>) -> (res: Vec<Regex>)
    ensures
        stand_for(views(pats@), languages(res@)),
{
    let n: usize = pats.len();
    let mut res: Vec<Regex> = Vec::new();
    let mut i: usize = 0;
    while i < n
        invariant
            n == pats@.len(),
            i <= n,
            res@.len() == i,
            forall|j: int|
                0 <= j < i ==> stands_for(pats@[j]@, regex_language(#[trigger] res@[j])),
        decreases n - i,
    {
        res.push(compile(pats[i].as_str()));
        i += 1;
    }
    res
}

} // verus!
