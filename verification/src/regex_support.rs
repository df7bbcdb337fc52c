//! The calls into the `regex` crate that the analyzers make.
//!
//! What a regular expression matches takes pages to state, so each result is
//! given a name over the pattern and the haystack; the analyzers' own
//! contracts speak of these names.

use vstd::prelude::*;

verus! {

/// Whether `regex::Regex::new(pattern)` succeeds.
pub uninterp spec fn regex_compiles(pattern: Seq<char>) -> bool;

/// What `Regex::is_match(text)` returns for the regex built from `pattern`.
pub uninterp spec fn regex_is_match(pattern: Seq<char>, text: Seq<char>) -> bool;

/// The number of matches that `Regex::find_iter(text)` yields for the regex
/// built from `pattern`.
pub uninterp spec fn regex_find_count(pattern: Seq<char>, text: Seq<char>) -> nat;

/// What `Regex::captures(text)` returns: `None` when there is no match, else
/// the text of each capture group (group 0 first), `None` for a group that
/// did not take part in the match.
pub uninterp spec fn regex_captures(pattern: Seq<char>, text: Seq<char>) -> Option<
    Seq<Option<Seq<char>>>,
>;

/// What `Regex::captures_iter(text)` yields: for each match, the byte offset
/// of its start in `text` and the text of each capture group (group 0 first).
pub uninterp spec fn regex_captures_all(pattern: Seq<char>, text: Seq<char>) -> Seq<
    (nat, Seq<Option<Seq<char>>>),
>;

/// `Regex::new(pattern)` then `Regex::is_match` on each line: `None` when
/// the pattern does not compile, else one flag per line.
#[verifier::external_body]
pub(crate) fn is_match_each(pattern: &str, lines: &Vec<Vec<char>>) -> (r: Option<Vec<bool>>)
    ensures
        r is Some <==> regex_compiles(pattern@),
        r matches Some(v) ==> v@.len() == lines@.len() && forall|i: int|
            0 <= i < v@.len() ==> v@[i] == regex_is_match(pattern@, #[trigger] lines@[i]@),
{
    let re = regex::Regex::new(pattern).ok()?;
    Some(lines.iter().map(|l| re.is_match(&l.iter().collect::<String>())).collect())
}

/// `Regex::new(pattern)` then the number of `Regex::find_iter` matches in
/// each text: `None` when the pattern does not compile.
#[verifier::external_body]
pub(crate) fn find_count_each(pattern: &str, texts: &Vec<Vec<char>>) -> (r: Option<Vec<usize>>)
    ensures
        r is Some <==> regex_compiles(pattern@),
        r matches Some(v) ==> v@.len() == texts@.len() && forall|i: int|
            0 <= i < v@.len() ==> v@[i] == regex_find_count(pattern@, #[trigger] texts@[i]@),
{
    let re = regex::Regex::new(pattern).ok()?;
    Some(texts.iter().map(|t| re.find_iter(&t.iter().collect::<String>()).count()).collect())
}

/// `Regex::new(pattern)` then `Regex::captures` on each line: `None` when
/// the pattern does not compile, else per line the captured groups.
#[verifier::external_body]
pub(crate) fn captures_each(pattern: &str, lines: &Vec<Vec<char>>) -> (r: Option<
    Vec<Option<Vec<Option<String>>>>,
>)
    ensures
        r is Some <==> regex_compiles(pattern@),
        r matches Some(v) ==> v@.len() == lines@.len() && forall|i: int|
            0 <= i < v@.len() ==> groups_view(#[trigger] v@[i]) == regex_captures(
                pattern@,
                lines@[i]@,
            ),
{
    let re = regex::Regex::new(pattern).ok()?;
    Some(lines.iter().map(|l| {
        let text: String = l.iter().collect();
        re.captures(&text).map(|c| c.iter().map(|g| g.map(|m| m.as_str().to_string())).collect())
    }).collect())
}

/// `Regex::new(pattern)` then `Regex::captures_iter(text)`: `None` when the
/// pattern does not compile, else per match its start byte offset and its
/// groups. Each start offset lies on a character boundary of `text`, as the
/// `regex` documentation of `Match::start` guarantees.
#[verifier::external_body]
pub(crate) fn captures_all(pattern: &str, text: &str) -> (r: Option<Vec<(usize, Vec<Option<String>>)>>)
    ensures
        r is Some <==> regex_compiles(pattern@),
        r matches Some(v) ==> v@.len() == regex_captures_all(pattern@, text@).len() && forall|
            i: int,
        |
            0 <= i < v@.len() ==> (#[trigger] v@[i]).0 == regex_captures_all(pattern@, text@)[i].0
                && groups_view(Some(v@[i].1)) == Some(regex_captures_all(pattern@, text@)[i].1),
        r matches Some(v) ==> forall|i: int|
            0 <= i < v@.len() ==> crate::text::is_char_boundary(text@, (#[trigger] v@[i]).0 as nat),
{
    let re = regex::Regex::new(pattern).ok()?;
    Some(re.captures_iter(text).map(|c| {
        let start = c.get(0).map(|m| m.start()).unwrap_or(0);
        (start, c.iter().map(|g| g.map(|m| m.as_str().to_string())).collect())
    }).collect())
}

/// The view of the groups of one capture.
pub open spec fn groups_view(c: Option<Vec<Option<String>>>) -> Option<Seq<Option<Seq<char>>>> {
    match c {
        Some(v) => Some(Seq::new(v@.len(), |i: int| opt_string(v@[i]))),
        None => None,
    }
}

/// The view of an optional `String`.
pub open spec fn opt_string(o: Option<String>) -> Option<Seq<char>> {
    match o {
        Some(s) => Some(s@),
        None => None,
    }
}

} // verus!
