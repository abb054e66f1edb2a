//! What this library takes on trust from `std`, `regex` and `itertools`.
//! Nothing here is proved: each contract restates what the documentation
//! and the source of the called function show.

use crate::splice::{match_views, tiles, wholes, Scan};
use crate::text::{joined, texts};
use itertools::Itertools;
use regex::Regex;
use vstd::prelude::*;

verus! {

/// `String::push` appends one character to the string.
pub assume_specification[ String::push ](s: &mut String, c: char)
    ensures
        final(s)@ == old(s)@.push(c),
;

/// `Itertools::join` on the strings of `parts`: all of them in one string,
/// in order, with `sep` between each two neighbours.
#[verifier::external_body]
pub(crate) fn join(parts: &Vec<String>, sep: &str) -> (r: String)
    ensures
        r@ == joined(texts(parts@), sep@),
{
    parts.iter().join(sep)
}

/// The error of `regex::Regex::new`.
#[verifier::external_type_specification]
#[verifier::external_body]
pub struct ExRegexError(regex::Error);

/// Whether `regex::Regex::new` compiles the pattern.
pub uninterp spec fn regex_accepts(pattern: Seq<char>) -> bool;

/// What `Regex::split` yields for the text: the stretches of the text that
/// no match covers, in order.
pub uninterp spec fn regex_gaps(pattern: Seq<char>, text: Seq<char>) -> Seq<Seq<char>>;

/// What `Regex::captures_iter` yields for the text: for each match, in
/// order, what each group of the pattern matched, or `None` for a group
/// that took no part. Group 0 is the whole match.
pub uninterp spec fn regex_groups(pattern: Seq<char>, text: Seq<char>) -> Seq<
    Seq<Option<Seq<char>>>,
>;

/// Compiles `pattern` with `Regex::new` and runs `Regex::split` and
/// `Regex::captures_iter` over `text`.
///
/// Claimed of `regex`: whether compiling succeeds, and what the two
/// iterators yield, depends on the pattern and the text alone. Both
/// iterators walk the same successive non-overlapping matches, so there is
/// one more gap than there are matches, and the gaps and the matched texts,
/// taken in turn, make up the text again.
#[verifier::external_body]
pub(crate) fn find_all(pattern: &str, text: &str) -> (r: Result<Scan, regex::Error>)
    ensures
        r is Ok == regex_accepts(pattern@),
        r matches Ok(found) ==> {
            &&& texts(found.gaps@) == regex_gaps(pattern@, text@)
            &&& match_views(found.matches@) == regex_groups(pattern@, text@)
            &&& tiles(text@, regex_gaps(pattern@, text@), wholes(regex_groups(pattern@, text@)))
        },
{
    let re = Regex::new(pattern)?;
    let gaps = re.split(text).map(|gap| gap.to_string()).collect();
    let matches = re
        .captures_iter(text)
        .map(|found| found.iter().map(|group| group.map(|m| m.as_str().to_string())).collect())
        .collect();
    Ok(Scan { gaps, matches })
}

} // verus!
