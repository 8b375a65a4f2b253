//! A pattern and where it matches. This file holds all that touches the
//! compiled regex, and nothing else.

use crate::text::on_boundary;
use regex::Regex;
use vstd::prelude::*;
use vstd::utf8::encode_utf8;

verus! {

/// `regex::Regex`, a compiled pattern.
#[verifier::external_type_specification]
#[verifier::external_body]
pub struct ExRegex(Regex);

/// The matches of a pattern in a text, as `Regex::find_iter` yields them on
/// the regex that `Regex::new` makes of the pattern: the byte offsets at
/// which each match starts and ends, in the order they are found.
pub uninterp spec fn pattern_matches(pattern: Seq<char>, text: Seq<char>) -> Seq<(usize, usize)>;

/// Ranges that can be cut out of a text one after the other: each starts
/// and ends between two characters, inside the text, and none starts before
/// the one before it has ended.
pub open spec fn ranges_fit(text: Seq<char>, ranges: Seq<(usize, usize)>) -> bool {
    &&& forall|i: int|
        0 <= i < ranges.len() ==> {
            &&& (#[trigger] ranges[i]).0 <= ranges[i].1 <= encode_utf8(text).len()
            &&& on_boundary(text, ranges[i].0 as int)
            &&& on_boundary(text, ranges[i].1 as int)
        }
    &&& forall|i: int, j: int|
        0 <= i < j < ranges.len() ==> (#[trigger] ranges[i]).1 <= (#[trigger] ranges[j]).0
}

/// A pattern together with the regex compiled from it. Nothing outside this
/// file can put one together, and in this file only `Pattern::new` does, so
/// the regex of a `Pattern` is always the one that was compiled from its
/// source.
pub struct Pattern {
    regex: Regex,
    source: String,
}

impl View for Pattern {
    type V = Seq<char>;

    closed spec fn view(&self) -> Seq<char> {
        self.source@
    }
}

/// `Regex::new`: compiles a pattern, or refuses it. A pattern is refused for
/// its syntax, or for a compiled size over the regex crate's limit; that
/// size is counted in bytes of memory, which differ from one machine to
/// another, so the outcome is not a matter of the pattern alone and nothing
/// is said of it here.
#[verifier::external_body]
fn compile(source: &str) -> (regex: Option<Regex>) {
    Regex::new(source).ok()
}

/// `Regex::find_iter` with the offsets of each `Match`: the matches of the
/// pattern in the text. As the regex crate documents, every match starts and
/// ends on a character boundary of the text, with its start not after its
/// end, and the matches come in order and do not overlap.
#[verifier::external_body]
fn find_all(pattern: &Pattern, text: &str) -> (ranges: Vec<(usize, usize)>)
    ensures
        ranges@ == pattern_matches(pattern@, text@),
        ranges_fit(text@, ranges@),
{
    pattern.regex.find_iter(text).map(|m| (m.start(), m.end())).collect()
}

impl Pattern {
    /// Compiles a pattern. `None` where the regex crate refuses it.
    pub fn new(source: &str) -> (pattern: Option<Pattern>)
        ensures
            pattern matches Some(p) ==> p@ == source@,
    {
        Self::of_compiled(source, compile(source))
    }

    /// Puts a pattern together with what compiling it gave: a `Pattern` of
    /// that source and that regex where it compiled, `None` where it did
    /// not. Only what `compile` gave for the same source is handed in, so
    /// that the regex of a `Pattern` is always the one of its source.
    fn of_compiled(source: &str, compiled: Option<Regex>) -> (pattern: Option<Pattern>)
        ensures
            pattern is Some <==> compiled is Some,
            pattern matches Some(p) ==> p@ == source@ && compiled == Some(p.compiled()),
    {
        match compiled {
            Some(regex) => Some(Pattern { regex, source: source.to_owned() }),
            None => None,
        }
    }

    /// The regex that was compiled from the pattern.
    pub closed spec fn compiled(&self) -> Regex {
        self.regex
    }

    /// The pattern as it was written.
    pub fn as_str(&self) -> (source: &str)
        ensures
            source@ == self@,
    {
        self.source.as_str()
    }

    /// Where the pattern matches in a text.
    pub fn matches(&self, text: &str) -> (ranges: Vec<(usize, usize)>)
        ensures
            ranges@ == pattern_matches(self@, text@),
            ranges_fit(text@, ranges@),
    {
        find_all(self, text)
    }
}

} // verus!
