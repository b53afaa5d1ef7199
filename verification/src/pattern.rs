//! Regular-expression searches, made by the `regex` crate.
use vstd::prelude::*;
use crate::text::opt_view;

verus! {

#[verifier::external_type_specification]
#[verifier::external_body]
pub struct ExRegex(regex::Regex);

/// Whether `regex::Regex::new` accepts `pattern` (it is valid syntax and within
/// the default size limit).
pub uninterp spec fn regex_accepts(pattern: Seq<char>) -> bool;

/// What `Regex::captures` finds in `haystack` for the regex compiled from
/// `pattern`: `None` when there is no match, else the text of capture group 1 of
/// the leftmost-first match (`None` inside when that group did not take part).
pub uninterp spec fn regex_first_group1(pattern: Seq<char>, haystack: Seq<char>) -> Option<
    Option<Seq<char>>,
>;

/// What `Regex::captures_iter` yields for `haystack` and the regex compiled from
/// `pattern`: for each successive non-overlapping match, in order, the text of
/// capture group 1 (`None` when that group did not take part).
pub uninterp spec fn regex_group1_per_match(pattern: Seq<char>, haystack: Seq<char>) -> Seq<
    Option<Seq<char>>,
>;

/// A compiled regular expression together with the pattern text it was
/// compiled from. Only `compile` builds one.
pub(crate) struct Pattern {
    source: String,
    compiled: regex::Regex,
}

impl Pattern {
    /// The pattern text this regex was compiled from.
    pub(crate) closed spec fn source(&self) -> Seq<char> {
        self.source@
    }
}

/// The view of an optional optional string.
pub open spec fn opt_opt_view(o: Option<Option<String>>) -> Option<Option<Seq<char>>> {
    match o {
        Some(inner) => Some(opt_view(inner)),
        None => None,
    }
}

/// `t` occurs in `s` as a contiguous piece.
pub open spec fn is_substring(t: Seq<char>, s: Seq<char>) -> bool {
    exists|i: int| 0 <= i && i + t.len() <= s.len() && #[trigger] s.subrange(i, i + t.len()) == t
}

/// `regex::Regex::new`: compiles `source`; `None` when the crate refuses it.
#[verifier::external_body]
pub(crate) fn compile(source: &str) -> (r: Option<Pattern>)
    ensures
        r is Some <==> regex_accepts(source@),
        r matches Some(p) ==> p.source() == source@,
{
    match regex::Regex::new(source) {
        Ok(compiled) => Some(Pattern { source: source.to_string(), compiled }),
        Err(_) => None,
    }
}

/// `Regex::captures`, then group 1 of the match, as text. The text of a group
/// is a piece of the haystack (`Match::as_str` returns "the substring of the
/// haystack that matched").
#[verifier::external_body]
pub(crate) fn first_group1(p: &Pattern, haystack: &str) -> (r: Option<Option<String>>)
    ensures
        opt_opt_view(r) == regex_first_group1(p.source(), haystack@),
        r matches Some(Some(t)) ==> is_substring(t@, haystack@),
{
    match p.compiled.captures(haystack) {
        Some(c) => Some(
            match c.get(1) {
                Some(m) => Some(m.as_str().to_string()),
                None => None,
            },
        ),
        None => None,
    }
}

/// `Regex::captures_iter`: group 1 of each successive match, as text. The text
/// of each group is a piece of the haystack (see `Match::as_str`).
#[verifier::external_body]
pub(crate) fn group1_per_match(p: &Pattern, haystack: &str) -> (r: Vec<Option<String>>)
    ensures
        r@.len() == regex_group1_per_match(p.source(), haystack@).len(),
        forall|i: int|
            0 <= i < r@.len() ==> (#[trigger] r@[i] matches Some(t) ==> is_substring(
                t@,
                haystack@,
            )),
        forall|i: int|
            0 <= i < r@.len() ==> opt_view(#[trigger] r@[i]) == regex_group1_per_match(
                p.source(),
                haystack@,
            )[i],
{
    let mut out = Vec::new();
    for c in p.compiled.captures_iter(haystack) {
        out.push(
            match c.get(1) {
                Some(m) => Some(m.as_str().to_string()),
                None => None,
            },
        );
    }
    out
}

} // verus!
