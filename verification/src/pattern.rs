//! Regular expressions, compiled and applied by the `regex` crate.
use vstd::prelude::*;

verus! {

#[verifier::external_type_specification]
#[verifier::external_body]
pub struct ExRegex(regex::Regex);

/// Whether `Regex::new` accepts the pattern.
pub uninterp spec fn regex_compiles(pattern: Seq<char>) -> bool;

/// Whether the pattern matches somewhere in the text (`Regex::is_match`).
pub uninterp spec fn regex_is_match(pattern: Seq<char>, text: Seq<char>) -> bool;

/// The text with its leftmost match replaced (`Regex::replace`).
pub uninterp spec fn regex_replace(pattern: Seq<char>, text: Seq<char>, rep: Seq<char>) -> Seq<char>;

/// The text with every non-overlapping match replaced (`Regex::replace_all`).
pub uninterp spec fn regex_replace_all(pattern: Seq<char>, text: Seq<char>, rep: Seq<char>) -> Seq<
    char,
>;

/// For each match, left to right, the text of capture group 1 when it took
/// part in the match (`Regex::captures_iter` and `Captures::get(1)`).
pub uninterp spec fn regex_group1(pattern: Seq<char>, text: Seq<char>) -> Seq<Option<Seq<char>>>;

/// A compiled regular expression together with the pattern it was compiled
/// from; only `compile` makes one.
pub struct Pattern {
    source: String,
    re: regex::Regex,
}

impl Pattern {
    /// The pattern this regular expression was compiled from.
    pub closed spec fn source(&self) -> Seq<char> {
        self.source@
    }
}

pub open spec fn opt_views(v: Seq<Option<String>>) -> Seq<Option<Seq<char>>> {
    Seq::new(
        v.len(),
        |i: int|
            match v[i] {
                Some(s) => Some(s@),
                None => None,
            },
    )
}

/// Calls `Regex::new`: `Some` exactly when the crate accepts the pattern
/// (which of them it accepts is only named), holding the pattern text.
#[verifier::external_body]
pub fn compile(pattern: &str) -> (r: Option<Pattern>)
    ensures
        r is Some <==> regex_compiles(pattern@),
        r matches Some(p) ==> p.source() == pattern@,
{
    match regex::Regex::new(pattern) {
        Ok(re) => Some(Pattern { source: pattern.to_string(), re }),
        Err(_) => None,
    }
}

/// Calls `Regex::is_match`: whether the pattern matches somewhere in `text`.
#[verifier::external_body]
pub fn is_match(p: &Pattern, text: &str) -> (b: bool)
    ensures
        b == regex_is_match(p.source(), text@),
{
    p.re.is_match(text)
}

/// Calls `Regex::replace` with a replacement string: the leftmost match
/// replaced; with no match the text comes back unchanged.
#[verifier::external_body]
pub fn replace_first(p: &Pattern, text: &str, rep: &str) -> (r: String)
    ensures
        r@ == regex_replace(p.source(), text@, rep@),
        !regex_is_match(p.source(), text@) ==> r@ == text@,
{
    p.re.replace(text, rep).into_owned()
}

/// Calls `Regex::replace_all` with a replacement string: every
/// non-overlapping match replaced; with no match the text comes back
/// unchanged.
#[verifier::external_body]
pub fn replace_all(p: &Pattern, text: &str, rep: &str) -> (r: String)
    ensures
        r@ == regex_replace_all(p.source(), text@, rep@),
        !regex_is_match(p.source(), text@) ==> r@ == text@,
{
    p.re.replace_all(text, rep).into_owned()
}

/// Calls `Regex::captures_iter` and takes capture group 1 of each match:
/// one entry per match, left to right; with no match there is none.
#[verifier::external_body]
pub fn group1_all(p: &Pattern, text: &str) -> (r: Vec<Option<String>>)
    ensures
        opt_views(r@) == regex_group1(p.source(), text@),
        !regex_is_match(p.source(), text@) ==> r@.len() == 0,
{
    p.re.captures_iter(text).map(|c| c.get(1).map(|m| m.as_str().to_string())).collect()
}

} // verus!
