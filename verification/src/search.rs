//! Smart-case search over the sidebar labels and the cells.
use vstd::prelude::*;
use crate::runner::ascii_lower;
use crate::text::{chars_of, contains, contains_vec};

verus! {

/// The Unicode `Uppercase` property of a character (`char::is_uppercase`).
pub uninterp spec fn char_uppercase(c: char) -> bool;

/// The lowercase form of a text (`str::to_lowercase`).
pub uninterp spec fn text_lowercase(s: Seq<char>) -> Seq<char>;

/// Calls `char::is_uppercase`: whether `c` has the Unicode `Uppercase`
/// property. Among ASCII characters that is exactly `A` to `Z`; beyond ASCII
/// the result is only named.
#[verifier::external_body]
fn is_uppercase(c: char) -> (b: bool)
    ensures
        b == char_uppercase(c),
        (c as u32) < 128 ==> (b == ('A' <= c && c <= 'Z')),
{
    c.is_uppercase()
}

/// Whether every character of `s` is ASCII.
pub open spec fn all_ascii(s: Seq<char>) -> bool {
    forall|i: int| 0 <= i < s.len() ==> (#[trigger] s[i] as u32) < 128
}

/// `s` with `A` to `Z` lowered and every other character kept.
pub open spec fn ascii_lowered(s: Seq<char>) -> Seq<char> {
    Seq::new(s.len(), |i: int| ascii_lower(s[i]))
}

/// Calls `str::to_lowercase`: the Unicode lowercase form of `s`. On ASCII
/// text that lowers `A` to `Z` and keeps every other character (no other
/// ASCII character has a lowercase mapping); beyond ASCII the result is
/// only named.
#[verifier::external_body]
fn to_lowercase(s: &str) -> (r: String)
    ensures
        r@ == text_lowercase(s@),
        all_ascii(s@) ==> r@ == ascii_lowered(s@),
{
    s.to_lowercase()
}

/// Whether some character of `s` is uppercase.
pub open spec fn any_uppercase(s: Seq<char>) -> bool {
    exists|i: int| 0 <= i < s.len() && char_uppercase(#[trigger] s[i])
}

/// Whether `text` matches `query` under smart case: a query with an
/// uppercase character matches case-sensitively, any other query ignores case.
pub open spec fn smart_match(smart: bool, query: Seq<char>, text: Seq<char>) -> bool {
    if smart && any_uppercase(query) {
        contains(text, query)
    } else {
        contains(text_lowercase(text), text_lowercase(query))
    }
}

#[derive(Clone, Debug)]
pub struct SearchState {
    pub query: String,
    pub matches: Vec<usize>,
    pub current_match: Option<usize>,
    pub is_smart_case: bool,
}

impl SearchState {
    /// An empty search with smart case on.
    pub fn new() -> (s: SearchState)
        ensures
            s.query@.len() == 0,
            s.matches@.len() == 0,
            s.current_match is None,
            s.is_smart_case,
    {
        SearchState {
            query: String::new(),
            matches: Vec::new(),
            current_match: None,
            is_smart_case: true,
        }
    }

    /// Forgets the query and its matches; smart case stays as it was.
    pub fn clear(&mut self)
        ensures
            final(self).query@.len() == 0,
            final(self).matches@.len() == 0,
            final(self).current_match is None,
            final(self).is_smart_case == old(self).is_smart_case,
    {
        self.query = String::new();
        self.matches = Vec::new();
        self.current_match = None;
    }

    /// Whether the query has an uppercase character: on an ASCII query,
    /// a letter `A` to `Z`.
    pub fn has_uppercase(&self) -> (b: bool)
        ensures
            b == any_uppercase(self.query@),
            all_ascii(self.query@) ==> (b == exists|i: int|
                0 <= i < self.query@.len() && 'A' <= #[trigger] self.query@[i] && self.query@[i] <= 'Z'),
    {
        let q = chars_of(self.query.as_str());
        let mut i: usize = 0;
        while i < q.len()
            invariant
                q@ == self.query@,
                i <= q.len(),
                forall|j: int| 0 <= j < i ==> !char_uppercase(#[trigger] q@[j]),
                all_ascii(q@) ==> forall|j: int| 0 <= j < i ==> !('A' <= #[trigger] q@[j] && q@[j] <= 'Z'),
            decreases q.len() - i,
        {
            if is_uppercase(q[i]) {
                proof {
                    if all_ascii(q@) {
                        assert((q@[i as int] as u32) < 128);
                    }
                }
                return true;
            }
            proof {
                if all_ascii(q@) {
                    assert((q@[i as int] as u32) < 128);
                }
            }
            i = i + 1;
        }
        false
    }

    /// Whether `text` matches the query under smart case. On ASCII text
    /// and query without an uppercase letter (or with smart case off), the
    /// match ignores the case of `A` to `Z`.
    pub fn matches_pattern(&self, text: &str) -> (b: bool)
        ensures
            b == smart_match(self.is_smart_case, self.query@, text@),
            all_ascii(text@) && all_ascii(self.query@) && !(self.is_smart_case && any_uppercase(
                self.query@,
            )) ==> b == contains(ascii_lowered(text@), ascii_lowered(self.query@)),
    {
        if self.is_smart_case && self.has_uppercase() {
            let t = chars_of(text);
            let q = chars_of(self.query.as_str());
            contains_vec(&t, &q)
        } else {
            let t = to_lowercase(text);
            let q = to_lowercase(self.query.as_str());
            let tv = chars_of(t.as_str());
            let qv = chars_of(q.as_str());
            contains_vec(&tv, &qv)
        }
    }
}

} // verus!
