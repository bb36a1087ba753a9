//! Character-level string helpers with their specifications.
//!
//! Strings are handled as sequences of `char`; the spec functions here say
//! what std's `trim`, `starts_with`, `lines`, `replace`, `find` and friends
//! mean on such sequences, and the exec functions compute them.
use vstd::prelude::*;

verus! {

pub assume_specification[ String::push ](string: &mut String, ch: char)
    ensures
        final(string)@ == old(string)@.push(ch),
;

// ---------------------------------------------------------------------------
// Specifications
// ---------------------------------------------------------------------------

/// Unicode `White_Space`, the property behind `char::is_whitespace`.
pub open spec fn is_ws(c: char) -> bool {
    ||| ('\t' <= c && c <= '\r')
    ||| c == ' '
    ||| c == '\u{85}'
    ||| c == '\u{a0}'
    ||| c == '\u{1680}'
    ||| ('\u{2000}' <= c && c <= '\u{200a}')
    ||| c == '\u{2028}'
    ||| c == '\u{2029}'
    ||| c == '\u{202f}'
    ||| c == '\u{205f}'
    ||| c == '\u{3000}'
}

/// Number of leading whitespace characters.
pub open spec fn lead_ws(s: Seq<char>) -> nat
    decreases s.len(),
{
    if s.len() > 0 && is_ws(s[0]) {
        1 + lead_ws(s.drop_first())
    } else {
        0
    }
}

/// Number of trailing whitespace characters.
pub open spec fn trail_ws(s: Seq<char>) -> nat
    decreases s.len(),
{
    if s.len() > 0 && is_ws(s.last()) {
        1 + trail_ws(s.drop_last())
    } else {
        0
    }
}

pub open spec fn trim_start(s: Seq<char>) -> Seq<char> {
    s.skip(lead_ws(s) as int)
}

pub open spec fn trim_end(s: Seq<char>) -> Seq<char> {
    s.take(s.len() - trail_ws(s))
}

pub open spec fn trim(s: Seq<char>) -> Seq<char> {
    trim_end(trim_start(s))
}

pub open spec fn starts_with(s: Seq<char>, p: Seq<char>) -> bool {
    p.len() <= s.len() && s.take(p.len() as int) =~= p
}

pub open spec fn ends_with(s: Seq<char>, p: Seq<char>) -> bool {
    p.len() <= s.len() && s.skip(s.len() - p.len()) =~= p
}

/// `p` occurs in `s` at position `i`.
pub open spec fn occurs_at(s: Seq<char>, p: Seq<char>, i: int) -> bool {
    0 <= i && i + p.len() <= s.len() && s.subrange(i, i + p.len()) =~= p
}

/// Leftmost occurrence of `p` in `s` at or after `from`.
pub open spec fn find_from(s: Seq<char>, p: Seq<char>, from: int) -> Option<int>
    decreases s.len() - from,
{
    if from < 0 || from + p.len() > s.len() {
        None
    } else if occurs_at(s, p, from) {
        Some(from)
    } else {
        find_from(s, p, from + 1)
    }
}

/// Leftmost occurrence of `p` in `s` (std's `str::find`).
pub open spec fn find(s: Seq<char>, p: Seq<char>) -> Option<int> {
    find_from(s, p, 0)
}

pub open spec fn contains(s: Seq<char>, p: Seq<char>) -> bool {
    find(s, p) is Some
}

/// Index of the first `c` in `s`, or `s.len()` when there is none.
pub open spec fn index_of(s: Seq<char>, c: char) -> nat
    decreases s.len(),
{
    if s.len() == 0 {
        0
    } else if s[0] == c {
        0
    } else {
        1 + index_of(s.drop_first(), c)
    }
}

/// `s` without one trailing carriage return.
pub open spec fn strip_cr(s: Seq<char>) -> Seq<char> {
    if s.len() > 0 && s.last() == '\r' {
        s.drop_last()
    } else {
        s
    }
}

/// std's `str::lines`: split at `\n`, drop one `\r` before each `\n`, and
/// no empty last line after a final `\n`.
pub open spec fn lines(s: Seq<char>) -> Seq<Seq<char>>
    decreases s.len(),
{
    if s.len() == 0 {
        seq![]
    } else {
        let i = index_of(s, '\n');
        if i >= s.len() {
            seq![s]
        } else {
            seq![strip_cr(s.take(i as int))] + lines(s.skip(i as int + 1))
        }
    }
}

/// Split at every `c`: `k` occurrences give `k + 1` pieces.
pub open spec fn split(s: Seq<char>, c: char) -> Seq<Seq<char>>
    decreases s.len(),
{
    let i = index_of(s, c);
    if i >= s.len() {
        seq![s]
    } else {
        seq![s.take(i as int)] + split(s.skip(i as int + 1), c)
    }
}

/// The character sequences held by a vector of character vectors.
pub open spec fn views(v: Seq<Vec<char>>) -> Seq<Seq<char>> {
    Seq::new(v.len(), |i: int| v[i]@)
}

/// Every line followed by a newline.
pub open spec fn unlines(ls: Seq<Seq<char>>) -> Seq<char>
    decreases ls.len(),
{
    if ls.len() == 0 {
        seq![]
    } else {
        ls[0] + seq!['\n'] + unlines(ls.drop_first())
    }
}

/// The pieces joined with `sep` between them.
pub open spec fn join(ls: Seq<Seq<char>>, sep: Seq<char>) -> Seq<char>
    decreases ls.len(),
{
    if ls.len() == 0 {
        seq![]
    } else if ls.len() == 1 {
        ls[0]
    } else {
        ls[0] + sep + join(ls.drop_first(), sep)
    }
}

/// std's `str::replace` with a non-empty pattern: every non-overlapping
/// occurrence, leftmost first, replaced.
pub open spec fn replace(s: Seq<char>, from: Seq<char>, to: Seq<char>) -> Seq<char>
    decreases s.len(),
{
    if s.len() == 0 {
        seq![]
    } else if from.len() > 0 && starts_with(s, from) {
        to + replace(s.skip(from.len() as int), from, to)
    } else {
        seq![s[0]] + replace(s.drop_first(), from, to)
    }
}

/// std's `str::trim_start_matches` with a non-empty pattern.
pub open spec fn strip_prefixes(s: Seq<char>, p: Seq<char>) -> Seq<char>
    decreases s.len(),
{
    if p.len() > 0 && starts_with(s, p) {
        strip_prefixes(s.skip(p.len() as int), p)
    } else {
        s
    }
}

// ---------------------------------------------------------------------------
// Exec helpers
// ---------------------------------------------------------------------------

/// The characters of `s`, in order.
pub fn chars_of(s: &str) -> (v: Vec<char>)
    ensures
        v@ == s@,
{
    let mut v: Vec<char> = Vec::new();
    for c in it: s.chars()
        invariant
            v@ == it.seq().take(it.index() as int),
            it.seq() == s@,
    {
        v.push(c);
    }
    v
}

/// A string holding the characters of `v`, in order.
pub fn string_of(v: &Vec<char>) -> (s: String)
    ensures
        s@ == v@,
{
    let mut s = String::new();
    let mut i: usize = 0;
    while i < v.len()
        invariant
            i <= v.len(),
            s@ == v@.take(i as int),
        decreases v.len() - i,
    {
        s.push(v[i]);
        i = i + 1;
    }
    assert(v@.take(v.len() as int) =~= v@);
    s
}

/// Appends the characters of `w` to `v`.
pub fn push_all(v: &mut Vec<char>, w: &Vec<char>)
    ensures
        final(v)@ == old(v)@ + w@,
{
    let mut i: usize = 0;
    while i < w.len()
        invariant
            i <= w.len(),
            v@ == old(v)@ + w@.take(i as int),
        decreases w.len() - i,
    {
        v.push(w[i]);
        i = i + 1;
    }
    assert(w@.take(w.len() as int) =~= w@);
}

/// Appends the characters of `w` to `v`.
pub fn push_str(v: &mut Vec<char>, w: &str)
    ensures
        final(v)@ == old(v)@ + w@,
{
    let cs = chars_of(w);
    push_all(v, &cs);
}

/// The characters `v[a..b]`.
pub fn slice_of(v: &Vec<char>, a: usize, b: usize) -> (r: Vec<char>)
    requires
        a <= b <= v.len(),
    ensures
        r@ == v@.subrange(a as int, b as int),
{
    let mut r: Vec<char> = Vec::new();
    let mut i = a;
    while i < b
        invariant
            a <= i <= b <= v.len(),
            r@ == v@.subrange(a as int, i as int),
        decreases b - i,
    {
        r.push(v[i]);
        i = i + 1;
    }
    r
}

pub fn is_ws_char(c: char) -> (b: bool)
    ensures
        b == is_ws(c),
{
    ('\t' <= c && c <= '\r') || c == ' ' || c == '\u{85}' || c == '\u{a0}' || c == '\u{1680}'
        || ('\u{2000}' <= c && c <= '\u{200a}') || c == '\u{2028}' || c == '\u{2029}'
        || c == '\u{202f}' || c == '\u{205f}' || c == '\u{3000}'
}

pub proof fn lemma_lead_ws_step(s: Seq<char>, i: int)
    requires
        0 <= i < s.len(),
        is_ws(s[i]),
    ensures
        lead_ws(s.skip(i)) == 1 + lead_ws(s.skip(i as int + 1)),
{
    assert(s.skip(i).drop_first() =~= s.skip(i as int + 1));
}

pub proof fn lemma_trail_ws_step(s: Seq<char>, i: int)
    requires
        0 < i <= s.len(),
        is_ws(s[i - 1]),
    ensures
        trail_ws(s.take(i)) == 1 + trail_ws(s.take(i - 1)),
{
    assert(s.take(i).drop_last() =~= s.take(i - 1));
}

/// Number of leading whitespace characters of `v`.
pub fn lead_ws_len(v: &Vec<char>) -> (n: usize)
    ensures
        n == lead_ws(v@),
        n <= v.len(),
{
    let mut i: usize = 0;
    assert(v@.skip(0) =~= v@);
    while i < v.len() && is_ws_char(v[i])
        invariant
            i <= v.len(),
            lead_ws(v@) == i + lead_ws(v@.skip(i as int)),
        decreases v.len() - i,
    {
        proof { lemma_lead_ws_step(v@, i as int); }
        i = i + 1;
    }
    i
}

/// Number of trailing whitespace characters of `v`.
pub fn trail_ws_len(v: &Vec<char>) -> (n: usize)
    ensures
        n == trail_ws(v@),
        n <= v.len(),
{
    let mut i: usize = v.len();
    assert(v@.take(v.len() as int) =~= v@);
    while i > 0 && is_ws_char(v[i - 1])
        invariant
            i <= v.len(),
            trail_ws(v@) == (v.len() - i) + trail_ws(v@.take(i as int)),
        decreases i,
    {
        proof { lemma_trail_ws_step(v@, i as int); }
        i = i - 1;
    }
    (v.len() - i) as usize
}

pub fn trimmed_start(v: &Vec<char>) -> (r: Vec<char>)
    ensures
        r@ == trim_start(v@),
{
    let n = lead_ws_len(v);
    slice_of(v, n, v.len())
}

pub fn trimmed_end(v: &Vec<char>) -> (r: Vec<char>)
    ensures
        r@ == trim_end(v@),
{
    let n = trail_ws_len(v);
    slice_of(v, 0, v.len() - n)
}

pub fn trimmed(v: &Vec<char>) -> (r: Vec<char>)
    ensures
        r@ == trim(v@),
{
    let a = trimmed_start(v);
    trimmed_end(&a)
}

/// Whether `v` holds only whitespace.
pub fn is_blank(v: &Vec<char>) -> (b: bool)
    ensures
        b == (trim(v@).len() == 0),
{
    let n = lead_ws_len(v);
    proof { lemma_trim_empty(v@); }
    n == v.len()
}

pub proof fn lemma_lead_ws_bound(s: Seq<char>)
    ensures
        lead_ws(s) <= s.len(),
        lead_ws(s) < s.len() ==> !is_ws(s[lead_ws(s) as int]),
        forall|j: int| 0 <= j < lead_ws(s) ==> is_ws(#[trigger] s[j]),
    decreases s.len(),
{
    if s.len() > 0 && is_ws(s[0]) {
        lemma_lead_ws_bound(s.drop_first());
        assert forall|j: int| 0 <= j < lead_ws(s) implies is_ws(#[trigger] s[j]) by {
            if j > 0 {
                assert(s[j] == s.drop_first()[j - 1]);
            }
        }
    }
}

pub proof fn lemma_trail_ws_bound(s: Seq<char>)
    ensures
        trail_ws(s) <= s.len(),
        trail_ws(s) < s.len() ==> !is_ws(s[s.len() - trail_ws(s) - 1]),
        forall|j: int| s.len() - trail_ws(s) <= j < s.len() ==> is_ws(#[trigger] s[j]),
    decreases s.len(),
{
    if s.len() > 0 && is_ws(s.last()) {
        lemma_trail_ws_bound(s.drop_last());
        assert forall|j: int| s.len() - trail_ws(s) <= j < s.len() implies is_ws(#[trigger] s[j]) by {
            if j < s.len() - 1 {
                assert(s[j] == s.drop_last()[j]);
            }
        }
    }
}

/// A sequence is blank exactly when all of it is leading whitespace.
pub proof fn lemma_trim_empty(s: Seq<char>)
    ensures
        (trim(s).len() == 0) == (lead_ws(s) == s.len()),
{
    lemma_lead_ws_bound(s);
    let t = trim_start(s);
    lemma_trail_ws_bound(t);
    if lead_ws(s) < s.len() {
        assert(t[0] == s[lead_ws(s) as int]);
        if trail_ws(t) == t.len() {
            assert(is_ws(t[0]));
        }
    }
}

/// Whether `p` occurs in `v` at `i`.
pub fn matches_at(v: &Vec<char>, p: &Vec<char>, i: usize) -> (b: bool)
    ensures
        b == occurs_at(v@, p@, i as int),
{
    if i > v.len() || p.len() > v.len() - i {
        return false;
    }
    let mut k: usize = 0;
    while k < p.len()
        invariant
            i + p.len() <= v.len(),
            k <= p.len(),
            forall|j: int| 0 <= j < k ==> v@[i + j] == p@[j],
        decreases p.len() - k,
    {
        if v[i + k] != p[k] {
            assert(v@.subrange(i as int, i + p.len())[k as int] != p@[k as int]);
            return false;
        }
        k = k + 1;
    }
    assert(v@.subrange(i as int, i + p.len()) =~= p@);
    true
}

pub fn starts_with_vec(v: &Vec<char>, p: &Vec<char>) -> (b: bool)
    ensures
        b == starts_with(v@, p@),
{
    let r = matches_at(v, p, 0);
    assert(v@.subrange(0, p@.len() as int) == v@.take(p@.len() as int));
    r
}

pub fn starts_with_str(v: &Vec<char>, p: &str) -> (b: bool)
    ensures
        b == starts_with(v@, p@),
{
    let pv = chars_of(p);
    starts_with_vec(v, &pv)
}

pub fn ends_with_char(v: &Vec<char>, c: char) -> (b: bool)
    ensures
        b == (v@.len() > 0 && v@.last() == c),
{
    v.len() > 0 && v[v.len() - 1] == c
}

/// Leftmost occurrence of `p` in `v`.
pub fn find_vec(v: &Vec<char>, p: &Vec<char>) -> (r: Option<usize>)
    ensures
        r matches Some(i) ==> find(v@, p@) == Some(i as int),
        r is None ==> find(v@, p@) is None,
{
    let mut i: usize = 0;
    while i <= v.len() && p.len() <= v.len() - i
        invariant
            find(v@, p@) == find_from(v@, p@, i as int),
        decreases v.len() + 1 - i,
    {
        if matches_at(v, p, i) {
            return Some(i);
        }
        i = i + 1;
    }
    None
}

pub fn contains_vec(v: &Vec<char>, p: &Vec<char>) -> (b: bool)
    ensures
        b == contains(v@, p@),
{
    find_vec(v, p).is_some()
}

pub fn contains_str(v: &Vec<char>, p: &str) -> (b: bool)
    ensures
        b == contains(v@, p@),
{
    let pv = chars_of(p);
    contains_vec(v, &pv)
}

pub proof fn lemma_index_of_step(s: Seq<char>, c: char, k: int)
    requires
        0 <= k < s.len(),
        s[k] != c,
    ensures
        index_of(s.skip(k), c) == 1 + index_of(s.skip(k + 1), c),
{
    assert(s.skip(k).drop_first() =~= s.skip(k + 1));
}

pub proof fn lemma_index_of_bound(s: Seq<char>, c: char)
    ensures
        index_of(s, c) <= s.len(),
        index_of(s, c) < s.len() ==> s[index_of(s, c) as int] == c,
        forall|j: int| 0 <= j < index_of(s, c) ==> s[j] != c,
    decreases s.len(),
{
    if s.len() > 0 && s[0] != c {
        lemma_index_of_bound(s.drop_first(), c);
        assert forall|j: int| 0 <= j < index_of(s, c) implies s[j] != c by {
            if j > 0 {
                assert(s[j] == s.drop_first()[j - 1]);
            }
        }
    }
}

/// `start` plus the index of the first `c` in `v[start..]`.
pub fn index_of_from(v: &Vec<char>, c: char, start: usize) -> (r: usize)
    requires
        start <= v.len(),
    ensures
        r == start + index_of(v@.skip(start as int), c),
        start <= r <= v.len(),
{
    let mut k = start;
    while k < v.len() && v[k] != c
        invariant
            start <= k <= v.len(),
            index_of(v@.skip(start as int), c) == (k - start) + index_of(v@.skip(k as int), c),
        decreases v.len() - k,
    {
        proof { lemma_index_of_step(v@, c, k as int); }
        k = k + 1;
    }
    proof {
        if k < v.len() {
            assert(v@.skip(k as int)[0] == c);
        } else {
            assert(v@.skip(k as int).len() == 0);
        }
    }
    k
}

/// The lines of `v`, as std's `str::lines` gives them.
pub fn lines_of(v: &Vec<char>) -> (r: Vec<Vec<char>>)
    ensures
        views(r@) == lines(v@),
{
    let mut r: Vec<Vec<char>> = Vec::new();
    let mut start: usize = 0;
    assert(v@.skip(0) =~= v@);
    while start < v.len()
        invariant
            start <= v.len(),
            lines(v@) == views(r@) + lines(v@.skip(start as int)),
        decreases v.len() - start,
    {
        let ghost rest = v@.skip(start as int);
        let j = index_of_from(v, '\n', start);
        if j >= v.len() {
            let piece = slice_of(v, start, v.len());
            assert(piece@ =~= rest);
            assert(lines(rest) == seq![rest]);
            let ghost old_r = views(r@);
            r.push(piece);
            assert(views(r@) =~= old_r.push(piece@));
            start = v.len();
            assert(v@.skip(start as int).len() == 0);
            assert(lines(v@) =~= views(r@) + lines(v@.skip(start as int)));
        } else {
            let mut piece = slice_of(v, start, j);
            assert(piece@ =~= rest.take(j - start));
            if piece.len() > 0 && piece[piece.len() - 1] == '\r' {
                piece.pop();
                assert(piece@ =~= strip_cr(rest.take(j - start)));
            }
            assert(rest.skip(j - start + 1) =~= v@.skip(j + 1));
            let ghost old_r = views(r@);
            r.push(piece);
            assert(views(r@) =~= old_r.push(piece@));
            start = j + 1;
            assert(lines(v@) =~= views(r@) + lines(v@.skip(start as int)));
        }
    }
    assert(v@.skip(start as int).len() == 0);
    assert(views(r@) + lines(v@.skip(start as int)) =~= views(r@));
    r
}

/// The pieces of `v` between the occurrences of `c`.
pub fn split_of(v: &Vec<char>, c: char) -> (r: Vec<Vec<char>>)
    ensures
        views(r@) == split(v@, c),
{
    let mut r: Vec<Vec<char>> = Vec::new();
    let mut start: usize = 0;
    assert(v@.skip(0) =~= v@);
    loop
        invariant
            start <= v.len(),
            split(v@, c) == views(r@) + split(v@.skip(start as int), c),
        decreases v.len() - start,
    {
        let ghost rest = v@.skip(start as int);
        let j = index_of_from(v, c, start);
        let piece = slice_of(v, start, j);
        let ghost old_r = views(r@);
        if j >= v.len() {
            assert(piece@ =~= rest);
            r.push(piece);
            assert(views(r@) =~= old_r.push(piece@));
            assert(split(v@, c) =~= views(r@));
            return r;
        }
        assert(piece@ =~= rest.take(j - start));
        assert(rest.skip(j - start + 1) =~= v@.skip(j + 1));
        r.push(piece);
        assert(views(r@) =~= old_r.push(piece@));
        start = j + 1;
        assert(split(v@, c) =~= views(r@) + split(v@.skip(start as int), c));
    }
}

/// `v` with every non-overlapping occurrence of `from` replaced by `to`.
pub fn replace_vec(v: &Vec<char>, from: &Vec<char>, to: &Vec<char>) -> (r: Vec<char>)
    requires
        from.len() > 0,
    ensures
        r@ == replace(v@, from@, to@),
{
    let mut r: Vec<char> = Vec::new();
    let mut i: usize = 0;
    assert(v@.skip(0) =~= v@);
    while i < v.len()
        invariant
            i <= v.len(),
            from.len() > 0,
            replace(v@, from@, to@) == r@ + replace(v@.skip(i as int), from@, to@),
        decreases v.len() - i,
    {
        let ghost rest = v@.skip(i as int);
        if matches_at(v, from, i) {
            assert(rest.take(from.len() as int) =~= v@.subrange(i as int, i + from.len()));
            assert(rest.skip(from.len() as int) =~= v@.skip(i + from.len()));
            push_all(&mut r, to);
            i = i + from.len();
            assert(replace(v@, from@, to@) =~= r@ + replace(v@.skip(i as int), from@, to@));
        } else {
            assert(!starts_with(rest, from@)) by {
                if starts_with(rest, from@) {
                    assert(rest.take(from.len() as int) =~= v@.subrange(i as int, i + from.len()));
                }
            }
            assert(rest.drop_first() =~= v@.skip(i + 1));
            r.push(v[i]);
            i = i + 1;
            assert(replace(v@, from@, to@) =~= r@ + replace(v@.skip(i as int), from@, to@));
        }
    }
    assert(v@.skip(i as int).len() == 0);
    assert(r@ + replace(v@.skip(i as int), from@, to@) =~= r@);
    r
}

pub fn replace_str(v: &Vec<char>, from: &str, to: &str) -> (r: Vec<char>)
    requires
        from@.len() > 0,
    ensures
        r@ == replace(v@, from@, to@),
{
    let f = chars_of(from);
    let t = chars_of(to);
    replace_vec(v, &f, &t)
}

pub proof fn lemma_join_snoc(ls: Seq<Seq<char>>, sep: Seq<char>, i: int)
    requires
        1 <= i < ls.len(),
    ensures
        join(ls.take(i + 1), sep) == join(ls.take(i), sep) + sep + ls[i],
    decreases i,
{
    if i == 1 {
        assert(ls.take(2).drop_first() =~= seq![ls[1]]);
        assert(join(ls.take(2), sep) == ls[0] + sep + join(seq![ls[1]], sep));
    } else {
        let t = ls.drop_first();
        lemma_join_snoc(t, sep, i - 1);
        assert(ls.take(i + 1).drop_first() =~= t.take(i));
        assert(ls.take(i).drop_first() =~= t.take(i - 1));
        assert(t[i - 1] == ls[i]);
    }
}

/// The pieces of `ls` joined with `sep` between them.
pub fn join_vecs(ls: &Vec<Vec<char>>, sep: &Vec<char>) -> (r: Vec<char>)
    ensures
        r@ == join(views(ls@), sep@),
{
    let ghost d = views(ls@);
    if ls.len() == 0 {
        return Vec::new();
    }
    let mut r = slice_of(&ls[0], 0, ls[0].len());
    assert(d.take(1).drop_first() =~= Seq::<Seq<char>>::empty());
    assert(r@ =~= join(d.take(1), sep@));
    let mut i: usize = 1;
    while i < ls.len()
        invariant
            1 <= i <= ls.len(),
            d == views(ls@),
            r@ == join(d.take(i as int), sep@),
        decreases ls.len() - i,
    {
        proof { lemma_join_snoc(d, sep@, i as int); }
        push_all(&mut r, sep);
        push_all(&mut r, &ls[i]);
        i = i + 1;
    }
    assert(d.take(ls.len() as int) =~= d);
    r
}

/// `v` with every leading copy of `p` removed.
pub fn strip_prefixes_vec(v: &Vec<char>, p: &Vec<char>) -> (r: Vec<char>)
    requires
        p.len() > 0,
    ensures
        r@ == strip_prefixes(v@, p@),
{
    let mut i: usize = 0;
    assert(v@.skip(0) =~= v@);
    while i < v.len() && matches_at(v, p, i)
        invariant
            i <= v.len(),
            p.len() > 0,
            strip_prefixes(v@, p@) == strip_prefixes(v@.skip(i as int), p@),
        decreases v.len() - i,
    {
        let ghost rest = v@.skip(i as int);
        assert(rest.take(p.len() as int) =~= v@.subrange(i as int, i + p.len()));
        assert(rest.skip(p.len() as int) =~= v@.skip(i + p.len()));
        i = i + p.len();
    }
    proof {
        let rest = v@.skip(i as int);
        if i < v.len() {
            if starts_with(rest, p@) {
                assert(rest.take(p.len() as int) =~= v@.subrange(i as int, i + p.len()));
            }
        } else {
            if starts_with(rest, p@) {
                assert(false);
            }
        }
    }
    slice_of(v, i, v.len())
}

/// Whether `v` and `w` hold the same characters.
pub fn equals_vec(v: &Vec<char>, w: &Vec<char>) -> (b: bool)
    ensures
        b == (v@ == w@),
{
    if v.len() != w.len() {
        return false;
    }
    let mut i: usize = 0;
    while i < v.len()
        invariant
            v.len() == w.len(),
            i <= v.len(),
            forall|j: int| 0 <= j < i ==> v@[j] == w@[j],
        decreases v.len() - i,
    {
        if v[i] != w[i] {
            return false;
        }
        i = i + 1;
    }
    assert(v@ =~= w@);
    true
}

/// Whether `v` holds exactly the characters of `s`.
pub fn equals_str(v: &Vec<char>, s: &str) -> (b: bool)
    ensures
        b == (v@ == s@),
{
    let w = chars_of(s);
    equals_vec(v, &w)
}

pub proof fn lemma_unlines_snoc(ls: Seq<Seq<char>>, a: int, b: int)
    requires
        0 <= a <= b < ls.len(),
    ensures
        unlines(ls.subrange(a, b + 1)) == unlines(ls.subrange(a, b)) + ls[b] + seq!['\n'],
    decreases b - a,
{
    if a == b {
        assert(ls.subrange(a, b + 1).drop_first() =~= Seq::<Seq<char>>::empty());
        assert(ls.subrange(a, b) =~= Seq::<Seq<char>>::empty());
        assert(unlines(ls.subrange(a, b + 1)) =~= ls[b] + seq!['\n']);
    } else {
        lemma_unlines_snoc(ls, a + 1, b);
        assert(ls.subrange(a, b + 1).drop_first() =~= ls.subrange(a + 1, b + 1));
        assert(ls.subrange(a, b).drop_first() =~= ls.subrange(a + 1, b));
        assert(unlines(ls.subrange(a, b + 1)) =~= ls[a] + seq!['\n'] + unlines(ls.subrange(a + 1, b + 1)));
        assert(unlines(ls.subrange(a, b)) =~= ls[a] + seq!['\n'] + unlines(ls.subrange(a + 1, b)));
    }
}

pub proof fn lemma_unlines_push(ls: Seq<Seq<char>>, x: Seq<char>)
    ensures
        unlines(ls.push(x)) == unlines(ls) + x + seq!['\n'],
    decreases ls.len(),
{
    if ls.len() == 0 {
        assert(ls.push(x).drop_first() =~= Seq::<Seq<char>>::empty());
        assert(ls.push(x)[0] == x);
        assert(unlines(ls.push(x).drop_first()) =~= Seq::<char>::empty());
        assert(unlines(ls) =~= Seq::<char>::empty());
        assert(unlines(ls.push(x)) =~= x + seq!['\n']);
    } else {
        lemma_unlines_push(ls.drop_first(), x);
        assert(ls.push(x).drop_first() =~= ls.drop_first().push(x));
        assert(unlines(ls.push(x)) =~= ls[0] + seq!['\n'] + unlines(ls.drop_first().push(x)));
    }
}

pub proof fn lemma_find_from_bound(s: Seq<char>, p: Seq<char>, from: int)
    ensures
        find_from(s, p, from) matches Some(i) ==> from <= i && occurs_at(s, p, i),
    decreases s.len() - from,
{
    if from < 0 || from + p.len() > s.len() {
    } else if occurs_at(s, p, from) {
    } else {
        lemma_find_from_bound(s, p, from + 1);
    }
}

pub proof fn lemma_find_bound(s: Seq<char>, p: Seq<char>)
    ensures
        find(s, p) matches Some(i) ==> 0 <= i && i + p.len() <= s.len() && occurs_at(s, p, i),
{
    lemma_find_from_bound(s, p, 0);
}

pub open spec fn digit_char(d: nat) -> char {
    if d == 0 {
        '0'
    } else if d == 1 {
        '1'
    } else if d == 2 {
        '2'
    } else if d == 3 {
        '3'
    } else if d == 4 {
        '4'
    } else if d == 5 {
        '5'
    } else if d == 6 {
        '6'
    } else if d == 7 {
        '7'
    } else if d == 8 {
        '8'
    } else {
        '9'
    }
}

/// The decimal digits of `n`, as `format!("{}", n)` writes them.
pub open spec fn decimal(n: nat) -> Seq<char>
    decreases n,
{
    if n < 10 {
        seq![digit_char(n)]
    } else {
        decimal(n / 10) + seq![digit_char(n % 10)]
    }
}

fn digit_of(d: usize) -> (c: char)
    requires
        d < 10,
    ensures
        c == digit_char(d as nat),
{
    if d == 0 {
        '0'
    } else if d == 1 {
        '1'
    } else if d == 2 {
        '2'
    } else if d == 3 {
        '3'
    } else if d == 4 {
        '4'
    } else if d == 5 {
        '5'
    } else if d == 6 {
        '6'
    } else if d == 7 {
        '7'
    } else if d == 8 {
        '8'
    } else {
        '9'
    }
}

/// The decimal digits of `n`.
pub fn decimal_of(n: usize) -> (r: Vec<char>)
    ensures
        r@ == decimal(n as nat),
    decreases n,
{
    if n < 10 {
        let mut r = Vec::new();
        r.push(digit_of(n));
        assert(r@ =~= seq![digit_char(n as nat)]);
        r
    } else {
        let mut r = decimal_of(n / 10);
        r.push(digit_of(n % 10));
        r
    }
}

/// The decimal digits of `n`.
pub fn decimal_u64(n: u64) -> (r: Vec<char>)
    ensures
        r@ == decimal(n as nat),
    decreases n,
{
    if n < 10 {
        let mut r = Vec::new();
        r.push(digit_of(n as usize));
        assert(r@ =~= seq![digit_char(n as nat)]);
        r
    } else {
        let mut r = decimal_u64(n / 10);
        r.push(digit_of((n % 10) as usize));
        r
    }
}

/// Last index of `c` in `s`.
pub open spec fn rfind_char(s: Seq<char>, c: char) -> Option<int>
    decreases s.len(),
{
    if s.len() == 0 {
        None
    } else if s.last() == c {
        Some(s.len() - 1)
    } else {
        rfind_char(s.drop_last(), c)
    }
}

/// Index of the last `c` in `s`.
pub fn rfind_char_vec(s: &Vec<char>, c: char) -> (r: Option<usize>)
    ensures
        r matches Some(i) ==> rfind_char(s@, c) == Some(i as int) && i < s.len(),
        r is None ==> rfind_char(s@, c) is None,
{
    let mut n: usize = s.len();
    assert(s@.take(n as int) =~= s@);
    while n > 0
        invariant
            n <= s.len(),
            rfind_char(s@, c) == rfind_char(s@.take(n as int), c),
        decreases n,
    {
        if s[n - 1] == c {
            return Some(n - 1);
        }
        assert(s@.take(n as int).drop_last() =~= s@.take(n - 1));
        n = n - 1;
    }
    None
}

/// `s` without its last character (unchanged when empty), as
/// `String::pop` leaves it.
pub fn without_last(s: &String) -> (r: String)
    ensures
        r@ == (if s@.len() > 0 {
            s@.drop_last()
        } else {
            s@
        }),
{
    let v = chars_of(s.as_str());
    if v.len() == 0 {
        return string_of(&v);
    }
    let w = slice_of(&v, 0, v.len() - 1);
    assert(w@ =~= v@.drop_last());
    string_of(&w)
}

} // verus!
