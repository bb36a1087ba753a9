//! Byte positions of character boundaries, for the shell cell's cursor.
use vstd::prelude::*;
use crate::text::chars_of;

verus! {

/// Bytes in the UTF-8 encoding of `c`.
pub open spec fn utf8_width(c: char) -> nat {
    if (c as u32) <= 0x7f {
        1
    } else if (c as u32) <= 0x7ff {
        2
    } else if (c as u32) <= 0xffff {
        3
    } else {
        4
    }
}

/// Byte offset at which character `k` of `s` starts (or the byte length
/// when `k == s.len()`).
pub open spec fn byte_offset(s: Seq<char>, k: int) -> nat
    decreases k,
{
    if k <= 0 || k > s.len() {
        0
    } else {
        byte_offset(s, k - 1) + utf8_width(s[k - 1])
    }
}

/// `b` is the byte offset of a character boundary of `s`.
pub open spec fn on_boundary(s: Seq<char>, b: int) -> bool {
    exists|k: int| 0 <= k <= s.len() && byte_offset(s, k) == b
}

pub proof fn lemma_offset_monotonic(s: Seq<char>, a: int, b: int)
    requires
        0 <= a < b <= s.len(),
    ensures
        byte_offset(s, a) < byte_offset(s, b),
    decreases b - a,
{
    if a + 1 < b {
        lemma_offset_monotonic(s, a, b - 1);
    }
}

proof fn lemma_offset_cons(c: char, t: Seq<char>, k: int)
    requires
        0 <= k <= t.len(),
    ensures
        byte_offset(seq![c] + t, k + 1) == utf8_width(c) + byte_offset(t, k),
    decreases k,
{
    let s = seq![c] + t;
    if k == 0 {
        assert(s[0] == c);
        assert(byte_offset(s, 0) == 0);
        assert(byte_offset(t, 0) == 0);
    } else {
        lemma_offset_cons(c, t, k - 1);
        assert(s[k] == t[k - 1]);
    }
}

/// The byte length of a text is the offset after its last character.
pub proof fn lemma_byte_len(s: Seq<char>)
    ensures
        vstd::utf8::encode_utf8(s).len() == byte_offset(s, s.len() as int),
    decreases s.len(),
{
    if s.len() > 0 {
        let t = s.drop_first();
        lemma_byte_len(t);
        assert(s =~= seq![s[0]] + t);
        lemma_offset_cons(s[0], t, t.len() as int);
        vstd::utf8::char_is_scalar(s[0]);
    }
}

pub fn utf8_width_of(c: char) -> (w: usize)
    ensures
        w == utf8_width(c),
{
    let v = c as u32;
    if v <= 0x7f {
        1
    } else if v <= 0x7ff {
        2
    } else if v <= 0xffff {
        3
    } else {
        4
    }
}

/// Walks the characters of `cs` up to the boundary `target`; returns the
/// character index there and the offset of the character before it.
fn locate(cs: &Vec<char>, target: usize) -> (r: (usize, usize))
    requires
        on_boundary(cs@, target as int),
    ensures
        r.0 <= cs.len(),
        byte_offset(cs@, r.0 as int) == target,
        r.1 == (if r.0 == 0 { 0 } else { byte_offset(cs@, r.0 - 1) }),
{
    let ghost s = cs@;
    let ghost kb = choose|k: int| 0 <= k <= s.len() && byte_offset(s, k) == target;
    let mut k: usize = 0;
    let mut off: usize = 0;
    let mut last: usize = 0;
    while k < cs.len() && off < target
        invariant
            s == cs@,
            0 <= kb <= s.len(),
            byte_offset(s, kb) == target,
            k <= cs.len(),
            off == byte_offset(s, k as int),
            off <= target,
            k <= kb,
            last == (if k == 0 { 0 } else { byte_offset(s, k - 1) }),
        decreases cs.len() - k,
    {
        proof {
            if k == kb {
                assert(off == target);
            }
            if k + 1 < kb {
                lemma_offset_monotonic(s, k + 1, kb);
            }
        }
        last = off;
        off = off + utf8_width_of(cs[k]);
        k = k + 1;
    }
    proof {
        if off < target {
            assert(k == cs.len());
            if k < kb {
                lemma_offset_monotonic(s, k as int, kb);
            }
        }
    }
    (k, last)
}

/// Distinct character indices have distinct offsets.
pub proof fn lemma_offset_injective(s: Seq<char>, a: int, b: int)
    requires
        0 <= a <= s.len(),
        0 <= b <= s.len(),
        byte_offset(s, a) == byte_offset(s, b),
    ensures
        a == b,
{
    if a < b {
        lemma_offset_monotonic(s, a, b);
    } else if b < a {
        lemma_offset_monotonic(s, b, a);
    }
}

/// The boundary clamped to the text: `idx`, or the text's byte length when
/// `idx` is past it.
pub open spec fn clamp(s: Seq<char>, idx: int) -> int {
    if idx < byte_offset(s, s.len() as int) {
        idx
    } else {
        byte_offset(s, s.len() as int) as int
    }
}

/// `r` is the character boundary before `idx` (0 at the start).
pub open spec fn prev_post(s: Seq<char>, idx: int, r: int) -> bool {
    &&& idx == 0 ==> r == 0
    &&& idx != 0 ==> forall|k: int|
        0 <= k <= s.len() && #[trigger] byte_offset(s, k) == clamp(s, idx) ==> r == (if k == 0 {
            0
        } else {
            byte_offset(s, k - 1) as int
        })
}

/// `r` is the character boundary after `idx` (the byte length at or past
/// the end).
pub open spec fn next_post(s: Seq<char>, idx: int, r: int) -> bool {
    &&& idx >= byte_offset(s, s.len() as int) ==> r == byte_offset(s, s.len() as int)
    &&& idx < byte_offset(s, s.len() as int) ==> forall|k: int|
        0 <= k <= s.len() && #[trigger] byte_offset(s, k) == idx ==> r == byte_offset(s, k + 1)
}

/// Stepping back a character from a boundary and then forward again comes
/// back to that boundary.
pub proof fn law_back_then_forward(s: Seq<char>, k: int, p: int, q: int)
    requires
        0 < k <= s.len(),
        prev_post(s, byte_offset(s, k) as int, p),
        next_post(s, p, q),
    ensures
        q == byte_offset(s, k),
{
    lemma_offset_monotonic(s, 0, k);
    if k < s.len() {
        lemma_offset_monotonic(s, k, s.len() as int);
    }
    assert(clamp(s, byte_offset(s, k) as int) == byte_offset(s, k));
    assert(p == byte_offset(s, k - 1));
    lemma_offset_monotonic(s, k - 1, s.len() as int);
    assert(byte_offset(s, k - 1) == p);
}

/// Stepping forward a character from a boundary before the end and then
/// back again comes back to that boundary, and the step forward moves.
pub proof fn law_forward_then_back(s: Seq<char>, k: int, p: int, q: int)
    requires
        0 <= k < s.len(),
        next_post(s, byte_offset(s, k) as int, q),
        prev_post(s, q, p),
    ensures
        q > byte_offset(s, k),
        p == byte_offset(s, k),
{
    lemma_offset_monotonic(s, k, s.len() as int);
    assert(byte_offset(s, k) == byte_offset(s, k));
    assert(q == byte_offset(s, k + 1));
    lemma_offset_monotonic(s, k, k + 1);
    if k + 1 < s.len() {
        lemma_offset_monotonic(s, k + 1, s.len() as int);
    }
    assert(clamp(s, q) == byte_offset(s, k + 1));
    assert(byte_offset(s, k + 1) == q);
}

/// Byte index of the character boundary before `idx` (0 stays 0). `idx`
/// is clamped to the text's length and must then be a boundary.
pub fn prev_char_boundary(text: &str, idx: usize) -> (r: usize)
    requires
        byte_offset(text@, text@.len() as int) <= usize::MAX,
        idx == 0 || on_boundary(
            text@,
            if idx < byte_offset(text@, text@.len() as int) {
                idx as int
            } else {
                byte_offset(text@, text@.len() as int) as int
            },
        ),
    ensures
        prev_post(text@, idx as int, r as int),
{
    if idx == 0 {
        return 0;
    }
    proof { lemma_byte_len(text@); }
    let n = text.len();
    let clamped = if idx < n { idx } else { n };
    let cs = chars_of(text);
    let (k, last) = locate(&cs, clamped);
    proof {
        assert forall|j: int|
            0 <= j <= text@.len() && #[trigger] byte_offset(text@, j) == clamped implies last == (if j == 0 {
                0
            } else {
                byte_offset(text@, j - 1) as int
            }) by {
            lemma_offset_injective(text@, j, k as int);
        }
    }
    last
}

/// Byte index of the character boundary after `idx`; the text's length
/// when `idx` is at or past the end. A smaller `idx` must be a boundary.
pub fn next_char_boundary(text: &str, idx: usize) -> (r: usize)
    requires
        byte_offset(text@, text@.len() as int) <= usize::MAX,
        idx >= byte_offset(text@, text@.len() as int) || on_boundary(text@, idx as int),
    ensures
        next_post(text@, idx as int, r as int),
{
    proof { lemma_byte_len(text@); }
    let n = text.len();
    if idx >= n {
        return n;
    }
    let cs = chars_of(text);
    let (k, _) = locate(&cs, idx);
    proof {
        if k == cs.len() {
            assert(byte_offset(text@, k as int) == n);
        }
    }
    proof {
        if k + 1 < cs.len() {
            lemma_offset_monotonic(text@, k + 1, cs.len() as int);
        }
    }
    let r = idx + utf8_width_of(cs[k]);
    proof {
        assert(byte_offset(text@, k + 1) == r);
        assert forall|j: int| 0 <= j <= text@.len() && #[trigger] byte_offset(text@, j) == idx implies r
            == byte_offset(text@, j + 1) by {
            lemma_offset_injective(text@, j, k as int);
        }
    }
    r
}

/// The index of the character that starts at byte `b`, when `b` is a
/// character boundary of `cs` (the length counts as one).
pub fn boundary_index(cs: &Vec<char>, b: usize) -> (r: Option<usize>)
    requires
        byte_offset(cs@, cs@.len() as int) <= usize::MAX,
    ensures
        r matches Some(k) ==> k <= cs@.len() && byte_offset(cs@, k as int) == b,
        r is None ==> !on_boundary(cs@, b as int),
{
    let ghost s = cs@;
    let mut k: usize = 0;
    let mut off: usize = 0;
    while k < cs.len() && off < b
        invariant
            s == cs@,
            byte_offset(s, s.len() as int) <= usize::MAX,
            k <= s.len(),
            off == byte_offset(s, k as int),
            forall|j: int| 0 <= j < k ==> byte_offset(s, j) < b,
        decreases cs.len() - k,
    {
        proof {
            if k + 1 < s.len() {
                lemma_offset_monotonic(s, k + 1, s.len() as int);
            }
        }
        off = off + utf8_width_of(cs[k]);
        k = k + 1;
    }
    if off == b {
        return Some(k);
    }
    proof {
        assert forall|j: int| 0 <= j <= s.len() implies byte_offset(s, j) != b by {
            if j < k {
            } else if j > k {
                lemma_offset_monotonic(s, k as int, j);
            }
        }
    }
    None
}

/// The byte length of the characters, when it fits in a `usize`.
pub fn total_width(cs: &Vec<char>) -> (r: Option<usize>)
    ensures
        r matches Some(t) ==> t == byte_offset(cs@, cs@.len() as int),
        r is None ==> byte_offset(cs@, cs@.len() as int) > usize::MAX,
{
    let mut k: usize = 0;
    let mut acc: usize = 0;
    while k < cs.len()
        invariant
            k <= cs@.len(),
            acc == byte_offset(cs@, k as int),
        decreases cs.len() - k,
    {
        let w = utf8_width_of(cs[k]);
        if acc > usize::MAX - w {
            proof {
                if k + 1 < cs@.len() {
                    lemma_offset_monotonic(cs@, k + 1, cs@.len() as int);
                }
            }
            return None;
        }
        acc = acc + w;
        k = k + 1;
    }
    Some(acc)
}

} // verus!
