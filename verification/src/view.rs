//! The text the editor shows: sidebar lines, cell headers, markdown
//! previews, output excerpts and the status bar.
use vstd::prelude::*;
use crate::cursor::{boundary_index, byte_offset, clamp, lemma_byte_len, lemma_offset_injective, on_boundary};
use crate::notebook::{Cell, CellType};
use crate::paths::{file_name, file_name_of};
use crate::search::SearchState;
use crate::state::{App, FileItem, Focus};
use crate::text::{
    chars_of, decimal, decimal_of, lines, lines_of, push_all, push_str, slice_of, starts_with,
    starts_with_str, string_of, views,
};

verus! {

/// `n` copies of `t`.
pub open spec fn repeat(t: Seq<char>, n: nat) -> Seq<char>
    decreases n,
{
    if n == 0 {
        Seq::<char>::empty()
    } else {
        repeat(t, (n - 1) as nat) + t
    }
}

fn push_repeat(out: &mut Vec<char>, t: &str, n: usize)
    ensures
        final(out)@ == old(out)@ + repeat(t@, n as nat),
{
    let mut i: usize = 0;
    while i < n
        invariant
            i <= n,
            out@ == old(out)@ + repeat(t@, i as nat),
        decreases n - i,
    {
        push_str(out, t);
        i = i + 1;
        assert(out@ =~= old(out)@ + repeat(t@, i as nat));
    }
}

/// The sidebar line of an entry: a header between dashes; otherwise the
/// name, indented two spaces per level, after a marker for an open or a
/// closed directory.
pub open spec fn sidebar_label_spec(item: FileItem) -> Seq<char> {
    if item.is_header {
        "--- "@ + item.label@ + " ---"@
    } else {
        repeat("  "@, item.depth as nat) + (if item.is_directory {
            if item.is_expanded {
                "▾ "@
            } else {
                "▸ "@
            }
        } else {
            "  "@
        }) + match item.path {
            Some(p) => file_name(p@),
            None => item.label@,
        }
    }
}

/// The sidebar line of an entry.
pub fn sidebar_label(item: &FileItem) -> (r: String)
    ensures
        r@ == sidebar_label_spec(*item),
{
    if item.is_header {
        let mut out = chars_of("--- ");
        push_str(&mut out, item.label.as_str());
        push_str(&mut out, " ---");
        return string_of(&out);
    }
    let mut out: Vec<char> = Vec::new();
    push_repeat(&mut out, "  ", item.depth);
    if item.is_directory {
        if item.is_expanded {
            push_str(&mut out, "▾ ");
        } else {
            push_str(&mut out, "▸ ");
        }
    } else {
        push_str(&mut out, "  ");
    }
    match &item.path {
        Some(p) => push_str(&mut out, file_name_of(p.as_str()).as_str()),
        None => push_str(&mut out, item.label.as_str()),
    }
    string_of(&out)
}

/// The name a cell's header shows for its type.
pub open spec fn type_label(k: CellType) -> Seq<char> {
    match k {
        CellType::Shell => "Shell"@,
        CellType::Rust => "Rust"@,
        CellType::Python => "Python"@,
        CellType::JavaScript => "JavaScript"@,
        CellType::TypeScript => "TypeScript"@,
        CellType::C => "C"@,
        CellType::Cpp => "C++"@,
        CellType::Go => "Go"@,
        CellType::Markdown => "Markdown"@,
    }
}

fn type_label_of(k: CellType) -> (r: &'static str)
    ensures
        r@ == type_label(k),
{
    match k {
        CellType::Shell => "Shell",
        CellType::Rust => "Rust",
        CellType::Python => "Python",
        CellType::JavaScript => "JavaScript",
        CellType::TypeScript => "TypeScript",
        CellType::C => "C",
        CellType::Cpp => "C++",
        CellType::Go => "Go",
        CellType::Markdown => "Markdown",
    }
}

/// A polling cell's countdown at time `now`: the seconds left until its
/// next run, or that it runs now.
pub open spec fn countdown(c: Cell, now: u64) -> Seq<char> {
    match c.polling_interval {
        Some(iv) => match c.last_run {
            Some(last) => if last + iv > now {
                " Executing in "@ + decimal((last + iv - now) as nat) + "s..."@
            } else {
                " Executing..."@
            },
            None => " Executing..."@,
        },
        None => Seq::<char>::empty(),
    }
}

/// The header of a cell: its type in brackets, then the countdown.
pub open spec fn header_spec(c: Cell, now: u64) -> Seq<char> {
    "["@ + type_label(c.cell_type) + "]"@ + countdown(c, now)
}

/// The decimal digits of a `u128`.
fn decimal_u128(n: u128) -> (r: Vec<char>)
    ensures
        r@ == decimal(n as nat),
    decreases n,
{
    if n < 10 {
        decimal_of(n as usize)
    } else {
        let mut r = decimal_u128(n / 10);
        let d = decimal_of((n % 10) as usize);
        assert(d@ == decimal((n % 10) as nat));
        assert(decimal((n % 10) as nat) =~= seq![crate::text::digit_char((n % 10) as nat)]);
        push_all(&mut r, &d);
        r
    }
}

/// The header of a cell at time `now` (seconds since the Unix epoch).
pub fn cell_header(c: &Cell, now: u64) -> (r: String)
    ensures
        r@ == header_spec(*c, now),
{
    let mut out = chars_of("[");
    push_str(&mut out, type_label_of(c.cell_type));
    push_str(&mut out, "]");
    match c.polling_interval {
        Some(iv) => match c.last_run {
            Some(last) => {
                let next: u128 = last as u128 + iv as u128;
                if next > now as u128 {
                    push_str(&mut out, " Executing in ");
                    push_all(&mut out, &decimal_u128(next - now as u128));
                    push_str(&mut out, "s...");
                } else {
                    push_str(&mut out, " Executing...");
                }
            },
            None => push_str(&mut out, " Executing..."),
        },
        None => {},
    }
    string_of(&out)
}

/// How a line of a markdown preview is shown: 1, 2 or 3 for headings of
/// that level, 4 for a bullet (drawn as `  • ` and the rest), 0 for plain
/// text.
pub open spec fn preview_kind(line: Seq<char>) -> u8 {
    if starts_with(line, "# "@) {
        1
    } else if starts_with(line, "## "@) {
        2
    } else if starts_with(line, "### "@) {
        3
    } else if starts_with(line, "- "@) || starts_with(line, "* "@) {
        4
    } else {
        0
    }
}

/// The text shown for a preview line.
pub open spec fn preview_text(line: Seq<char>) -> Seq<char> {
    if preview_kind(line) == 4 {
        "  • "@ + line.skip(2)
    } else {
        line
    }
}

/// How a markdown preview shows a line, and the text shown.
pub fn preview_line(line: &String) -> (r: (u8, String))
    ensures
        r.0 == preview_kind(line@),
        r.1@ == preview_text(line@),
{
    let v = chars_of(line.as_str());
    let kind: u8 = if starts_with_str(&v, "# ") {
        1
    } else if starts_with_str(&v, "## ") {
        2
    } else if starts_with_str(&v, "### ") {
        3
    } else if starts_with_str(&v, "- ") || starts_with_str(&v, "* ") {
        4
    } else {
        0
    };
    if kind == 4 {
        proof {
            reveal_strlit("- ");
            reveal_strlit("* ");
        }
        let mut out = chars_of("  • ");
        let rest = slice_of(&v, 2, v.len());
        assert(rest@ =~= line@.skip(2));
        push_all(&mut out, &rest);
        (kind, string_of(&out))
    } else {
        (kind, line.clone())
    }
}

/// The lines shown of a cell's output: at most ten, each after `>>  `
/// (compact) or five spaces (cozy), then `.....` when some were left out.
pub open spec fn output_lines_spec(output: Seq<char>, compact: bool) -> Seq<Seq<char>> {
    let ls = lines(output);
    let pre = if compact {
        ">>  "@
    } else {
        "     "@
    };
    let shown = if ls.len() > 10 {
        ls.take(10)
    } else {
        ls
    };
    Seq::new(shown.len(), |i: int| pre + shown[i]) + (if ls.len() > 10 {
        seq![pre + "....."@]
    } else {
        Seq::<Seq<char>>::empty()
    })
}

/// The shell line split at the cursor (a byte index, clamped to the line)
/// for drawing: the text before it, the character under it (a space at the
/// end of the line), and the text after that character. A cursor off a
/// character boundary draws the whole line before it.
pub fn cursor_split(line: &String, cursor: usize) -> (r: (String, String, String))
    requires
        byte_offset(line@, line@.len() as int) <= usize::MAX,
    ensures
        forall|k: int|
            0 <= k <= line@.len() && #[trigger] byte_offset(line@, k) == clamp(line@, cursor as int) ==> {
                &&& r.0@ == line@.take(k)
                &&& k < line@.len() ==> r.1@ == seq![line@[k]] && r.2@ == line@.skip(k + 1)
                &&& k == line@.len() ==> r.1@ == " "@ && r.2@.len() == 0
            },
        !on_boundary(line@, clamp(line@, cursor as int)) ==> r.0@ == line@ && r.1@ == " "@
            && r.2@.len() == 0,
{
    let t = line.as_str();
    proof { lemma_byte_len(t@); }
    let n = t.len();
    let c = if cursor < n { cursor } else { n };
    let cs = chars_of(t);
    assert(cs@ == line@);
    assert(n == byte_offset(line@, line@.len() as int));
    assert(c == clamp(line@, cursor as int));
    match boundary_index(&cs, c) {
        Some(k) => {
            proof {
                assert forall|j: int| 0 <= j <= line@.len() && #[trigger] byte_offset(line@, j)
                    == clamp(line@, cursor as int) implies j == k by {
                    lemma_offset_injective(line@, j, k as int);
                }
            }
            let before = string_of(&slice_of(&cs, 0, k));
            assert(before@ =~= line@.take(k as int));
            if k < cs.len() {
                let mut under: Vec<char> = Vec::new();
                under.push(cs[k]);
                let after = string_of(&slice_of(&cs, k + 1, cs.len()));
                assert(after@ =~= line@.skip(k + 1));
                assert(under@ =~= seq![line@[k as int]]);
                (before, string_of(&under), after)
            } else {
                (before, string_of(&chars_of(" ")), String::new())
            }
        },
        None => (string_of(&cs), string_of(&chars_of(" ")), String::new()),
    }
}

/// The lines shown of a cell's text: `(empty)` for an empty text, else each
/// of its lines; `indent` goes before each.
pub open spec fn body_lines_spec(content: Seq<char>, indent: Seq<char>) -> Seq<Seq<char>> {
    if content.len() == 0 {
        seq![indent + "(empty)"@]
    } else {
        Seq::new(lines(content).len(), |j: int| indent + lines(content)[j])
    }
}

/// The lines shown of a cell's text.
pub fn body_lines(content: &String, indent: &str) -> (r: Vec<String>)
    ensures
        crate::kernel::strs(r@) == body_lines_spec(content@, indent@),
{
    let mut out: Vec<String> = Vec::new();
    if content.as_str().is_empty() {
        let mut x = chars_of(indent);
        push_str(&mut x, "(empty)");
        let xs = string_of(&x);
        out.push(xs);
        assert(crate::kernel::strs(out@) =~= seq![indent@ + "(empty)"@]);
        return out;
    }
    let ls = lines_of(&chars_of(content.as_str()));
    let ghost l = views(ls@);
    let mut i: usize = 0;
    while i < ls.len()
        invariant
            l == views(ls@),
            l == lines(content@),
            i <= ls.len(),
            crate::kernel::strs(out@) == Seq::new(i as nat, |j: int| indent@ + l[j]),
        decreases ls.len() - i,
    {
        let mut x = chars_of(indent);
        push_all(&mut x, &ls[i]);
        let ghost before = out@;
        let xs = string_of(&x);
        assert(xs@ == indent@ + l[i as int]);
        out.push(xs);
        assert(crate::kernel::strs(out@) =~= crate::kernel::strs(before).push(xs@));
        assert(crate::kernel::strs(out@) =~= Seq::new((i + 1) as nat, |j: int| indent@ + l[j]));
        i = i + 1;
    }
    out
}

/// The spaces between a line's text (`used` columns) and the cell header
/// at its right end, in a line `width` columns wide: none when they do not
/// fit.
pub fn pad_width(width: usize, used: usize, header_len: usize) -> (r: usize)
    ensures
        r == (if used + header_len + 2 <= width {
            width - used - header_len - 2
        } else {
            0
        }),
{
    let taken = used.saturating_add(header_len);
    if taken < width && width - taken >= 2 {
        width - taken - 2
    } else {
        0
    }
}

/// The lines shown of a cell's output.
pub fn output_lines(output: &String, compact: bool) -> (r: Vec<String>)
    ensures
        crate::kernel::strs(r@) == output_lines_spec(output@, compact),
{
    let ls = lines_of(&chars_of(output.as_str()));
    let ghost l = views(ls@);
    let pre: &str = if compact {
        ">>  "
    } else {
        "     "
    };
    let n = if ls.len() > 10 {
        10
    } else {
        ls.len()
    };
    let ghost shown = if l.len() > 10 {
        l.take(10)
    } else {
        l
    };
    let mut out: Vec<String> = Vec::new();
    let mut i: usize = 0;
    while i < n
        invariant
            l == views(ls@),
            n == shown.len(),
            shown == (if l.len() > 10 { l.take(10) } else { l }),
            i <= n,
            crate::kernel::strs(out@) == Seq::new(i as nat, |j: int| pre@ + shown[j]),
        decreases n - i,
    {
        let mut x = chars_of(pre);
        push_all(&mut x, &ls[i]);
        let ghost before = out@;
        let xs = string_of(&x);
        assert(xs@ == pre@ + shown[i as int]);
        out.push(xs);
        assert(out@ == before.push(xs));
        assert(crate::kernel::strs(out@) =~= crate::kernel::strs(before).push(xs@));
        assert(crate::kernel::strs(out@) =~= Seq::new((i + 1) as nat, |j: int| pre@ + shown[j]));
        i = i + 1;
    }
    if ls.len() > 10 {
        let mut x = chars_of(pre);
        push_str(&mut x, ".....");
        let ghost before = out@;
        let xs = string_of(&x);
        out.push(xs);
        assert(out@ == before.push(xs));
        assert(crate::kernel::strs(out@) =~= crate::kernel::strs(before).push(pre@ + "....."@));
    }
    assert(crate::kernel::strs(out@) =~= output_lines_spec(output@, compact));
    out
}

/// The number shown for the current match: counted from 1, 0 with none
/// (a position at the top of `usize` wraps round to 0).
pub open spec fn shown_match(current: Option<usize>) -> nat {
    match current {
        Some(m) => if m < usize::MAX {
            (m + 1) as nat
        } else {
            0
        },
        None => 0,
    }
}

/// A search's position: ` (k/n)` with the current match counted from 1
/// (0 with none), ` (no matches)` for a query without matches, nothing for
/// no query.
pub open spec fn match_info(s: SearchState) -> Seq<char> {
    if s.matches@.len() > 0 {
        " ("@ + decimal(shown_match(s.current_match)) + "/"@ + decimal(s.matches@.len()) + ")"@
    } else if s.query@.len() > 0 {
        " (no matches)"@
    } else {
        Seq::<char>::empty()
    }
}

fn match_info_of(s: &SearchState) -> (r: Vec<char>)
    ensures
        r@ == match_info(*s),
{
    if s.matches.len() > 0 {
        let mut out = chars_of(" (");
        let k: usize = match s.current_match {
            Some(m) => if m < usize::MAX {
                m + 1
            } else {
                0
            },
            None => 0,
        };
        push_all(&mut out, &decimal_of(k));
        push_str(&mut out, "/");
        push_all(&mut out, &decimal_of(s.matches.len()));
        push_str(&mut out, ")");
        out
    } else if !s.query.as_str().is_empty() {
        chars_of(" (no matches)")
    } else {
        Vec::new()
    }
}

/// The bottom line while a search is typed: `/`, the query, its position.
pub fn search_prompt(s: &SearchState) -> (r: String)
    ensures
        r@ == "/"@ + s.query@ + match_info(*s),
{
    let mut out = chars_of("/");
    push_str(&mut out, s.query.as_str());
    push_all(&mut out, &match_info_of(s));
    string_of(&out)
}

/// The left part of the status bar: the message, else the file's name,
/// else `[No Name]`; then the search of the focused pane, when it has a
/// query.
pub open spec fn status_left(a: App) -> Seq<char> {
    let status = match a.status_message {
        Some(m) => m@,
        None => match a.file_path {
            Some(p) => file_name(p@),
            None => "[No Name]"@,
        },
    };
    let s = if a.focus == Focus::Sidebar {
        a.sidebar_search
    } else {
        a.editor_search
    };
    status + if s.query@.len() > 0 {
        " /"@ + s.query@ + match_info(s)
    } else {
        Seq::<char>::empty()
    }
}

/// The right part of the status bar: the selected cell's position, as a
/// percentage of the notebook and a number counted from 1.
pub open spec fn status_right(a: App) -> Seq<char> {
    if a.focus == Focus::Editor && a.cells@.len() > 0 && a.selected is Some && a.selected.unwrap()
        < usize::MAX {
        let current = a.selected.unwrap() + 1;
        " "@ + decimal(((current * 100) / (a.cells@.len() as int)) as nat) + "% < "@ + decimal(
            current as nat,
        )
    } else {
        Seq::<char>::empty()
    }
}

/// The status bar of normal mode: the left part, spaces, and the right
/// part at the right edge (the spaces left out when they do not fit).
pub open spec fn status_bar_spec(a: App, width: nat) -> Seq<char> {
    let l = status_left(a);
    let r = status_right(a);
    l + (if l.len() + r.len() < width {
        repeat(" "@, (width - l.len() - r.len()) as nat)
    } else {
        Seq::<char>::empty()
    }) + r
}

fn status_left_of(a: &App) -> (r: Vec<char>)
    ensures
        r@ == status_left(*a),
{
    let mut left: Vec<char> = match &a.status_message {
        Some(m) => chars_of(m.as_str()),
        None => match &a.file_path {
            Some(p) => chars_of(file_name_of(p.as_str()).as_str()),
            None => chars_of("[No Name]"),
        },
    };
    let s = if a.focus == Focus::Sidebar {
        &a.sidebar_search
    } else {
        &a.editor_search
    };
    if !s.query.as_str().is_empty() {
        push_str(&mut left, " /");
        push_str(&mut left, s.query.as_str());
        push_all(&mut left, &match_info_of(s));
    }
    left
}

fn status_right_of(a: &App) -> (r: Vec<char>)
    requires
        a.selected matches Some(i) ==> i < usize::MAX / 100,
    ensures
        r@ == status_right(*a),
{
    let mut right: Vec<char> = Vec::new();
    if a.focus == Focus::Editor && a.cells.len() > 0 {
        if let Some(sel) = a.selected {
            let current = sel + 1;
            push_str(&mut right, " ");
            push_all(&mut right, &decimal_of((current * 100) / a.cells.len()));
            push_str(&mut right, "% < ");
            push_all(&mut right, &decimal_of(current));
        }
    }
    right
}

/// The status bar of normal mode, `width` characters wide.
pub fn status_bar(a: &App, width: usize) -> (r: String)
    requires
        a.selected matches Some(i) ==> i < usize::MAX / 100,
    ensures
        r@ == status_bar_spec(*a, width as nat),
{
    let left = status_left_of(a);
    let right = status_right_of(a);
    let mut out = left.clone();
    if left.len() < width && right.len() < width - left.len() {
        push_repeat(&mut out, " ", width - left.len() - right.len());
    }
    push_all(&mut out, &right);
    string_of(&out)
}

/// The first cell line shown: the one before the selected cell, so that
/// it stays in view.
pub fn list_offset(selected: usize) -> (r: usize)
    ensures
        r == (if selected > 0 {
            selected - 1
        } else {
            0
        }),
{
    if selected > 0 {
        selected - 1
    } else {
        0
    }
}

} // verus!
