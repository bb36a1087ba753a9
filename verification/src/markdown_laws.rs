//! What a notebook written as markdown reads back as.
use vstd::prelude::*;
use crate::markdown::{
    after_block, cell_md, code_cell, code_end, fence_tag, flush_cells, flush_text, is_fence,
    lang_of, marked, md_cell, out_end, out_lines, parse_lines, parse_spec, strip_nl, tag_kind, to_md,
};
use crate::notebook::{CellText, CellType};
use crate::text::{
    index_of, lead_ws, lemma_index_of_bound, lemma_lead_ws_bound, lemma_trail_ws_bound,
    lemma_unlines_push, lines, split, starts_with, strip_cr, strip_prefixes, trail_ws, trim,
    trim_end, trim_start, unlines,
};

verus! {

// ---------------------------------------------------------------------------
// Which notebooks survive the markdown form
// ---------------------------------------------------------------------------

/// No carriage return directly before a newline, none at the end.
pub open spec fn no_crlf(s: Seq<char>) -> bool {
    &&& forall|j: int| 0 <= j < s.len() - 1 ==> !(#[trigger] s[j] == '\r' && s[j + 1] == '\n')
    &&& (s.len() > 0 ==> s.last() != '\r')
}

/// No line of `s` would be read as a fence.
pub open spec fn no_fence_line(s: Seq<char>) -> bool {
    forall|j: int| 0 <= j < split(s, '\n').len() ==> !is_fence(#[trigger] split(s, '\n')[j])
}

/// A cell whose text the markdown form keeps.
pub open spec fn cell_fits(c: CellText) -> bool {
    &&& no_crlf(c.content)
    &&& trim_end(c.content) == c.content
    &&& no_fence_line(c.content)
    &&& if c.kind == CellType::Markdown {
        c.output.len() == 0 && trim(c.content).len() != 0
    } else {
        no_crlf(c.output) && trim_end(c.output) == c.output
    }
}

/// Where markdown cells may stand: never next to each other, and never after
/// two code cells in a row (the blank lines between those cells would be
/// read into the markdown text).
pub open spec fn md_at(cells: Seq<CellText>, i: int) -> bool {
    cells[i].kind == CellType::Markdown
}

pub open spec fn placement_fits(cells: Seq<CellText>) -> bool {
    forall|i: int|
        0 <= i < cells.len() && #[trigger] md_at(cells, i) ==> {
            &&& (i >= 1 ==> cells[i - 1].kind != CellType::Markdown)
            &&& (i >= 2 ==> cells[i - 2].kind == CellType::Markdown)
        }
}

/// A notebook that reads back from its markdown form as it was written.
pub open spec fn fits_markdown(cells: Seq<CellText>) -> bool {
    &&& cells.len() > 0
    &&& forall|i: int| 0 <= i < cells.len() ==> cell_fits(#[trigger] cells[i])
    &&& placement_fits(cells)
    &&& (cells[0].kind == CellType::Markdown ==> cells[0].content[0] != '\n')
}

// ---------------------------------------------------------------------------
// The markdown form, line by line
// ---------------------------------------------------------------------------

pub open spec fn cell_lines(c: CellText) -> Seq<Seq<char>> {
    if c.kind == CellType::Markdown {
        split(c.content, '\n')
    } else {
        seq!["```"@ + lang_of(c.kind)] + split(c.content, '\n') + seq!["```"@] + (if c.output.len()
            == 0 {
            Seq::<Seq<char>>::empty()
        } else {
            marked(split(c.output, '\n'))
        })
    }
}

pub open spec fn md_lines(cells: Seq<CellText>) -> Seq<Seq<char>>
    decreases cells.len(),
{
    if cells.len() == 0 {
        seq![]
    } else {
        md_lines(cells.drop_last()) + (if cells.len() > 1 {
            seq![Seq::<char>::empty()]
        } else {
            Seq::<Seq<char>>::empty()
        }) + cell_lines(cells.last())
    }
}

pub open spec fn plain_line(l: Seq<char>) -> bool {
    &&& forall|j: int| 0 <= j < l.len() ==> l[j] != '\n'
    &&& (l.len() > 0 ==> l.last() != '\r')
}

// ---------------------------------------------------------------------------
// Lemmas on lines
// ---------------------------------------------------------------------------

proof fn lemma_unlines_append(a: Seq<Seq<char>>, b: Seq<Seq<char>>)
    ensures
        unlines(a + b) == unlines(a) + unlines(b),
    decreases a.len(),
{
    if a.len() == 0 {
        assert(a + b =~= b);
        assert(unlines(a) =~= Seq::<char>::empty());
        assert(unlines(a + b) =~= unlines(a) + unlines(b));
    } else {
        lemma_unlines_append(a.drop_first(), b);
        assert((a + b).drop_first() =~= a.drop_first() + b);
        assert((a + b)[0] == a[0]);
        assert(unlines(a + b) =~= unlines(a) + unlines(b));
    }
}

proof fn lemma_unlines_one(x: Seq<char>)
    ensures
        unlines(seq![x]) == x + seq!['\n'],
{
    assert(seq![x].drop_first() =~= Seq::<Seq<char>>::empty());
    assert(unlines(Seq::<Seq<char>>::empty()) =~= Seq::<char>::empty());
    assert(unlines(seq![x]) =~= x + seq!['\n']);
}

proof fn lemma_unlines_split(s: Seq<char>)
    ensures
        unlines(split(s, '\n')) == s + seq!['\n'],
    decreases s.len(),
{
    let i = index_of(s, '\n');
    lemma_index_of_bound(s, '\n');
    if i >= s.len() {
        lemma_unlines_one(s);
    } else {
        let rest = s.skip(i as int + 1);
        lemma_unlines_split(rest);
        let sp = split(s, '\n');
        assert(sp == seq![s.take(i as int)] + split(rest, '\n'));
        assert(sp.drop_first() =~= split(rest, '\n'));
        assert(sp[0] == s.take(i as int));
        assert(s =~= s.take(i as int) + seq!['\n'] + rest);
        assert(unlines(sp) =~= s + seq!['\n']);
    }
}

/// The pieces of `s` hold no newline, and none ends in a carriage return.
proof fn lemma_split_plain(s: Seq<char>)
    requires
        no_crlf(s),
    ensures
        forall|k: int| 0 <= k < split(s, '\n').len() ==> plain_line(#[trigger] split(s, '\n')[k]),
        split(s, '\n').len() >= 1,
    decreases s.len(),
{
    let i = index_of(s, '\n');
    lemma_index_of_bound(s, '\n');
    if i >= s.len() {
        assert(split(s, '\n') == seq![s]);
    } else {
        let rest = s.skip(i as int + 1);
        assert(no_crlf(rest)) by {
            assert forall|j: int| 0 <= j < rest.len() - 1 implies !(#[trigger] rest[j] == '\r' && rest[j + 1]
                == '\n') by {
                assert(rest[j] == s[j + i + 1]);
                assert(rest[j + 1] == s[j + i + 2]);
            }
            if rest.len() > 0 {
                assert(rest.last() == s.last());
            }
        }
        lemma_split_plain(rest);
        let sp = split(s, '\n');
        assert(sp == seq![s.take(i as int)] + split(rest, '\n'));
        assert forall|k: int| 0 <= k < sp.len() implies plain_line(#[trigger] sp[k]) by {
            if k == 0 {
                let p = s.take(i as int);
                assert(sp[0] == p);
                if p.len() > 0 {
                    assert(p.last() == s[i - 1]);
                    assert(s[i as int] == '\n');
                }
            } else {
                assert(sp[k] == split(rest, '\n')[k - 1]);
            }
        }
    }
}

/// Reading back lines that were written one per newline.
proof fn lemma_lines_unlines(ls: Seq<Seq<char>>)
    requires
        forall|k: int| 0 <= k < ls.len() ==> plain_line(#[trigger] ls[k]),
    ensures
        lines(unlines(ls)) == ls,
    decreases ls.len(),
{
    if ls.len() == 0 {
        assert(unlines(ls) =~= Seq::<char>::empty());
        assert(lines(unlines(ls)) =~= ls);
    } else {
        let x = ls[0];
        let rest = ls.drop_first();
        assert forall|k: int| 0 <= k < rest.len() implies plain_line(#[trigger] rest[k]) by {
            assert(rest[k] == ls[k + 1]);
        }
        lemma_lines_unlines(rest);
        let s = unlines(ls);
        assert(s == x + seq!['\n'] + unlines(rest));
        assert(plain_line(ls[0]));
        lemma_index_of_bound(s, '\n');
        assert(index_of(s, '\n') == x.len()) by {
            let i = index_of(s, '\n');
            assert(s[x.len() as int] == '\n');
            if i < x.len() {
                assert(s[i as int] == x[i as int]);
            }
        }
        assert(s.take(x.len() as int) =~= x);
        assert(s.skip(x.len() as int + 1) =~= unlines(rest));
        assert(strip_cr(x) == x);
        assert(lines(s) =~= seq![x] + rest);
        assert(seq![x] + rest =~= ls);
    }
}

/// `lines` and splitting at newlines agree on a text with no final newline.
proof fn lemma_lines_split(s: Seq<char>)
    requires
        s.len() > 0,
        s.last() != '\n',
        no_crlf(s),
    ensures
        lines(s) == split(s, '\n'),
{
    lemma_split_plain(s);
    lemma_unlines_split(s);
    let sp = split(s, '\n');
    // lines(s) = lines(s + "\n") because s does not end with a newline
    lemma_lines_unlines(sp);
    lemma_lines_snoc_nl(s);
}

/// A final newline does not change the lines of a text that has none.
proof fn lemma_lines_snoc_nl(s: Seq<char>)
    requires
        s.len() > 0,
        s.last() != '\n',
        s.last() != '\r',
    ensures
        lines(s + seq!['\n']) == lines(s),
    decreases s.len(),
{
    let t = s + seq!['\n'];
    let i = index_of(s, '\n');
    lemma_index_of_bound(s, '\n');
    lemma_index_of_bound(t, '\n');
    assert(index_of(t, '\n') == i) by {
        let it = index_of(t, '\n');
        if i < s.len() {
            assert(t[i as int] == '\n');
            if it < i {
                assert(t[it as int] == s[it as int]);
            }
        } else {
            assert(t[s.len() as int] == '\n');
            if it < s.len() {
                assert(t[it as int] == s[it as int]);
            }
        }
    }
    if i >= s.len() {
        assert(t.take(i as int) =~= s);
        assert(t.skip(i as int + 1).len() == 0);
        assert(lines(t.skip(i as int + 1)) =~= Seq::<Seq<char>>::empty());
        assert(lines(t) =~= seq![strip_cr(s)]);
        assert(strip_cr(s) == s);
    } else {
        assert(t.take(i as int) =~= s.take(i as int));
        let rest = s.skip(i as int + 1);
        assert(t.skip(i as int + 1) =~= rest + seq!['\n']);
        if rest.len() > 0 {
            assert(rest.last() == s.last());
            lemma_lines_snoc_nl(rest);
        } else {
            assert(rest + seq!['\n'] =~= seq!['\n']);
            assert(index_of(seq!['\n'], '\n') == 0);
            assert(seq!['\n'].take(0) =~= Seq::<char>::empty());
            assert(seq!['\n'].skip(1) =~= Seq::<char>::empty());
            assert(strip_cr(Seq::<char>::empty()) =~= Seq::<char>::empty());
            assert(lines(seq!['\n']) =~= seq![Seq::<char>::empty()] + Seq::<Seq<char>>::empty());
            assert(s.last() == '\n');
        }
    }
}

proof fn lemma_trim_end_nl(s: Seq<char>)
    ensures
        trim_end(s + seq!['\n']) == trim_end(s),
{
    let t = s + seq!['\n'];
    lemma_trail_ws_bound(s);
    assert(t.drop_last() =~= s);
    assert(trail_ws(t) == 1 + trail_ws(s));
    assert(t.take(t.len() - trail_ws(t)) =~= s.take(s.len() - trail_ws(s)));
}

proof fn lemma_code_end_run(ls: Seq<Seq<char>>, j: int, m: int)
    requires
        0 <= j,
        0 <= m,
        j + m <= ls.len(),
        forall|t: int| j <= t < j + m ==> !is_fence(#[trigger] ls[t]),
        j + m < ls.len() ==> is_fence(ls[j + m]),
    ensures
        code_end(ls, j) == j + m,
    decreases m,
{
    if m > 0 {
        lemma_code_end_run(ls, j + 1, m - 1);
    }
}

proof fn lemma_out_end_run(ls: Seq<Seq<char>>, j: int, m: int)
    requires
        0 <= j,
        0 <= m,
        j + m <= ls.len(),
        forall|t: int| j <= t < j + m ==> starts_with(#[trigger] ls[t], ">> "@),
        j + m < ls.len() ==> !starts_with(ls[j + m], ">> "@),
    ensures
        out_end(ls, j) == j + m,
    decreases m,
{
    if m > 0 {
        lemma_out_end_run(ls, j + 1, m - 1);
    }
}

/// Lines that are not fences are added to the pending markdown text.
proof fn lemma_text_run(
    ls: Seq<Seq<char>>,
    i: int,
    m: int,
    cells: Seq<CellText>,
    cur: Seq<char>,
)
    requires
        0 <= i,
        0 <= m,
        i + m <= ls.len(),
        forall|t: int| i <= t < i + m ==> !is_fence(#[trigger] ls[t]),
    ensures
        parse_lines(ls, i, cells, cur) == parse_lines(
            ls,
            i + m,
            cells,
            cur + unlines(ls.subrange(i, i + m)),
        ),
    decreases m,
{
    if m == 0 {
        assert(ls.subrange(i, i) =~= Seq::<Seq<char>>::empty());
        assert(cur + unlines(ls.subrange(i, i)) =~= cur);
    } else {
        let cur1 = cur + ls[i] + seq!['\n'];
        lemma_text_run(ls, i + 1, m - 1, cells, cur1);
        assert(ls.subrange(i, i + m).drop_first() =~= ls.subrange(i + 1, i + m));
        assert(ls.subrange(i, i + m)[0] == ls[i]);
        assert(cur1 + unlines(ls.subrange(i + 1, i + m)) =~= cur + unlines(ls.subrange(i, i + m)));
    }
}

proof fn lemma_md_lines_first(cells: Seq<CellText>)
    requires
        cells.len() >= 1,
    ensures
        cells.len() == 1 ==> md_lines(cells) == cell_lines(cells[0]),
        cells.len() >= 2 ==> md_lines(cells) == cell_lines(cells[0]) + seq![Seq::<char>::empty()]
            + md_lines(cells.drop_first()),
    decreases cells.len(),
{
    if cells.len() == 1 {
        assert(cells.drop_last().len() == 0);
        assert(md_lines(cells.drop_last()) =~= Seq::<Seq<char>>::empty());
        assert(md_lines(cells) =~= cell_lines(cells[0]));
    } else if cells.len() == 2 {
        lemma_md_lines_first(cells.drop_last());
        assert(cells.drop_last()[0] == cells[0]);
        assert(cells.drop_first().len() == 1);
        lemma_md_lines_first(cells.drop_first());
        assert(cells.drop_first()[0] == cells.last());
        assert(md_lines(cells) =~= cell_lines(cells[0]) + seq![Seq::<char>::empty()] + md_lines(
            cells.drop_first(),
        ));
    } else {
        let init = cells.drop_last();
        lemma_md_lines_first(init);
        assert(init[0] == cells[0]);
        assert(init.drop_first() =~= cells.drop_first().drop_last());
        assert(cells.drop_first().last() == cells.last());
        assert(md_lines(cells.drop_first()) == md_lines(cells.drop_first().drop_last()) + seq![
            Seq::<char>::empty(),
        ] + cell_lines(cells.last()));
        assert(md_lines(cells) =~= cell_lines(cells[0]) + seq![Seq::<char>::empty()] + md_lines(
            cells.drop_first(),
        ));
    }
}

proof fn lemma_cell_md_lines(c: CellText)
    requires
        cell_fits(c),
    ensures
        cell_md(c) == unlines(cell_lines(c)),
{
    lemma_unlines_split(c.content);
    lemma_trail_ws_bound(c.content);
    if c.kind == CellType::Markdown {
    } else {
        let head = seq!["```"@ + lang_of(c.kind)];
        let body = split(c.content, '\n');
        let close = seq!["```"@];
        let outs = if c.output.len() == 0 {
            Seq::<Seq<char>>::empty()
        } else {
            marked(split(c.output, '\n'))
        };
        lemma_unlines_append(head + body + close, outs);
        lemma_unlines_append(head + body, close);
        lemma_unlines_append(head, body);
        lemma_unlines_one("```"@ + lang_of(c.kind));
        lemma_unlines_one("```"@);
        reveal_strlit("```\n");
        reveal_strlit("```");
        assert(c.content.len() > 0 ==> c.content.last() != '\n') by {
            if c.content.len() > 0 && c.content.last() == '\n' {
                assert(trim_end(c.content).len() < c.content.len());
            }
        }
        if c.output.len() > 0 {
            lemma_trail_ws_bound(c.output);
            assert(c.output.last() != '\n') by {
                if c.output.last() == '\n' {
                    assert(trim_end(c.output).len() < c.output.len());
                }
            }
            lemma_lines_split(c.output);
        }
        assert(cell_md(c) =~= unlines(cell_lines(c)));
    }
}

proof fn lemma_to_md_lines(cells: Seq<CellText>)
    requires
        forall|i: int| 0 <= i < cells.len() ==> cell_fits(#[trigger] cells[i]),
    ensures
        to_md(cells) == unlines(md_lines(cells)),
    decreases cells.len(),
{
    if cells.len() == 0 {
        assert(unlines(md_lines(cells)) =~= Seq::<char>::empty());
    } else {
        let init = cells.drop_last();
        assert forall|i: int| 0 <= i < init.len() implies cell_fits(#[trigger] init[i]) by {
            assert(init[i] == cells[i]);
        }
        lemma_to_md_lines(init);
        assert(cell_fits(cells.last()));
        lemma_cell_md_lines(cells.last());
        let sep = if cells.len() > 1 {
            seq![Seq::<char>::empty()]
        } else {
            Seq::<Seq<char>>::empty()
        };
        lemma_unlines_append(md_lines(init) + sep, cell_lines(cells.last()));
        lemma_unlines_append(md_lines(init), sep);
        if cells.len() > 1 {
            lemma_unlines_one(Seq::<char>::empty());
        } else {
            assert(unlines(sep) =~= Seq::<char>::empty());
        }
        assert(to_md(cells) =~= unlines(md_lines(cells)));
    }
}

/// A character that is not whitespace keeps a text from being blank.
proof fn lemma_nonblank(s: Seq<char>, j: int)
    requires
        0 <= j < s.len(),
        !crate::text::is_ws(s[j]),
    ensures
        trim(s).len() != 0,
{
    lemma_lead_ws_bound(s);
    crate::text::lemma_trim_empty(s);
    if lead_ws(s) == s.len() {
        assert(crate::text::is_ws(s[j]));
    }
}

proof fn lemma_blank_newlines(cur: Seq<char>)
    requires
        forall|j: int| 0 <= j < cur.len() ==> cur[j] == '\n',
    ensures
        trim(cur).len() == 0,
    decreases cur.len(),
{
    crate::text::lemma_trim_empty(cur);
    if cur.len() > 0 {
        lemma_blank_newlines(cur.drop_first());
        crate::text::lemma_trim_empty(cur.drop_first());
    }
}

proof fn lemma_fence_line(k: CellType)
    requires
        k != CellType::Markdown,
    ensures
        is_fence("```"@ + lang_of(k)),
        tag_kind(fence_tag("```"@ + lang_of(k))) == k,
        plain_line("```"@ + lang_of(k)),
{
    reveal_strlit("```");
    reveal_strlit("rust");
    reveal_strlit("python");
    reveal_strlit("py");
    reveal_strlit("javascript");
    reveal_strlit("js");
    reveal_strlit("typescript");
    reveal_strlit("ts");
    reveal_strlit("c");
    reveal_strlit("cpp");
    reveal_strlit("c++");
    reveal_strlit("go");
    reveal_strlit("bash");
    let f = "```"@;
    let lang = lang_of(k);
    let line = f + lang;
    assert(lead_ws(line) == 0);
    assert(line.skip(0) =~= line);
    assert(line.take(3) =~= f);
    assert(line.skip(3) =~= lang);
    assert(lang.len() > 0 && lang[0] != '`');
    assert(!starts_with(lang, f));
    assert(strip_prefixes(line, f) == strip_prefixes(lang, f));
    assert(lead_ws(lang) == 0);
    assert(lang.skip(0) =~= lang);
    assert(trail_ws(lang) == 0);
    assert(lang.take(lang.len() as int) =~= lang);
    assert(fence_tag(line) == lang);
    assert(tag_kind(lang) == k) by {
        match k {
            CellType::Rust => {},
            CellType::Python => {
                assert(lang != "rust"@) by { assert(lang[0] != "rust"@[0]); }
            },
            CellType::JavaScript => {
                assert(lang != "rust"@) by { assert(lang[0] != "rust"@[0]); }
                assert(lang != "python"@) by { assert(lang[0] != "python"@[0]); }
                assert(lang != "py"@) by { assert(lang[0] != "py"@[0]); }
            },
            CellType::TypeScript => {
                assert(lang != "rust"@) by { assert(lang[0] != "rust"@[0]); }
                assert(lang != "python"@) by { assert(lang[0] != "python"@[0]); }
                assert(lang != "py"@) by { assert(lang[0] != "py"@[0]); }
                assert(lang != "javascript"@) by { assert(lang[0] != "javascript"@[0]); }
                assert(lang != "js"@) by { assert(lang[0] != "js"@[0]); }
            },
            CellType::C => {
                assert(lang != "rust"@) by { assert(lang[0] != "rust"@[0]); }
                assert(lang != "python"@) by { assert(lang[0] != "python"@[0]); }
                assert(lang != "py"@) by { assert(lang[0] != "py"@[0]); }
                assert(lang != "javascript"@) by { assert(lang[0] != "javascript"@[0]); }
                assert(lang != "js"@) by { assert(lang[0] != "js"@[0]); }
                assert(lang != "typescript"@) by { assert(lang[0] != "typescript"@[0]); }
                assert(lang != "ts"@) by { assert(lang[0] != "ts"@[0]); }
            },
            CellType::Cpp => {
                assert(lang != "rust"@) by { assert(lang[0] != "rust"@[0]); }
                assert(lang != "python"@) by { assert(lang[0] != "python"@[0]); }
                assert(lang != "py"@) by { assert(lang[0] != "py"@[0]); }
                assert(lang != "javascript"@) by { assert(lang[0] != "javascript"@[0]); }
                assert(lang != "js"@) by { assert(lang[0] != "js"@[0]); }
                assert(lang != "typescript"@) by { assert(lang[0] != "typescript"@[0]); }
                assert(lang != "ts"@) by { assert(lang[0] != "ts"@[0]); }
                assert(lang != "c"@) by { assert(lang.len() != "c"@.len()); }
            },
            CellType::Go => {
                assert(lang != "rust"@) by { assert(lang[0] != "rust"@[0]); }
                assert(lang != "python"@) by { assert(lang[0] != "python"@[0]); }
                assert(lang != "py"@) by { assert(lang[0] != "py"@[0]); }
                assert(lang != "javascript"@) by { assert(lang[0] != "javascript"@[0]); }
                assert(lang != "js"@) by { assert(lang[0] != "js"@[0]); }
                assert(lang != "typescript"@) by { assert(lang[0] != "typescript"@[0]); }
                assert(lang != "ts"@) by { assert(lang[0] != "ts"@[0]); }
                assert(lang != "c"@) by { assert(lang[0] != "c"@[0]); }
                assert(lang != "cpp"@) by { assert(lang[0] != "cpp"@[0]); }
                assert(lang != "c++"@) by { assert(lang[0] != "c++"@[0]); }
            },
            CellType::Shell => {
                assert(lang != "rust"@) by { assert(lang[0] != "rust"@[0]); }
                assert(lang != "python"@) by { assert(lang[0] != "python"@[0]); }
                assert(lang != "py"@) by { assert(lang[0] != "py"@[0]); }
                assert(lang != "javascript"@) by { assert(lang[0] != "javascript"@[0]); }
                assert(lang != "js"@) by { assert(lang[0] != "js"@[0]); }
                assert(lang != "typescript"@) by { assert(lang[0] != "typescript"@[0]); }
                assert(lang != "ts"@) by { assert(lang[0] != "ts"@[0]); }
                assert(lang != "c"@) by { assert(lang[0] != "c"@[0]); }
                assert(lang != "cpp"@) by { assert(lang[0] != "cpp"@[0]); }
                assert(lang != "c++"@) by { assert(lang[0] != "c++"@[0]); }
                assert(lang != "go"@) by { assert(lang[0] != "go"@[0]); }
            },
            CellType::Markdown => {},
        }
    }
    assert(plain_line(line)) by {
        assert forall|j: int| 0 <= j < line.len() implies line[j] != '\n' by {
            if j < 3 {
                assert(line[j] == f[j]);
            } else {
                assert(line[j] == lang[j - 3]);
            }
        }
        assert(line.last() == lang.last());
    }
}

proof fn lemma_marked_line(x: Seq<char>)
    requires
        plain_line(x),
    ensures
        !is_fence(">> "@ + x),
        starts_with(">> "@ + x, ">> "@),
        (">> "@ + x).skip(3) == x,
        plain_line(">> "@ + x),
{
    reveal_strlit(">> ");
    reveal_strlit("```");
    let m = ">> "@ + x;
    assert(lead_ws(m) == 0);
    assert(m.skip(0) =~= m);
    assert(m.take(3) =~= ">> "@);
    assert(m.skip(3) =~= x);
    if starts_with(m, "```"@) {
        assert(m.take(3)[0] == "```"@[0]);
    }
    assert forall|j: int| 0 <= j < m.len() implies m[j] != '\n' by {
        if j >= 3 {
            assert(m[j] == x[j - 3]);
        }
    }
    if x.len() > 0 {
        assert(m.last() == x.last());
    }
}

proof fn lemma_cell_lines_plain(c: CellText)
    requires
        cell_fits(c),
    ensures
        forall|k: int| 0 <= k < cell_lines(c).len() ==> plain_line(#[trigger] cell_lines(c)[k]),
{
    lemma_split_plain(c.content);
    reveal_strlit("```");
    if c.kind != CellType::Markdown {
        lemma_fence_line(c.kind);
        let head = seq!["```"@ + lang_of(c.kind)];
        let body = split(c.content, '\n');
        let close = seq!["```"@];
        if c.output.len() > 0 {
            lemma_split_plain(c.output);
        }
        let outs = if c.output.len() == 0 {
            Seq::<Seq<char>>::empty()
        } else {
            marked(split(c.output, '\n'))
        };
        assert forall|k: int| 0 <= k < outs.len() implies plain_line(#[trigger] outs[k]) by {
            lemma_marked_line(split(c.output, '\n')[k]);
        }
        assert forall|k: int| 0 <= k < cell_lines(c).len() implies plain_line(
            #[trigger] cell_lines(c)[k],
        ) by {
            let cl = cell_lines(c);
            assert(cl == head + body + close + outs);
            if k == 0 {
            } else if k < 1 + body.len() {
                assert(cl[k] == body[k - 1]);
            } else if k == 1 + body.len() {
                assert(cl[k] == "```"@);
                assert(plain_line("```"@));
            } else {
                assert(cl[k] == outs[k - 2 - body.len()]);
            }
        }
    }
}

proof fn lemma_md_lines_plain(cells: Seq<CellText>)
    requires
        forall|i: int| 0 <= i < cells.len() ==> cell_fits(#[trigger] cells[i]),
    ensures
        forall|k: int| 0 <= k < md_lines(cells).len() ==> plain_line(#[trigger] md_lines(cells)[k]),
    decreases cells.len(),
{
    if cells.len() > 0 {
        let init = cells.drop_last();
        assert forall|i: int| 0 <= i < init.len() implies cell_fits(#[trigger] init[i]) by {
            assert(init[i] == cells[i]);
        }
        lemma_md_lines_plain(init);
        assert(cell_fits(cells.last()));
        lemma_cell_lines_plain(cells.last());
        let sep = if cells.len() > 1 {
            seq![Seq::<char>::empty()]
        } else {
            Seq::<Seq<char>>::empty()
        };
        let a = md_lines(init);
        let b = cell_lines(cells.last());
        assert(md_lines(cells) == a + sep + b);
        assert forall|k: int| 0 <= k < md_lines(cells).len() implies plain_line(
            #[trigger] md_lines(cells)[k],
        ) by {
            if k < a.len() {
                assert(md_lines(cells)[k] == a[k]);
            } else if k < a.len() + sep.len() {
                assert(md_lines(cells)[k] == sep[k - a.len()]);
            } else {
                assert(md_lines(cells)[k] == b[k - a.len() - sep.len()]);
            }
        }
    }
}

pub open spec fn all_newlines(cur: Seq<char>) -> bool {
    forall|j: int| 0 <= j < cur.len() ==> cur[j] == '\n'
}

/// The parser's pending text before the markdown form of `cells` begins:
/// either only newlines (with the limits that a following markdown cell
/// needs), or markdown text still to be flushed by a following code cell.
pub open spec fn pending_fits(cells: Seq<CellText>, cur: Seq<char>) -> bool {
    ||| {
        &&& all_newlines(cur)
        &&& (cells[0].kind == CellType::Markdown ==> (cur.len() == 0 && cells[0].content[0] != '\n')
            || cur =~= seq!['\n'])
        &&& (cells.len() >= 2 && cells[0].kind != CellType::Markdown && cells[1].kind
            == CellType::Markdown ==> cur.len() == 0)
    }
    ||| {
        &&& cells[0].kind != CellType::Markdown
        &&& trim(cur).len() != 0
    }
}

proof fn lemma_placement_tail(cells: Seq<CellText>)
    requires
        placement_fits(cells),
        cells.len() >= 1,
    ensures
        placement_fits(cells.drop_first()),
{
    let t = cells.drop_first();
    assert forall|i: int|
        0 <= i < t.len() && #[trigger] md_at(t, i) implies {
        &&& (i >= 1 ==> t[i - 1].kind != CellType::Markdown)
        &&& (i >= 2 ==> t[i - 2].kind == CellType::Markdown)
    } by {
        assert(t[i] == cells[i + 1]);
        assert(md_at(cells, i + 1));
        if i >= 1 {
            assert(t[i - 1] == cells[i]);
        }
        if i >= 2 {
            assert(t[i - 2] == cells[i - 1]);
        }
    }
}

#[verifier::spinoff_prover]
#[verifier::rlimit(60)]
proof fn lemma_parse_md_lines(
    ls: Seq<Seq<char>>,
    i: int,
    cells: Seq<CellText>,
    done: Seq<CellText>,
    cur: Seq<char>,
)
    requires
        cells.len() > 0,
        forall|j: int| 0 <= j < cells.len() ==> cell_fits(#[trigger] cells[j]),
        placement_fits(cells),
        pending_fits(cells, cur),
        0 <= i <= ls.len(),
        ls.skip(i) =~= md_lines(cells),
    ensures
        parse_lines(ls, i, done, cur) == flush_cells(done, cur) + cells,
    decreases cells.len(),
{
    reveal_strlit(">> ");
    reveal_strlit("```");
    let c = cells[0];
    assert(cell_fits(c));
    let cl = cell_lines(c);
    let n = cl.len() as int;
    lemma_md_lines_first(cells);
    lemma_split_plain(c.content);
    lemma_unlines_split(c.content);
    let rest_cells = cells.drop_first();
    assert(ls.skip(i).len() == md_lines(cells).len());
    if cells.len() == 1 {
        assert(md_lines(cells).len() == n);
    } else {
        assert(md_lines(cells).len() >= n + 1);
        assert(md_lines(cells)[n] == Seq::<char>::empty());
    }
    assert(forall|t: int| 0 <= t < n ==> ls[i + t] == #[trigger] cl[t]) by {
        assert forall|t: int| 0 <= t < n implies ls[i + t] == #[trigger] cl[t] by {
            assert(ls.skip(i)[t] == ls[i + t]);
            assert(md_lines(cells)[t] == cl[t]);
        }
    }
    if cells.len() == 1 {
        assert(i + n == ls.len());
    } else {
        assert(ls[i + n] == Seq::<char>::empty()) by {
            assert(ls.skip(i)[n] == ls[i + n]);
        }
        lemma_placement_tail(cells);
        assert forall|j: int| 0 <= j < rest_cells.len() implies cell_fits(#[trigger] rest_cells[j]) by {
            assert(rest_cells[j] == cells[j + 1]);
        }
        assert(ls.skip(i + n + 1) =~= md_lines(rest_cells)) by {
            assert forall|t: int| 0 <= t < ls.skip(i + n + 1).len() implies ls.skip(i + n + 1)[t]
                == md_lines(rest_cells)[t] by {
                assert(ls.skip(i + n + 1)[t] == ls.skip(i)[n + 1 + t]);
            }
        }
    }
    let body = split(c.content, '\n');
    let b = body.len() as int;
    if c.kind == CellType::Markdown {
        // the markdown text is read line by line into the pending text
        assert(pending_fits(cells, cur));
        assert(all_newlines(cur));
        lemma_blank_newlines(cur);
        assert forall|t: int| i <= t < i + n implies !is_fence(#[trigger] ls[t]) by {
            assert(ls[t] == cl[t - i]);
        }
        lemma_text_run(ls, i, n, done, cur);
        assert(ls.subrange(i, i + n) =~= cl);
        let cur2 = cur + c.content + seq!['\n'];
        assert(cur + unlines(ls.subrange(i, i + n)) =~= cur2);
        // the markdown cell holds a character that is not whitespace
        crate::text::lemma_trim_empty(c.content);
        lemma_lead_ws_bound(c.content);
        let w = lead_ws(c.content) as int;
        assert(cur2[cur.len() + w] == c.content[w]);
        lemma_nonblank(cur2, cur.len() + w);
        assert(flush_cells(done, cur) == done);
        let body_text = if cur.len() == 0 {
            assert(cur2 =~= c.content + seq!['\n']);
            assert(c.content[0] != '\n');
            assert(strip_nl(cur2) == cur2);
            cur2
        } else {
            assert(cur =~= seq!['\n']);
            assert(strip_nl(cur2) =~= c.content + seq!['\n']);
            c.content + seq!['\n']
        };
        assert(strip_nl(cur2) =~= c.content + seq!['\n']);
        lemma_trim_end_nl(c.content);
        assert(c.output =~= Seq::<char>::empty());
        assert(md_cell(c.content) == c);
        if cells.len() == 1 {
            assert(flush_cells(done, cur2) == done.push(c));
            assert(parse_lines(ls, i + n, done, cur2) == done.push(c));
            assert(done.push(c) =~= done + cells);
        } else {
            // the blank line between cells joins the pending text
            assert(!is_fence(ls[i + n])) by {
                assert(lead_ws(Seq::<char>::empty()) == 0);
            }
            let cur3 = cur2 + ls[i + n] + seq!['\n'];
            assert(parse_lines(ls, i + n, done, cur2) == parse_lines(ls, i + n + 1, done, cur3));
            assert(cur3 =~= cur2 + seq!['\n']);
            assert(cur3[cur.len() + w] == c.content[w]);
            lemma_nonblank(cur3, cur.len() + w);
            assert(rest_cells[0] == cells[1]);
            assert(cells[1].kind != CellType::Markdown) by {
                if cells[1].kind == CellType::Markdown {
                    assert(md_at(cells, 1));
                }
            }
            lemma_parse_md_lines(ls, i + n + 1, rest_cells, done, cur3);
            assert(strip_nl(cur3) =~= c.content + seq!['\n'] + seq!['\n']);
            lemma_trim_end_nl(c.content + seq!['\n']);
            assert(flush_cells(done, cur3) == done.push(c));
            assert(done.push(c) + rest_cells =~= done + cells);
        }
    } else {
        // a fenced code block, then its output lines
        lemma_fence_line(c.kind);
        let o = if c.output.len() == 0 { 0 } else { split(c.output, '\n').len() as int };
        let outs = if c.output.len() == 0 {
            Seq::<Seq<char>>::empty()
        } else {
            marked(split(c.output, '\n'))
        };
        assert(cl == seq!["```"@ + lang_of(c.kind)] + body + seq!["```"@] + outs);
        assert(n == b + 2 + o);
        assert(cl[0] == "```"@ + lang_of(c.kind));
        assert(ls[i + 0] == cl[0]);
        assert(ls[i] == "```"@ + lang_of(c.kind));
        assert(is_fence(ls[i]));
        // the code block
        assert forall|t: int| i + 1 <= t < i + 1 + b implies !is_fence(#[trigger] ls[t]) by {
            assert(ls[t] == cl[t - i]);
            assert(cl[t - i] == body[t - i - 1]);
            assert(no_fence_line(c.content));
        }
        assert(ls[i + 1 + b] == "```"@) by {
            assert(cl[1 + b] == "```"@);
        }
        assert(is_fence("```"@)) by {
            assert(lead_ws("```"@) == 0);
            assert("```"@.skip(0) =~= "```"@);
            assert("```"@.take(3) =~= "```"@);
        }
        lemma_code_end_run(ls, i + 1, b);
        assert(code_end(ls, i + 1) == i + 1 + b);
        assert(after_block(ls, i) == i + 2 + b);
        let a = i + 2 + b;
        // the output lines
        if c.output.len() > 0 {
            lemma_split_plain(c.output);
        }
        assert forall|t: int| a <= t < a + o implies starts_with(#[trigger] ls[t], ">> "@) by {
            assert(ls[t] == cl[t - i]);
            assert(cl[t - i] == outs[t - a]);
            lemma_marked_line(split(c.output, '\n')[t - a]);
        }
        if a + o < ls.len() {
            assert(a + o == i + n);
            assert(!starts_with(ls[a + o], ">> "@));
        }
        lemma_out_end_run(ls, a, o);
        assert(out_end(ls, a) == i + n);
        // the cell read back
        assert(ls.subrange(i + 1, i + 1 + b) =~= body) by {
            assert forall|t: int| 0 <= t < b implies ls.subrange(i + 1, i + 1 + b)[t] == body[t] by {
                assert(ls[i + 1 + t] == cl[1 + t]);
            }
        }
        lemma_trim_end_nl(c.content);
        let ol = out_lines(ls, a, a + o);
        if c.output.len() > 0 {
            assert(ol =~= split(c.output, '\n')) by {
                assert forall|t: int| 0 <= t < o implies ol[t] == split(c.output, '\n')[t] by {
                    assert(ls[a + t] == cl[2 + b + t]);
                    assert(cl[2 + b + t] == outs[t]);
                    lemma_marked_line(split(c.output, '\n')[t]);
                }
            }
            lemma_unlines_split(c.output);
            lemma_trim_end_nl(c.output);
        } else {
            assert(ol =~= Seq::<Seq<char>>::empty());
            assert(unlines(ol) =~= Seq::<char>::empty());
            assert(trim_end(Seq::<char>::empty()) =~= c.output);
        }
        assert(code_cell(ls, i) =~= c);
        let done2 = flush_cells(done, cur).push(c);
        let cur2 = flush_text(cur);
        assert(parse_lines(ls, i, done, cur) == parse_lines(ls, i + n, done2, cur2));
        assert(all_newlines(cur2)) by {
            if trim(cur).len() != 0 {
                assert(cur2 =~= Seq::<char>::empty());
            } else {
                assert(all_newlines(cur));
            }
        }
        lemma_blank_newlines(cur2);
        if cells.len() == 1 {
            assert(flush_cells(done2, cur2) == done2);
            assert(done2 =~= flush_cells(done, cur) + cells);
        } else {
            assert(!is_fence(ls[i + n])) by {
                assert(lead_ws(Seq::<char>::empty()) == 0);
            }
            let cur3 = cur2 + ls[i + n] + seq!['\n'];
            assert(cur3 =~= cur2 + seq!['\n']);
            assert(parse_lines(ls, i + n, done2, cur2) == parse_lines(ls, i + n + 1, done2, cur3));
            assert(rest_cells[0] == cells[1]);
            assert(pending_fits(rest_cells, cur3)) by {
                assert(all_newlines(cur3));
                if cells[1].kind == CellType::Markdown {
                    if trim(cur).len() == 0 {
                        assert(cur.len() == 0);
                    }
                    assert(cur2.len() == 0);
                    assert(cur3 =~= seq!['\n']);
                }
                if cells.len() >= 3 && cells[1].kind != CellType::Markdown && cells[2].kind
                    == CellType::Markdown {
                    assert(md_at(cells, 2));
                }
            }
            lemma_parse_md_lines(ls, i + n + 1, rest_cells, done2, cur3);
            lemma_blank_newlines(cur3);
            assert(flush_cells(done2, cur3) == done2);
            assert(done2 + rest_cells =~= flush_cells(done, cur) + cells);
        }
    }
}

/// A notebook written in its markdown form reads back as the same cells
/// (content, output and type of each, in order), as long as it fits the
/// form: see `fits_markdown`.
pub proof fn lemma_markdown_roundtrip(cells: Seq<CellText>)
    requires
        fits_markdown(cells),
    ensures
        parse_spec(to_md(cells)) == cells,
{
    lemma_to_md_lines(cells);
    lemma_md_lines_plain(cells);
    lemma_lines_unlines(md_lines(cells));
    let ls = md_lines(cells);
    assert(ls.skip(0) =~= ls);
    lemma_parse_md_lines(ls, 0, cells, seq![], seq![]);
    crate::text::lemma_trim_empty(Seq::<char>::empty());
    assert(flush_cells(seq![], seq![]) =~= Seq::<CellText>::empty());
    assert(Seq::<CellText>::empty() + cells =~= cells);
}

proof fn lemma_tag_table()
    ensures
        tag_kind("js"@) == CellType::JavaScript,
        tag_kind("javascript"@) == CellType::JavaScript,
        tag_kind("ts"@) == CellType::TypeScript,
        tag_kind("typescript"@) == CellType::TypeScript,
        tag_kind("py"@) == CellType::Python,
        tag_kind("python"@) == CellType::Python,
        tag_kind("cpp"@) == CellType::Cpp,
        tag_kind("c++"@) == CellType::Cpp,
        tag_kind("rust"@) == CellType::Rust,
        tag_kind("c"@) == CellType::C,
        tag_kind("go"@) == CellType::Go,
        tag_kind("sh"@) == CellType::Shell,
        tag_kind("bash"@) == CellType::Shell,
{
    reveal_strlit("js");
    reveal_strlit("javascript");
    reveal_strlit("ts");
    reveal_strlit("typescript");
    reveal_strlit("py");
    reveal_strlit("python");
    reveal_strlit("cpp");
    reveal_strlit("c++");
    reveal_strlit("rust");
    reveal_strlit("c");
    reveal_strlit("go");
    reveal_strlit("sh");
    reveal_strlit("bash");
    assert("js"@ =~= seq!['j', 's']);
    assert("javascript"@ =~= seq!['j', 'a', 'v', 'a', 's', 'c', 'r', 'i', 'p', 't']);
    assert("ts"@ =~= seq!['t', 's']);
    assert("typescript"@ =~= seq!['t', 'y', 'p', 'e', 's', 'c', 'r', 'i', 'p', 't']);
    assert("py"@ =~= seq!['p', 'y']);
    assert("python"@ =~= seq!['p', 'y', 't', 'h', 'o', 'n']);
    assert("cpp"@ =~= seq!['c', 'p', 'p']);
    assert("c++"@ =~= seq!['c', '+', '+']);
    assert("rust"@ =~= seq!['r', 'u', 's', 't']);
    assert("c"@ =~= seq!['c']);
    assert("go"@ =~= seq!['g', 'o']);
    assert("sh"@ =~= seq!['s', 'h']);
    assert("bash"@ =~= seq!['b', 'a', 's', 'h']);
    assert("js"@[0] != "py"@[0]);
    assert("ts"@[0] != "py"@[0] && "ts"@[0] != "js"@[0]);
    assert("go"@[0] != "py"@[0] && "go"@[0] != "js"@[0] && "go"@[0] != "ts"@[0]);
    assert("sh"@[0] != "py"@[0] && "sh"@[0] != "js"@[0] && "sh"@[0] != "ts"@[0] && "sh"@[0] != "go"@[0]);
    assert("javascript"@[0] != "typescript"@[0]);
    assert("cpp"@[1] != "c++"@[1]);
    assert("bash"@[0] != "rust"@[0]);
    assert("typescript"@[0] != "javascript"@[0]);
}

/// Reading keeps the cells read so far: they stay, in order, at the front.
proof fn lemma_parse_keeps_read(ls: Seq<Seq<char>>, i: int, cells: Seq<CellText>, cur: Seq<char>)
    ensures
        parse_lines(ls, i, cells, cur).len() >= cells.len(),
        forall|j: int| 0 <= j < cells.len() ==> #[trigger] parse_lines(ls, i, cells, cur)[j] == cells[j],
    decreases ls.len() - i,
{
    if i < 0 || i >= ls.len() {
    } else if is_fence(ls[i]) {
        crate::markdown::lemma_code_end_bound(ls, i + 1);
        crate::markdown::lemma_out_end_bound(ls, after_block(ls, i));
        let next = flush_cells(cells, cur).push(code_cell(ls, i));
        lemma_parse_keeps_read(ls, out_end(ls, after_block(ls, i)), next, flush_text(cur));
        assert forall|j: int| 0 <= j < cells.len() implies next[j] == cells[j] by {}
    } else {
        lemma_parse_keeps_read(ls, i + 1, cells, cur + ls[i] + seq!['\n']);
    }
}

/// A notebook text that opens with a fenced block reads that block first,
/// as a cell of the language its tag names, in every spelling the reader
/// knows: `js` and `javascript`, `ts` and `typescript`, `py` and `python`,
/// `cpp` and `c++`, `rust`, `c` and `go`; any other tag gives a shell cell.
pub proof fn law_fence_tags_name_languages(s: Seq<char>)
    requires
        lines(s).len() > 0,
        is_fence(lines(s)[0]),
    ensures
        ({
            let t = fence_tag(lines(s)[0]);
            let k = parse_spec(s)[0].kind;
            &&& (t == "js"@ || t == "javascript"@) ==> k == CellType::JavaScript
            &&& (t == "ts"@ || t == "typescript"@) ==> k == CellType::TypeScript
            &&& (t == "py"@ || t == "python"@) ==> k == CellType::Python
            &&& (t == "cpp"@ || t == "c++"@) ==> k == CellType::Cpp
            &&& t == "rust"@ ==> k == CellType::Rust
            &&& t == "c"@ ==> k == CellType::C
            &&& t == "go"@ ==> k == CellType::Go
            &&& t == "sh"@ ==> k == CellType::Shell
            &&& t == "bash"@ ==> k == CellType::Shell
        }),
{
    let ls = lines(s);
    crate::markdown::lemma_code_end_bound(ls, 1);
    crate::markdown::lemma_out_end_bound(ls, after_block(ls, 0));
    assert(trim(Seq::<char>::empty()).len() == 0) by {
        crate::text::lemma_trim_empty(Seq::<char>::empty());
    }
    assert(flush_cells(seq![], seq![]) =~= Seq::<CellText>::empty());
    let first = Seq::<CellText>::empty().push(code_cell(ls, 0));
    lemma_parse_keeps_read(ls, out_end(ls, after_block(ls, 0)), first, flush_text(seq![]));
    assert(parse_spec(s)[0] == code_cell(ls, 0));
    lemma_tag_table();
    assert(parse_spec(s)[0].kind == tag_kind(fence_tag(ls[0])));
}

} // verus!
