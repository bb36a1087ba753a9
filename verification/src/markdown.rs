//! The markdown form of a notebook: code cells are fenced blocks, their
//! output follows as `>> ` lines, and everything else is markdown text.
use vstd::prelude::*;
use crate::ids::{hyphenated_uuid, new_cell_id};
use crate::notebook::{Cell, CellText, CellType, texts};
use crate::text::{
    chars_of, equals_str, is_blank, lemma_unlines_push, lemma_unlines_snoc, lines, lines_of,
    push_all, push_str, slice_of, starts_with, starts_with_str, string_of, strip_prefixes, strip_prefixes_vec,
    trim, trim_end, trim_start, trimmed, trimmed_end, trimmed_start, unlines, views,
};

verus! {

// ---------------------------------------------------------------------------
// Specification of the parser
// ---------------------------------------------------------------------------

/// A line that opens or closes a code block.
pub open spec fn is_fence(line: Seq<char>) -> bool {
    starts_with(trim_start(line), "```"@)
}

/// The language tag written after an opening fence.
pub open spec fn fence_tag(line: Seq<char>) -> Seq<char> {
    trim(strip_prefixes(trim_start(line), "```"@))
}

/// The cell type a fence tag names; an unknown or missing tag is a shell cell.
pub open spec fn tag_kind(tag: Seq<char>) -> CellType {
    if tag == "rust"@ {
        CellType::Rust
    } else if tag == "python"@ || tag == "py"@ {
        CellType::Python
    } else if tag == "javascript"@ || tag == "js"@ {
        CellType::JavaScript
    } else if tag == "typescript"@ || tag == "ts"@ {
        CellType::TypeScript
    } else if tag == "c"@ {
        CellType::C
    } else if tag == "cpp"@ || tag == "c++"@ {
        CellType::Cpp
    } else if tag == "go"@ {
        CellType::Go
    } else {
        CellType::Shell
    }
}

/// Index of the first fence at or after `j`, or the number of lines.
pub open spec fn code_end(ls: Seq<Seq<char>>, j: int) -> int
    decreases ls.len() - j,
{
    if j < 0 || j >= ls.len() {
        ls.len() as int
    } else if is_fence(ls[j]) {
        j
    } else {
        code_end(ls, j + 1)
    }
}

/// Index of the first line at or after `j` that is not an output line.
pub open spec fn out_end(ls: Seq<Seq<char>>, j: int) -> int
    decreases ls.len() - j,
{
    if j < 0 || j >= ls.len() {
        ls.len() as int
    } else if starts_with(ls[j], ">> "@) {
        out_end(ls, j + 1)
    } else {
        j
    }
}

/// The output lines `ls[a..b]` without their `>> ` marker.
pub open spec fn out_lines(ls: Seq<Seq<char>>, a: int, b: int) -> Seq<Seq<char>> {
    ls.subrange(a, b).map_values(|l: Seq<char>| l.skip(3))
}

/// `cur` without one leading newline.
pub open spec fn strip_nl(cur: Seq<char>) -> Seq<char> {
    if cur.len() > 0 && cur[0] == '\n' {
        cur.drop_first()
    } else {
        cur
    }
}

pub open spec fn md_cell(content: Seq<char>) -> CellText {
    CellText { content, output: seq![], kind: CellType::Markdown }
}

/// Pending markdown text becomes a cell when it holds more than whitespace;
/// whitespace alone stays pending.
pub open spec fn flush_cells(cells: Seq<CellText>, cur: Seq<char>) -> Seq<CellText> {
    if trim(cur).len() != 0 {
        cells.push(md_cell(trim_end(strip_nl(cur))))
    } else {
        cells
    }
}

pub open spec fn flush_text(cur: Seq<char>) -> Seq<char> {
    if trim(cur).len() != 0 {
        seq![]
    } else {
        cur
    }
}

pub proof fn lemma_code_end_bound(ls: Seq<Seq<char>>, j: int)
    requires
        0 <= j,
    ensures
        j <= code_end(ls, j) || j > ls.len(),
        code_end(ls, j) <= ls.len(),
    decreases ls.len() - j,
{
    if j < ls.len() && !is_fence(ls[j]) {
        lemma_code_end_bound(ls, j + 1);
    }
}

pub proof fn lemma_out_end_bound(ls: Seq<Seq<char>>, j: int)
    requires
        0 <= j <= ls.len(),
    ensures
        j <= out_end(ls, j) <= ls.len(),
    decreases ls.len() - j,
{
    if j < ls.len() && starts_with(ls[j], ">> "@) {
        lemma_out_end_bound(ls, j + 1);
    }
}

/// Line index after the code block that a fence at `i` opens, with its
/// closing fence consumed when there is one.
pub open spec fn after_block(ls: Seq<Seq<char>>, i: int) -> int {
    let k = code_end(ls, i + 1);
    if k < ls.len() {
        k + 1
    } else {
        k
    }
}

/// The code cell that a fence at line `i` opens.
pub open spec fn code_cell(ls: Seq<Seq<char>>, i: int) -> CellText {
    let k = code_end(ls, i + 1);
    let a = after_block(ls, i);
    CellText {
        content: trim_end(unlines(ls.subrange(i + 1, k))),
        output: trim_end(unlines(out_lines(ls, a, out_end(ls, a)))),
        kind: tag_kind(fence_tag(ls[i])),
    }
}

/// The cells read from lines `ls[i..]`, given the cells read so far and the
/// pending markdown text.
pub open spec fn parse_lines(
    ls: Seq<Seq<char>>,
    i: int,
    cells: Seq<CellText>,
    cur: Seq<char>,
) -> Seq<CellText>
    decreases ls.len() - i,
{
    if i < 0 || i >= ls.len() {
        let done = flush_cells(cells, cur);
        if done.len() == 0 {
            seq![CellText { content: seq![], output: seq![], kind: CellType::Shell }]
        } else {
            done
        }
    } else if is_fence(ls[i]) {
        proof {
            lemma_code_end_bound(ls, i + 1);
            lemma_out_end_bound(ls, after_block(ls, i));
        }
        parse_lines(
            ls,
            out_end(ls, after_block(ls, i)),
            flush_cells(cells, cur).push(code_cell(ls, i)),
            flush_text(cur),
        )
    } else {
        parse_lines(ls, i + 1, cells, cur + ls[i] + seq!['\n'])
    }
}

/// Reading always gives at least one cell.
pub proof fn lemma_parse_lines_nonempty(
    ls: Seq<Seq<char>>,
    i: int,
    cells: Seq<CellText>,
    cur: Seq<char>,
)
    ensures
        parse_lines(ls, i, cells, cur).len() >= 1,
    decreases ls.len() - i,
{
    if i < 0 || i >= ls.len() {
    } else if is_fence(ls[i]) {
        lemma_code_end_bound(ls, i + 1);
        lemma_out_end_bound(ls, after_block(ls, i));
        lemma_parse_lines_nonempty(
            ls,
            out_end(ls, after_block(ls, i)),
            flush_cells(cells, cur).push(code_cell(ls, i)),
            flush_text(cur),
        );
    } else {
        lemma_parse_lines_nonempty(ls, i + 1, cells, cur + ls[i] + seq!['\n']);
    }
}

/// The cells that the markdown text `s` holds.
pub open spec fn parse_spec(s: Seq<char>) -> Seq<CellText> {
    parse_lines(lines(s), 0, seq![], seq![])
}

// ---------------------------------------------------------------------------
// Specification of the writer
// ---------------------------------------------------------------------------

/// The fence tag written for a cell type.
pub open spec fn lang_of(k: CellType) -> Seq<char> {
    match k {
        CellType::Rust => "rust"@,
        CellType::Python => "python"@,
        CellType::JavaScript => "javascript"@,
        CellType::TypeScript => "typescript"@,
        CellType::C => "c"@,
        CellType::Cpp => "cpp"@,
        CellType::Go => "go"@,
        CellType::Shell => "bash"@,
        CellType::Markdown => "markdown"@,
    }
}

/// Each line of an output, marked with `>> `.
pub open spec fn marked(ls: Seq<Seq<char>>) -> Seq<Seq<char>> {
    ls.map_values(|l: Seq<char>| ">> "@ + l)
}

/// The markdown written for one cell.
pub open spec fn cell_md(c: CellText) -> Seq<char> {
    if c.kind == CellType::Markdown {
        c.content + seq!['\n']
    } else {
        "```"@ + lang_of(c.kind) + seq!['\n'] + c.content
            + (if c.content.len() > 0 && c.content.last() == '\n' { seq![] } else { seq!['\n'] })
            + "```\n"@
            + (if c.output.len() == 0 { seq![] } else { unlines(marked(lines(c.output))) })
    }
}

/// The markdown written for a sequence of cells: one blank line between cells.
pub open spec fn to_md(cells: Seq<CellText>) -> Seq<char>
    decreases cells.len(),
{
    if cells.len() == 0 {
        seq![]
    } else {
        to_md(cells.drop_last()) + (if cells.len() > 1 { seq!['\n'] } else { seq![] })
            + cell_md(cells.last())
    }
}

// ---------------------------------------------------------------------------
// Exec
// ---------------------------------------------------------------------------

fn is_fence_line(line: &Vec<char>) -> (b: bool)
    ensures
        b == is_fence(line@),
{
    let ts = trimmed_start(line);
    starts_with_str(&ts, "```")
}

fn kind_of_tag(tag: &Vec<char>) -> (k: CellType)
    ensures
        k == tag_kind(tag@),
{
    if equals_str(tag, "rust") {
        CellType::Rust
    } else if equals_str(tag, "python") || equals_str(tag, "py") {
        CellType::Python
    } else if equals_str(tag, "javascript") || equals_str(tag, "js") {
        CellType::JavaScript
    } else if equals_str(tag, "typescript") || equals_str(tag, "ts") {
        CellType::TypeScript
    } else if equals_str(tag, "c") {
        CellType::C
    } else if equals_str(tag, "cpp") || equals_str(tag, "c++") {
        CellType::Cpp
    } else if equals_str(tag, "go") {
        CellType::Go
    } else {
        CellType::Shell
    }
}

fn tag_of_fence(line: &Vec<char>) -> (t: Vec<char>)
    ensures
        t@ == fence_tag(line@),
{
    let ts = trimmed_start(line);
    let fence = chars_of("```");
    proof { reveal_strlit("```"); }
    let stripped = strip_prefixes_vec(&ts, &fence);
    trimmed(&stripped)
}

/// Turns pending markdown text into a cell when it holds more than whitespace.
fn flush(cells: &mut Vec<Cell>, cur: &mut Vec<char>)
    requires
        forall|k: int| 0 <= k < old(cells).len() ==> old(cells)@[k].polling_interval is None
            && old(cells)@[k].last_run is None && hyphenated_uuid(old(cells)@[k].id@),
    ensures
        forall|k: int| 0 <= k < final(cells).len() ==> final(cells)@[k].polling_interval is None
            && final(cells)@[k].last_run is None && hyphenated_uuid(final(cells)@[k].id@),
        texts(final(cells)@) == flush_cells(texts(old(cells)@), old(cur)@),
        final(cur)@ == flush_text(old(cur)@),
{
    if !is_blank(cur) {
        let body = if cur.len() > 0 && cur[0] == '\n' {
            slice_of(cur, 1, cur.len())
        } else {
            slice_of(cur, 0, cur.len())
        };
        assert(body@ =~= strip_nl(old(cur)@));
        let content = trimmed_end(&body);
        let ghost old_cells = cells@;
        cells.push(
            Cell {
                id: new_cell_id(),
                content: string_of(&content),
                output: String::new(),
                cell_type: CellType::Markdown,
                polling_interval: None,
                last_run: None,
            },
        );
        assert(texts(cells@) =~= texts(old_cells).push(md_cell(trim_end(strip_nl(old(cur)@)))));
        *cur = Vec::new();
    }
}

/// Reads a notebook from its markdown form. Code blocks become code cells
/// (their `>> ` lines become the output), other text becomes markdown cells,
/// and a text with no cell gives one empty shell cell. Every cell gets a
/// fresh identifier and no polling.
pub fn parse_markdown(content: &str) -> (cells: Vec<Cell>)
    ensures
        texts(cells@) == parse_spec(content@),
        cells.len() >= 1,
        forall|i: int| 0 <= i < cells.len() ==> cells@[i].polling_interval is None
            && cells@[i].last_run is None && hyphenated_uuid(cells@[i].id@),
{
    let text = chars_of(content);
    let ls = lines_of(&text);
    proof { lemma_parse_lines_nonempty(lines(content@), 0, seq![], seq![]); }
    let ghost l = views(ls@);
    let mut cells: Vec<Cell> = Vec::new();
    let mut cur: Vec<char> = Vec::new();
    let mut i: usize = 0;
    assert(texts(cells@) =~= Seq::<CellText>::empty());
    while i < ls.len()
        invariant
            l == views(ls@),
            l.len() == ls.len(),
            i <= ls.len(),
            parse_spec(content@) == parse_lines(l, i as int, texts(cells@), cur@),
            forall|k: int| 0 <= k < cells.len() ==> cells@[k].polling_interval is None
                && cells@[k].last_run is None && hyphenated_uuid(cells@[k].id@),
        decreases ls.len() - i,
    {
        assert(ls@[i as int]@ == l[i as int]);
        if is_fence_line(&ls[i]) {
            let ghost before = texts(cells@);
            let ghost cur0 = cur@;
            flush(&mut cells, &mut cur);
            let tag = tag_of_fence(&ls[i]);
            let kind = kind_of_tag(&tag);
            let mut code: Vec<char> = Vec::new();
            let mut j = i + 1;
            assert(l.subrange(i + 1, j as int) =~= Seq::<Seq<char>>::empty());
            while j < ls.len() && !is_fence_line(&ls[j])
                invariant
                    l == views(ls@),
                    l.len() == ls.len(),
                    i < j <= ls.len(),
                    code@ == unlines(l.subrange(i + 1, j as int)),
                    code_end(l, i + 1) == code_end(l, j as int),
                decreases ls.len() - j,
            {
                assert(ls@[j as int]@ == l[j as int]);
                proof { lemma_unlines_snoc(l, i + 1, j as int); }
                push_all(&mut code, &ls[j]);
                code.push('\n');
                j = j + 1;
            }
            assert(code_end(l, i + 1) == j);
            let after = if j < ls.len() { j + 1 } else { j };
            let mut out: Vec<char> = Vec::new();
            let mut e = after;
            assert(out_lines(l, after as int, e as int) =~= Seq::<Seq<char>>::empty());
            while e < ls.len() && starts_with_str(&ls[e], ">> ")
                invariant
                    l == views(ls@),
                    l.len() == ls.len(),
                    after <= e <= ls.len(),
                    out@ == unlines(out_lines(l, after as int, e as int)),
                    out_end(l, after as int) == out_end(l, e as int),
                decreases ls.len() - e,
            {
                assert(ls@[e as int]@ == l[e as int]);
                proof {
                    reveal_strlit(">> ");
                    lemma_unlines_push(out_lines(l, after as int, e as int), l[e as int].skip(3));
                    assert(out_lines(l, after as int, e as int + 1) =~= out_lines(
                        l,
                        after as int,
                        e as int,
                    ).push(l[e as int].skip(3)));
                }
                let rest = slice_of(&ls[e], 3, ls[e].len());
                push_all(&mut out, &rest);
                out.push('\n');
                e = e + 1;
            }
            assert(out_end(l, after as int) == e);
            let code_t = trimmed_end(&code);
            let out_t = trimmed_end(&out);
            let ghost mid = texts(cells@);
            cells.push(
                Cell {
                    id: new_cell_id(),
                    content: string_of(&code_t),
                    output: string_of(&out_t),
                    cell_type: kind,
                    polling_interval: None,
                    last_run: None,
                },
            );
            assert(texts(cells@) =~= mid.push(code_cell(l, i as int)));
            assert(after as int == after_block(l, i as int));
            assert(parse_lines(l, i as int, before, cur0) == parse_lines(
                l,
                e as int,
                flush_cells(before, cur0).push(code_cell(l, i as int)),
                flush_text(cur0),
            ));
            i = e;
        } else {
            let ghost cur0 = cur@;
            push_all(&mut cur, &ls[i]);
            cur.push('\n');
            assert(cur@ =~= cur0 + l[i as int] + seq!['\n']);
            i = i + 1;
        }
    }
    let ghost before = texts(cells@);
    flush(&mut cells, &mut cur);
    if cells.len() == 0 {
        cells.push(
            Cell {
                id: new_cell_id(),
                content: String::new(),
                output: String::new(),
                cell_type: CellType::Shell,
                polling_interval: None,
                last_run: None,
            },
        );
        assert(texts(cells@) =~= seq![
            CellText { content: seq![], output: seq![], kind: CellType::Shell },
        ]);
    }
    cells
}

/// The fence tag written for a cell type.
pub fn lang_name(k: CellType) -> (s: &'static str)
    ensures
        s@ == lang_of(k),
{
    match k {
        CellType::Rust => "rust",
        CellType::Python => "python",
        CellType::JavaScript => "javascript",
        CellType::TypeScript => "typescript",
        CellType::C => "c",
        CellType::Cpp => "cpp",
        CellType::Go => "go",
        CellType::Shell => "bash",
        CellType::Markdown => "markdown",
    }
}

fn push_cell_md(out: &mut Vec<char>, cell: &Cell)
    ensures
        final(out)@ == old(out)@ + cell_md(cell.text()),
{
    let content = chars_of(cell.content.as_str());
    if cell.cell_type == CellType::Markdown {
        push_all(out, &content);
        out.push('\n');
        assert(out@ =~= old(out)@ + cell_md(cell.text()));
        return;
    }
    push_str(out, "```");
    push_str(out, lang_name(cell.cell_type));
    out.push('\n');
    push_all(out, &content);
    if !(content.len() > 0 && content[content.len() - 1] == '\n') {
        out.push('\n');
    }
    push_str(out, "```\n");
    let ghost head = out@;
    let output = chars_of(cell.output.as_str());
    if output.len() > 0 {
        let ls = lines_of(&output);
        let ghost l = views(ls@);
        let mut k: usize = 0;
        assert(marked(l.take(0)) =~= Seq::<Seq<char>>::empty());
        while k < ls.len()
            invariant
                l == views(ls@),
                l.len() == ls.len(),
                k <= ls.len(),
                out@ == head + unlines(marked(l.take(k as int))),
            decreases ls.len() - k,
        {
            proof {
                lemma_unlines_push(marked(l.take(k as int)), ">> "@ + l[k as int]);
                assert(marked(l.take(k as int + 1)) =~= marked(l.take(k as int)).push(
                    ">> "@ + l[k as int],
                ));
            }
            assert(ls@[k as int]@ == l[k as int]);
            push_str(out, ">> ");
            push_all(out, &ls[k]);
            out.push('\n');
            k = k + 1;
        }
        assert(l.take(ls.len() as int) =~= l);
    }
    assert(out@ =~= old(out)@ + cell_md(cell.text()));
}

/// Writes a notebook in its markdown form: markdown cells as they are, code
/// cells as fenced blocks followed by their output lines marked `>> `, and
/// one blank line between cells.
pub fn to_markdown(cells: &[Cell]) -> (output: String)
    ensures
        output@ == to_md(texts(cells@)),
{
    let mut out: Vec<char> = Vec::new();
    let mut i: usize = 0;
    assert(texts(cells@.take(0)) =~= Seq::<CellText>::empty());
    while i < cells.len()
        invariant
            i <= cells.len(),
            out@ == to_md(texts(cells@.take(i as int))),
        decreases cells.len() - i,
    {
        let ghost before = out@;
        assert(texts(cells@.take(i as int + 1)).drop_last() =~= texts(cells@.take(i as int)));
        assert(texts(cells@.take(i as int + 1)).last() == cells@[i as int].text());
        if i > 0 {
            out.push('\n');
        }
        push_cell_md(&mut out, &cells[i]);
        assert(out@ =~= to_md(texts(cells@.take(i as int + 1))));
        i = i + 1;
    }
    assert(cells@.take(cells.len() as int) =~= cells@);
    string_of(&out)
}

} // verus!
