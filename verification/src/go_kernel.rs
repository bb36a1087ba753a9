//! How the Go cells of a notebook are assembled into one program.
use vstd::prelude::*;
use crate::kernel::strs;
use crate::pattern::{
    Pattern, compile, group1_all, is_match, opt_views, regex_compiles, regex_group1,
    regex_is_match, regex_replace, regex_replace_all, replace_all, replace_first,
};
use crate::text::{
    chars_of, contains, ends_with, contains_str, contains_vec, decimal, decimal_of, equals_vec, find,
    find_vec, lemma_find_bound, lines, lines_of, push_all, push_str, replace, replace_str, replace_vec,
    slice_of, starts_with, starts_with_str, starts_with_vec, string_of, trim, trimmed, views,
    rfind_char, rfind_char_vec,
};

verus! {

/// A `main` function in Go.
pub const GO_MAIN: &'static str = "(?m)func\\s+main\\s*\\(";

/// A `package main` clause.
pub const GO_PACKAGE: &'static str = "(?m)^package\\s+main\\s*";

/// A one-line import; group 1 is the path.
pub const GO_IMPORT_ONE: &'static str = "(?m)^import\\s+\"([^\"]+)\"";

/// A parenthesised import block; group 1 is its body.
pub const GO_IMPORT_BLOCK: &'static str = "(?m)^import\\s+\\(([^)]+)\\)";

/// Input support for every assembled Go program.
pub const GO_INPUT_SUPPORT: &'static str = r#"
func input() string {
    tempDir := os.TempDir()
    reqPath := filepath.Join(tempDir, "newt_web_input_req")
    resPath := filepath.Join(tempDir, "newt_web_input_res")

    if _, err := os.Stat(resPath); err == nil {
        os.Remove(resPath)
    }

    if err := ioutil.WriteFile(reqPath, []byte(""), 0644); err == nil {
        for {
            if _, err := os.Stat(resPath); err == nil {
                break
            }
            time.Sleep(100 * time.Millisecond)
        }
        
        if content, err := ioutil.ReadFile(resPath); err == nil {
            os.Remove(reqPath)
            os.Remove(resPath)
            return string(content)
        }
    }
    return ""
}

type NewtInputReader struct {
    buffer string
    pos    int
}

func (r *NewtInputReader) Read(p []byte) (n int, err error) {
    if r.pos >= len(r.buffer) {
        r.buffer = input() + "\n"
        r.pos = 0
    }
    n = copy(p, r.buffer[r.pos:])
    r.pos += n
    return n, nil
}

var newtStdin = &NewtInputReader{}

func newt_scan(a ...interface{}) (n int, err error) {
    return fmt.Fscan(newtStdin, a...)
}

func newt_scanln(a ...interface{}) (n int, err error) {
    return fmt.Fscanln(newtStdin, a...)
}

func newt_scanf(format string, a ...interface{}) (n int, err error) {
    return fmt.Fscanf(newtStdin, format, a...)
}
"#;

// ---------------------------------------------------------------------------
// Specification
// ---------------------------------------------------------------------------

/// State of the quote-aware splitter: pieces so far, the current piece,
/// inside a string literal, after a backslash.
pub open spec fn sq_step(c: char, d: char, st: (Seq<Seq<char>>, Seq<char>, bool, bool)) -> (
    Seq<Seq<char>>,
    Seq<char>,
    bool,
    bool,
) {
    if st.3 {
        (st.0, st.1.push(c), st.2, false)
    } else if c == '\\' {
        (st.0, st.1.push(c), st.2, true)
    } else if c == '"' {
        (st.0, st.1.push(c), !st.2, false)
    } else if c == d && !st.2 {
        (st.0.push(trim(st.1)), seq![], st.2, false)
    } else {
        (st.0, st.1.push(c), st.2, st.3)
    }
}

pub open spec fn sq_run(s: Seq<char>, d: char, n: int) -> (Seq<Seq<char>>, Seq<char>, bool, bool)
    decreases n,
{
    if n <= 0 {
        (seq![], seq![], false, false)
    } else {
        sq_step(s[n - 1], d, sq_run(s, d, n - 1))
    }
}

/// `s` split at every `d` outside a string literal, each piece trimmed; a
/// blank last piece is left out.
pub open spec fn split_quoted(s: Seq<char>, d: char) -> Seq<Seq<char>> {
    let st = sq_run(s, d, s.len() as int);
    if trim(st.1).len() != 0 {
        st.0.push(trim(st.1))
    } else {
        st.0
    }
}

/// `imps` with `x` added unless it is there already.
pub open spec fn add_import(imps: Seq<Seq<char>>, x: Seq<char>) -> Seq<Seq<char>> {
    if imps.contains(x) {
        imps
    } else {
        imps.push(x)
    }
}

pub open spec fn add_singles(imps: Seq<Seq<char>>, caps: Seq<Option<Seq<char>>>) -> Seq<Seq<char>>
    decreases caps.len(),
{
    if caps.len() == 0 {
        imps
    } else {
        let prev = add_singles(imps, caps.drop_last());
        match caps.last() {
            Some(x) => add_import(prev, x),
            None => prev,
        }
    }
}

pub open spec fn count_lead(s: Seq<char>, c: char) -> nat
    decreases s.len(),
{
    if s.len() > 0 && s[0] == c {
        1 + count_lead(s.drop_first(), c)
    } else {
        0
    }
}

pub open spec fn count_trail(s: Seq<char>, c: char) -> nat
    decreases s.len(),
{
    if s.len() > 0 && s.last() == c {
        1 + count_trail(s.drop_last(), c)
    } else {
        0
    }
}

/// std's `trim_matches('"')`.
pub open spec fn strip_quotes(s: Seq<char>) -> Seq<char> {
    let a = s.skip(count_lead(s, '"') as int);
    a.take(a.len() - count_trail(a, '"'))
}

/// Import paths from the lines of an import block.
pub open spec fn add_block_lines(imps: Seq<Seq<char>>, ls: Seq<Seq<char>>) -> Seq<Seq<char>>
    decreases ls.len(),
{
    if ls.len() == 0 {
        imps
    } else {
        let prev = add_block_lines(imps, ls.drop_last());
        let t = trim(ls.last());
        if starts_with(t, seq!['"']) {
            add_import(prev, strip_quotes(t))
        } else {
            prev
        }
    }
}

pub open spec fn add_blocks(imps: Seq<Seq<char>>, caps: Seq<Option<Seq<char>>>) -> Seq<Seq<char>>
    decreases caps.len(),
{
    if caps.len() == 0 {
        imps
    } else {
        let prev = add_blocks(imps, caps.drop_last());
        match caps.last() {
            Some(g) => add_block_lines(prev, lines(g)),
            None => prev,
        }
    }
}

/// A declaration keyword at the start.
pub open spec fn is_go_decl(t: Seq<char>) -> bool {
    starts_with(t, "type "@) || starts_with(t, "func "@) || starts_with(t, "const "@) || starts_with(
        t,
        "var "@,
    )
}

/// What lies between the first `{` and the last `}`, when the first comes
/// before the last.
pub open spec fn brace_body(s: Seq<char>) -> Option<Seq<char>> {
    match (find(s, seq!['{']), rfind_char(s, '}')) {
        (Some(a), Some(b)) => if a < b {
            Some(s.subrange(a + 1, b))
        } else {
            None
        },
        _ => None,
    }
}

/// One line of a cell that mixes declarations and statements.
pub open spec fn go_line(
    line: Seq<char>,
    i: int,
    last: bool,
    tb: (Seq<char>, Seq<char>),
) -> (Seq<char>, Seq<char>) {
    let t = trim(line);
    if t.len() == 0 {
        tb
    } else if is_go_decl(t) {
        if starts_with(t, "func main"@) {
            if last {
                match brace_body(line) {
                    Some(b) => (tb.0, tb.1 + b + seq!['\n']),
                    None => tb,
                }
            } else {
                (tb.0 + replace(line, "func main"@, "func main_ignored_"@ + decimal(i as nat))
                    + seq!['\n'], tb.1)
            }
        } else {
            (tb.0 + line + seq!['\n'], tb.1)
        }
    } else {
        (tb.0, tb.1 + line + seq!['\n'])
    }
}

pub open spec fn go_lines(
    ls: Seq<Seq<char>>,
    i: int,
    last: bool,
    tb: (Seq<char>, Seq<char>),
) -> (Seq<char>, Seq<char>)
    decreases ls.len(),
{
    if ls.len() == 0 {
        tb
    } else {
        go_line(ls.last(), i, last, go_lines(ls.drop_last(), i, last, tb))
    }
}

pub open spec fn go_stmts(
    ss: Seq<Seq<char>>,
    i: int,
    last: bool,
    tb: (Seq<char>, Seq<char>),
) -> (Seq<char>, Seq<char>)
    decreases ss.len(),
{
    if ss.len() == 0 {
        tb
    } else {
        go_lines(split_quoted(ss.last(), '\n'), i, last, go_stmts(ss.drop_last(), i, last, tb))
    }
}

/// A cell that starts with a declaration but also holds a `;`, or spans
/// several lines without being a function.
pub open spec fn is_mixed(p: Seq<char>) -> bool {
    let t = trim(p);
    is_go_decl(t) && (contains(p, seq![';']) || (lines(p).len() > 1 && !starts_with(t, "func "@)))
}

/// The cell without its `package` clause and its imports.
pub open spec fn go_stripped(b: Seq<char>) -> Seq<char> {
    let p1 = regex_replace_all(GO_PACKAGE@, b, seq![]);
    let p2 = regex_replace_all(GO_IMPORT_ONE@, p1, seq![]);
    regex_replace_all(GO_IMPORT_BLOCK@, p2, seq![])
}

/// The imports that a cell adds.
pub open spec fn go_cell_imports(imps: Seq<Seq<char>>, b: Seq<char>) -> Seq<Seq<char>> {
    let p1 = regex_replace_all(GO_PACKAGE@, b, seq![]);
    let p2 = regex_replace_all(GO_IMPORT_ONE@, p1, seq![]);
    add_blocks(add_singles(imps, regex_group1(GO_IMPORT_ONE@, p1)), regex_group1(GO_IMPORT_BLOCK@, p2))
}

/// Top-level declarations and `main` body after one cell, given whether
/// the `main` pattern matches it (`has_main`) and the cell with that match
/// renamed (`renamed`): a mixed cell is split into statements; a
/// declaration with a `main` gives its body to the program's `main` when it
/// is the last cell and is kept renamed otherwise; other declarations stay
/// at top level and the rest goes into `main`.
pub open spec fn go_cell_code_of(
    p: Seq<char>,
    i: int,
    last: bool,
    has_main: bool,
    renamed: Seq<char>,
    tb: (Seq<char>, Seq<char>),
) -> (Seq<char>, Seq<char>) {
    if is_mixed(p) {
        go_stmts(split_quoted(p, ';'), i, last, tb)
    } else if is_go_decl(trim(p)) {
        if has_main {
            if last {
                match brace_body(p) {
                    Some(b) => (tb.0, tb.1 + b + seq!['\n']),
                    None => tb,
                }
            } else {
                (tb.0 + renamed + seq!['\n'], tb.1)
            }
        } else {
            (tb.0 + p + seq!['\n'], tb.1)
        }
    } else {
        (tb.0, tb.1 + p + seq!['\n'])
    }
}

/// The name an earlier cell's `main` takes.
pub open spec fn go_ignored(i: int) -> Seq<char> {
    "func main_ignored_"@ + decimal(i as nat) + "("@
}

/// Top-level declarations and `main` body after one cell.
pub open spec fn go_cell_code(
    p: Seq<char>,
    i: int,
    last: bool,
    tb: (Seq<char>, Seq<char>),
) -> (Seq<char>, Seq<char>) {
    go_cell_code_of(p, i, last, regex_is_match(GO_MAIN@, p), regex_replace(GO_MAIN@, p, go_ignored(i)), tb)
}

/// Imports, declarations and `main` body from the first `n` cells.
pub open spec fn go_scan(h: Seq<Seq<char>>, n: int) -> (Seq<Seq<char>>, Seq<char>, Seq<char>)
    decreases n,
{
    if n <= 0 {
        (seq![], seq![], seq![])
    } else {
        let prev = go_scan(h, n - 1);
        let b = h[n - 1];
        let code = go_cell_code(go_stripped(b), n - 1, n - 1 == h.len() - 1, (prev.1, prev.2));
        (go_cell_imports(prev.0, b), code.0, code.1)
    }
}

/// Standard input redirected to the program's input support.
pub open spec fn go_redirect(s: Seq<char>) -> Seq<char> {
    replace(
        replace(
            replace(
                replace(replace(s, "fmt.Scan("@, "newt_scan("@), "fmt.Scanln("@, "newt_scanln("@),
                "fmt.Scanf("@,
                "newt_scanf("@,
            ),
            "bufio.NewReader(os.Stdin)"@,
            "bufio.NewReader(newtStdin)"@,
        ),
        "bufio.NewScanner(os.Stdin)"@,
        "bufio.NewScanner(newtStdin)"@,
    )
}

pub open spec fn import_lines(imps: Seq<Seq<char>>) -> Seq<char>
    decreases imps.len(),
{
    if imps.len() == 0 {
        seq![]
    } else {
        import_lines(imps.drop_last()) + "\t\""@ + imps.last() + "\"\n"@
    }
}

/// The import block of the program.
pub open spec fn go_import_block(imps: Seq<Seq<char>>) -> Seq<char> {
    if imps.len() > 0 {
        "import (\n"@ + import_lines(imps) + "\t\"os\"\n\t\"path/filepath\"\n\t\"time\"\n\t\"io/ioutil\"\n)\n"@
    } else {
        "import (\n\t\"os\"\n\t\"path/filepath\"\n\t\"time\"\n\t\"io/ioutil\"\n\t\"fmt\"\n)\n"@
    }
}

/// The Go program for a sequence of cells: imports gathered (and `fmt`
/// added when the code uses it), declarations at top level, statements in
/// `main`; a `main` of the last cell gives its body, one of an earlier cell
/// is renamed.
pub open spec fn go_source(h: Seq<Seq<char>>) -> Seq<char> {
    let s = go_scan(h, h.len() as int);
    let imps = if (contains(s.2, "fmt."@) || contains(s.1, "fmt."@)) && !s.0.contains("fmt"@) {
        s.0.push("fmt"@)
    } else {
        s.0
    };
    "package main\n\n"@ + go_import_block(imps) + go_redirect(s.1) + GO_INPUT_SUPPORT@
        + "\nfunc main() {\n"@ + go_redirect(s.2) + "\n}\n"@
}

// ---------------------------------------------------------------------------
// Assembly
// ---------------------------------------------------------------------------

/// `s` split at every `d` outside a string literal, as `split_quoted` says.
fn split_quoted_vec(s: &Vec<char>, d: char) -> (r: Vec<Vec<char>>)
    ensures
        views(r@) == split_quoted(s@, d),
{
    let mut pieces: Vec<Vec<char>> = Vec::new();
    let mut cur: Vec<char> = Vec::new();
    let mut in_quote = false;
    let mut escape = false;
    let mut i: usize = 0;
    while i < s.len()
        invariant
            i <= s.len(),
            (views(pieces@), cur@, in_quote, escape) == sq_run(s@, d, i as int),
        decreases s.len() - i,
    {
        let c = s[i];
        if escape {
            cur.push(c);
            escape = false;
        } else if c == '\\' {
            cur.push(c);
            escape = true;
        } else if c == '"' {
            cur.push(c);
            in_quote = !in_quote;
        } else if c == d && !in_quote {
            let t = trimmed(&cur);
            let ghost before = views(pieces@);
            pieces.push(t);
            assert(views(pieces@) =~= before.push(t@));
            cur = Vec::new();
            assert(cur@ =~= Seq::<char>::empty());
        } else {
            cur.push(c);
        }
        i = i + 1;
    }
    let t = trimmed(&cur);
    if t.len() != 0 {
        let ghost before = views(pieces@);
        pieces.push(t);
        assert(views(pieces@) =~= before.push(t@));
    }
    pieces
}

/// Adds `x` to the imports unless it is there already.
pub fn add_import_vec(imps: &mut Vec<Vec<char>>, x: Vec<char>)
    ensures
        views(final(imps)@) == add_import(views(old(imps)@), x@),
{
    let ghost v = views(imps@);
    let mut k: usize = 0;
    while k < imps.len()
        invariant
            v == views(imps@),
            k <= imps.len(),
            forall|j: int| 0 <= j < k ==> v[j] != x@,
        decreases imps.len() - k,
    {
        if equals_vec(&imps[k], &x) {
            assert(v[k as int] == x@);
            assert(v.contains(x@));
            return;
        }
        k = k + 1;
    }
    assert(!v.contains(x@));
    imps.push(x);
    assert(views(imps@) =~= v.push(x@));
}

/// The imports with the path of every one-line import added.
pub fn add_singles_vec(imps: &mut Vec<Vec<char>>, caps: &Vec<Option<String>>)
    ensures
        views(final(imps)@) == add_singles(views(old(imps)@), opt_views(caps@)),
{
    let ghost v0 = views(imps@);
    let ghost cs = opt_views(caps@);
    let mut k: usize = 0;
    assert(cs.take(0) =~= Seq::<Option<Seq<char>>>::empty());
    while k < caps.len()
        invariant
            cs == opt_views(caps@),
            k <= caps.len(),
            views(imps@) == add_singles(v0, cs.take(k as int)),
        decreases caps.len() - k,
    {
        assert(cs.take(k + 1).drop_last() =~= cs.take(k as int));
        match &caps[k] {
            Some(x) => {
                add_import_vec(imps, chars_of(x.as_str()));
            },
            None => {},
        }
        k = k + 1;
    }
    assert(cs.take(caps.len() as int) =~= cs);
}

/// `s` without the `"` characters at either end.
fn strip_quotes_vec(s: &Vec<char>) -> (r: Vec<char>)
    ensures
        r@ == strip_quotes(s@),
{
    let mut a: usize = 0;
    assert(s@.skip(0) =~= s@);
    while a < s.len() && s[a] == '"'
        invariant
            a <= s.len(),
            count_lead(s@, '"') == a + count_lead(s@.skip(a as int), '"'),
        decreases s.len() - a,
    {
        assert(s@.skip(a as int).drop_first() =~= s@.skip(a + 1));
        a = a + 1;
    }
    let rest = slice_of(s, a, s.len());
    assert(rest@ =~= s@.skip(a as int));
    let mut b: usize = rest.len();
    assert(rest@.take(b as int) =~= rest@);
    while b > 0 && rest[b - 1] == '"'
        invariant
            b <= rest.len(),
            count_trail(rest@, '"') == (rest.len() - b) + count_trail(rest@.take(b as int), '"'),
        decreases b,
    {
        assert(rest@.take(b as int).drop_last() =~= rest@.take(b - 1));
        b = b - 1;
    }
    let r = slice_of(&rest, 0, b);
    assert(r@ =~= rest@.take(b as int));
    r
}

/// The imports with the quoted paths of an import block's lines added.
fn add_block_lines_vec(imps: &mut Vec<Vec<char>>, body: &Vec<char>)
    ensures
        views(final(imps)@) == add_block_lines(views(old(imps)@), lines(body@)),
{
    let ghost v0 = views(imps@);
    let ls = lines_of(body);
    let ghost l = views(ls@);
    let mut k: usize = 0;
    assert(l.take(0) =~= Seq::<Seq<char>>::empty());
    while k < ls.len()
        invariant
            l == views(ls@),
            k <= ls.len(),
            views(imps@) == add_block_lines(v0, l.take(k as int)),
        decreases ls.len() - k,
    {
        assert(l.take(k + 1).drop_last() =~= l.take(k as int));
        let t = trimmed(&ls[k]);
        let mut q: Vec<char> = Vec::new();
        q.push('"');
        if starts_with_vec(&t, &q) {
            add_import_vec(imps, strip_quotes_vec(&t));
        }
        k = k + 1;
    }
    assert(l.take(ls.len() as int) =~= l);
}

/// The imports with those of every import block added.
fn add_blocks_vec(imps: &mut Vec<Vec<char>>, caps: &Vec<Option<String>>)
    ensures
        views(final(imps)@) == add_blocks(views(old(imps)@), opt_views(caps@)),
{
    let ghost v0 = views(imps@);
    let ghost cs = opt_views(caps@);
    let mut k: usize = 0;
    assert(cs.take(0) =~= Seq::<Option<Seq<char>>>::empty());
    while k < caps.len()
        invariant
            cs == opt_views(caps@),
            k <= caps.len(),
            views(imps@) == add_blocks(v0, cs.take(k as int)),
        decreases caps.len() - k,
    {
        assert(cs.take(k + 1).drop_last() =~= cs.take(k as int));
        match &caps[k] {
            Some(g) => {
                add_block_lines_vec(imps, &chars_of(g.as_str()));
            },
            None => {},
        }
        k = k + 1;
    }
    assert(cs.take(caps.len() as int) =~= cs);
}

fn is_go_decl_vec(t: &Vec<char>) -> (b: bool)
    ensures
        b == is_go_decl(t@),
{
    starts_with_str(t, "type ") || starts_with_str(t, "func ") || starts_with_str(t, "const ")
        || starts_with_str(t, "var ")
}

fn brace_body_vec(s: &Vec<char>) -> (r: Option<Vec<char>>)
    ensures
        r matches Some(b) ==> brace_body(s@) == Some(b@),
        r is None ==> brace_body(s@) is None,
{
    let mut open: Vec<char> = Vec::new();
    open.push('{');
    assert(open@ =~= seq!['{']);
    match find_vec(s, &open) {
        Some(a) => {
            proof { lemma_find_bound(s@, open@); }
            match rfind_char_vec(s, '}') {
                Some(b) => {
                    if a < b {
                        Some(slice_of(s, a + 1, b))
                    } else {
                        None
                    }
                },
                None => None,
            }
        },
        None => None,
    }
}

/// `"func main_ignored_"` and the cell's index, with `tail` after it.
fn ignored_name(i: usize, tail: &str) -> (r: Vec<char>)
    ensures
        r@ == "func main_ignored_"@ + decimal(i as nat) + tail@,
{
    let mut r = chars_of("func main_ignored_");
    push_all(&mut r, &decimal_of(i));
    push_str(&mut r, tail);
    r
}

fn go_line_vec(line: &Vec<char>, i: usize, last: bool, decls: &mut Vec<char>, body: &mut Vec<char>)
    ensures
        (final(decls)@, final(body)@) == go_line(line@, i as int, last, (old(decls)@, old(body)@)),
{
    let t = trimmed(line);
    if t.len() == 0 {
    } else if is_go_decl_vec(&t) {
        if starts_with_str(&t, "func main") {
            if last {
                match brace_body_vec(line) {
                    Some(b) => {
                        push_all(body, &b);
                        body.push('\n');
                    },
                    None => {},
                }
            } else {
                let from = chars_of("func main");
                proof { reveal_strlit("func main"); }
                let to = ignored_name(i, "");
                proof { reveal_strlit(""); }
                assert(to@ =~= "func main_ignored_"@ + decimal(i as nat));
                push_all(decls, &replace_vec(line, &from, &to));
                decls.push('\n');
            }
        } else {
            push_all(decls, line);
            decls.push('\n');
        }
    } else {
        push_all(body, line);
        body.push('\n');
    }
}

fn go_stmts_vec(p: &Vec<char>, i: usize, last: bool, decls: &mut Vec<char>, body: &mut Vec<char>)
    ensures
        (final(decls)@, final(body)@) == go_stmts(
            split_quoted(p@, ';'),
            i as int,
            last,
            (old(decls)@, old(body)@),
        ),
{
    let ss = split_quoted_vec(p, ';');
    let ghost sv = views(ss@);
    let ghost d0 = decls@;
    let ghost b0 = body@;
    let mut k: usize = 0;
    assert(sv.take(0) =~= Seq::<Seq<char>>::empty());
    while k < ss.len()
        invariant
            sv == views(ss@),
            sv == split_quoted(p@, ';'),
            k <= ss.len(),
            (decls@, body@) == go_stmts(sv.take(k as int), i as int, last, (d0, b0)),
        decreases ss.len() - k,
    {
        assert(sv.take(k + 1).drop_last() =~= sv.take(k as int));
        let ls = split_quoted_vec(&ss[k], '\n');
        let ghost lv = views(ls@);
        let ghost tb = (decls@, body@);
        let mut m: usize = 0;
        assert(lv.take(0) =~= Seq::<Seq<char>>::empty());
        while m < ls.len()
            invariant
                lv == views(ls@),
                m <= ls.len(),
                (decls@, body@) == go_lines(lv.take(m as int), i as int, last, tb),
            decreases ls.len() - m,
        {
            assert(lv.take(m + 1).drop_last() =~= lv.take(m as int));
            go_line_vec(&ls[m], i, last, decls, body);
            m = m + 1;
        }
        assert(lv.take(ls.len() as int) =~= lv);
        k = k + 1;
    }
    assert(sv.take(ss.len() as int) =~= sv);
}

fn is_mixed_vec(p: &Vec<char>) -> (b: bool)
    ensures
        b == is_mixed(p@),
{
    let t = trimmed(p);
    if !is_go_decl_vec(&t) {
        return false;
    }
    let mut semi: Vec<char> = Vec::new();
    semi.push(';');
    assert(semi@ =~= seq![';']);
    if contains_vec(p, &semi) {
        return true;
    }
    let ls = lines_of(p);
    assert(views(ls@).len() == ls@.len());
    ls.len() > 1 && !starts_with_str(&t, "func ")
}

/// One cell's declarations and statements added to the program's, from
/// what the `main` pattern gave on it: whether it matches, and the cell
/// with the match renamed (read only for an earlier cell with a `main`).
pub fn go_cell_code_with(
    p: &String,
    i: usize,
    last: bool,
    has_main: bool,
    renamed: &String,
    decls: &mut Vec<char>,
    body: &mut Vec<char>,
)
    ensures
        (final(decls)@, final(body)@) == go_cell_code_of(
            p@,
            i as int,
            last,
            has_main,
            renamed@,
            (old(decls)@, old(body)@),
        ),
{
    let pv = chars_of(p.as_str());
    if is_mixed_vec(&pv) {
        go_stmts_vec(&pv, i, last, decls, body);
    } else if is_go_decl_vec(&trimmed(&pv)) {
        if has_main {
            if last {
                match brace_body_vec(&pv) {
                    Some(b) => {
                        push_all(body, &b);
                        body.push('\n');
                    },
                    None => {},
                }
            } else {
                push_str(decls, renamed.as_str());
                decls.push('\n');
            }
        } else {
            push_all(decls, &pv);
            decls.push('\n');
        }
    } else {
        push_all(body, &pv);
        body.push('\n');
    }
}

fn go_cell_code_vec(
    p: &String,
    main: &Pattern,
    i: usize,
    last: bool,
    decls: &mut Vec<char>,
    body: &mut Vec<char>,
)
    requires
        main.source() == GO_MAIN@,
    ensures
        (final(decls)@, final(body)@) == go_cell_code(p@, i as int, last, (old(decls)@, old(body)@)),
{
    let has_main = is_match(main, p.as_str());
    let renamed = if has_main && !last {
        let to = string_of(&ignored_name(i, "("));
        replace_first(main, p.as_str(), to.as_str())
    } else {
        String::new()
    };
    go_cell_code_with(p, i, last, has_main, &renamed, decls, body);
}

/// Whether `x` is among the imports.
fn import_listed(imps: &Vec<Vec<char>>, x: &Vec<char>) -> (b: bool)
    ensures
        b == views(imps@).contains(x@),
{
    let ghost v = views(imps@);
    let mut k: usize = 0;
    while k < imps.len()
        invariant
            v == views(imps@),
            k <= imps.len(),
            forall|j: int| 0 <= j < k ==> v[j] != x@,
        decreases imps.len() - k,
    {
        if equals_vec(&imps[k], x) {
            assert(v[k as int] == x@);
            return true;
        }
        k = k + 1;
    }
    false
}

fn go_redirect_vec(v: &Vec<char>) -> (r: Vec<char>)
    ensures
        r@ == go_redirect(v@),
{
    proof {
        reveal_strlit("fmt.Scan(");
        reveal_strlit("fmt.Scanln(");
        reveal_strlit("fmt.Scanf(");
        reveal_strlit("bufio.NewReader(os.Stdin)");
        reveal_strlit("bufio.NewScanner(os.Stdin)");
    }
    let a = replace_str(v, "fmt.Scan(", "newt_scan(");
    let b = replace_str(&a, "fmt.Scanln(", "newt_scanln(");
    let c = replace_str(&b, "fmt.Scanf(", "newt_scanf(");
    let d = replace_str(&c, "bufio.NewReader(os.Stdin)", "bufio.NewReader(newtStdin)");
    replace_str(&d, "bufio.NewScanner(os.Stdin)", "bufio.NewScanner(newtStdin)")
}

fn go_import_block_vec(imps: &Vec<Vec<char>>) -> (r: Vec<char>)
    ensures
        r@ == go_import_block(views(imps@)),
{
    let ghost v = views(imps@);
    if imps.len() > 0 {
        let mut out = chars_of("import (\n");
        let ghost head = out@;
        let mut k: usize = 0;
        assert(v.take(0) =~= Seq::<Seq<char>>::empty());
        while k < imps.len()
            invariant
                v == views(imps@),
                k <= imps.len(),
                out@ == head + import_lines(v.take(k as int)),
            decreases imps.len() - k,
        {
            assert(v.take(k + 1).drop_last() =~= v.take(k as int));
            push_str(&mut out, "\t\"");
            push_all(&mut out, &imps[k]);
            push_str(&mut out, "\"\n");
            k = k + 1;
        }
        assert(v.take(imps.len() as int) =~= v);
        push_str(&mut out, "\t\"os\"\n\t\"path/filepath\"\n\t\"time\"\n\t\"io/ioutil\"\n)\n");
        out
    } else {
        chars_of("import (\n\t\"os\"\n\t\"path/filepath\"\n\t\"time\"\n\t\"io/ioutil\"\n\t\"fmt\"\n)\n")
    }
}

/// The Go program for the cells, with the four patterns already compiled.
pub fn go_source_with(
    history: &[String],
    main: &Pattern,
    package: &Pattern,
    one: &Pattern,
    block: &Pattern,
) -> (r: String)
    requires
        main.source() == GO_MAIN@,
        package.source() == GO_PACKAGE@,
        one.source() == GO_IMPORT_ONE@,
        block.source() == GO_IMPORT_BLOCK@,
    ensures
        r@ == go_source(strs(history@)),
{
    let ghost h = strs(history@);
    let mut imps: Vec<Vec<char>> = Vec::new();
    let mut decls: Vec<char> = Vec::new();
    let mut body: Vec<char> = Vec::new();
    let mut i: usize = 0;
    proof { reveal_strlit(""); }
    while i < history.len()
        invariant
            h == strs(history@),
            main.source() == GO_MAIN@,
            package.source() == GO_PACKAGE@,
            one.source() == GO_IMPORT_ONE@,
            block.source() == GO_IMPORT_BLOCK@,
            ""@ == Seq::<char>::empty(),
            i <= history.len(),
            (views(imps@), decls@, body@) == go_scan(h, i as int),
        decreases history.len() - i,
    {
        let b = history[i].as_str();
        assert(b@ == h[i as int]);
        let p1 = replace_all(package, b, "");
        let caps1 = group1_all(one, p1.as_str());
        add_singles_vec(&mut imps, &caps1);
        let p2 = replace_all(one, p1.as_str(), "");
        let caps2 = group1_all(block, p2.as_str());
        add_blocks_vec(&mut imps, &caps2);
        let p3 = replace_all(block, p2.as_str(), "");
        go_cell_code_vec(&p3, main, i, i == history.len() - 1, &mut decls, &mut body);
        i = i + 1;
    }
    let fmt = chars_of("fmt");
    if (contains_str(&body, "fmt.") || contains_str(&decls, "fmt.")) && !import_listed(&imps, &fmt) {
        let ghost before = views(imps@);
        imps.push(fmt);
        assert(views(imps@) =~= before.push("fmt"@));
    }
    let mut out = chars_of("package main\n\n");
    push_all(&mut out, &go_import_block_vec(&imps));
    push_all(&mut out, &go_redirect_vec(&decls));
    push_str(&mut out, GO_INPUT_SUPPORT);
    push_str(&mut out, "\nfunc main() {\n");
    push_all(&mut out, &go_redirect_vec(&body));
    push_str(&mut out, "\n}\n");
    string_of(&out)
}

/// Runs the Go cells of a notebook as one program. Holds no state.
pub struct GoKernel;

impl GoKernel {
    pub fn new() -> (k: GoKernel)
        ensures
            k == GoKernel,
    {
        GoKernel
    }

    /// Nothing to forget: the kernel holds no state.
    pub fn clear(&mut self)
        ensures
            *final(self) == *old(self),
    {
    }

    /// The Go program for the cells (earlier cells first, the cell to run
    /// last); `None` only when one of the four patterns does not compile.
    pub fn construct_source(&self, history: &[String]) -> (r: Option<String>)
        ensures
            r is Some <==> (regex_compiles(GO_MAIN@) && regex_compiles(GO_PACKAGE@)
                && regex_compiles(GO_IMPORT_ONE@) && regex_compiles(GO_IMPORT_BLOCK@)),
            r matches Some(s) ==> s@ == go_source(strs(history@)),
    {
        let main = match compile(GO_MAIN) {
            Some(p) => p,
            None => return None,
        };
        let package = match compile(GO_PACKAGE) {
            Some(p) => p,
            None => return None,
        };
        let one = match compile(GO_IMPORT_ONE) {
            Some(p) => p,
            None => return None,
        };
        let block = match compile(GO_IMPORT_BLOCK) {
            Some(p) => p,
            None => return None,
        };
        Some(go_source_with(history, &main, &package, &one, &block))
    }
}

/// A Go program starts with its `package main` clause and ends with the
/// closing brace of the `main` function it defines; every earlier cell's
/// declaration with a `main` goes in renamed (see `go_cell_code_of`).
pub proof fn law_go_program_shape(h: Seq<Seq<char>>)
    ensures
        starts_with(go_source(h), "package main\n\n"@),
        ends_with(go_source(h), "\n}\n"@),
{
    let g = go_source(h);
    let head = "package main\n\n"@;
    let tail = "\n}\n"@;
    assert(g.take(head.len() as int) =~= head);
    assert(g.skip(g.len() - tail.len()) =~= tail);
}

/// Whenever the assembled `main` body or the top-level declarations use
/// `fmt.`, the program opens with an import block that lists `fmt`,
/// whatever other packages the cells imported.
pub proof fn law_go_fmt_imported(h: Seq<Seq<char>>)
    ensures
        ({
            let s = go_scan(h, h.len() as int);
            (contains(s.1, "fmt."@) || contains(s.2, "fmt."@)) ==> exists|imps: Seq<Seq<char>>|
                imps.contains("fmt"@) && #[trigger] starts_with(
                    go_source(h),
                    "package main\n\n"@ + go_import_block(imps),
                )
        }),
{
    let s = go_scan(h, h.len() as int);
    let imps = if (contains(s.2, "fmt."@) || contains(s.1, "fmt."@)) && !s.0.contains("fmt"@) {
        s.0.push("fmt"@)
    } else {
        s.0
    };
    if contains(s.1, "fmt."@) || contains(s.2, "fmt."@) {
        if !s.0.contains("fmt"@) {
            assert(imps[imps.len() - 1] == "fmt"@);
        }
        assert(imps.contains("fmt"@));
        let head = "package main\n\n"@ + go_import_block(imps);
        let g = go_source(h);
        assert(g.take(head.len() as int) =~= head);
        assert(starts_with(g, head));
    }
}

} // verus!
