//! Source text for the one-shot runs: TypeScript with its input support,
//! and the simpler server's scripts (context and code joined into one
//! program per run).
use vstd::prelude::*;
use crate::pattern::{
    Pattern, compile, group1_all, is_match, opt_views, regex_compiles, regex_group1,
    regex_is_match, regex_replace_all, replace_all,
};
use crate::text::{
    chars_of, contains, contains_str, find, find_vec, is_ws, join, lemma_find_bound, lines, lines_of,
    push_all, push_str, replace, replace_vec, slice_of, split, string_of, trim, trimmed, views,
};
use crate::kernel::strs;

verus! {

/// Input support for TypeScript runs: `prompt` and `input` read the
/// notebook's input files.
pub const TS_POLYFILL: &'static str = r#"
const fs = require('fs');
const os = require('os');
const path = require('path');

function _newt_prompt(promptText) {
    promptText = promptText || "";
    const tempDir = os.tmpdir();
    const reqPath = path.join(tempDir, "newt_web_input_req");
    const resPath = path.join(tempDir, "newt_web_input_res");

    if (fs.existsSync(resPath)) {
        try { fs.unlinkSync(resPath); } catch(e) {}
    }

    fs.writeFileSync(reqPath, promptText);

    const sab = new SharedArrayBuffer(4);
    const int32 = new Int32Array(sab);
    const startTime = Date.now();
    
    while (!fs.existsSync(resPath)) {
        if (Date.now() - startTime > 300000) break;
        try {
            Atomics.wait(int32, 0, 0, 100);
        } catch (e) {
             const start = Date.now();
             while (Date.now() - start < 100) {}
        }
    }

    let result = "";
    if (fs.existsSync(resPath)) {
        result = fs.readFileSync(resPath, 'utf8');
    }

    try {
        if (fs.existsSync(reqPath)) fs.unlinkSync(reqPath);
        if (fs.existsSync(resPath)) fs.unlinkSync(resPath);
    } catch(e) {}

    return result;
}
global.prompt = _newt_prompt;
global.input = _newt_prompt;
"#;

/// The TypeScript program for a run: the input support, the context (one
/// cell per line group), then the code.
pub open spec fn ts_source(code: Seq<char>, context: Option<Seq<Seq<char>>>) -> Seq<char> {
    match context {
        Some(c) => TS_POLYFILL@ + "\n"@ + join(c, "\n"@) + "\n"@ + code,
        None => TS_POLYFILL@ + "\n"@ + code,
    }
}

/// The TypeScript program for a run.
pub fn typescript_source(code: &String, context: &Option<Vec<String>>) -> (r: String)
    ensures
        r@ == ts_source(code@, match context {
            Some(c) => Some(strs(c@)),
            None => None,
        }),
{
    let mut out = chars_of(TS_POLYFILL);
    push_str(&mut out, "\n");
    match context {
        Some(c) => {
            let mut parts: Vec<Vec<char>> = Vec::new();
            let mut i: usize = 0;
            while i < c.len()
                invariant
                    i <= c@.len(),
                    views(parts@) == strs(c@).take(i as int),
                decreases c@.len() - i,
            {
                let ghost before = views(parts@);
                parts.push(chars_of(c[i].as_str()));
                assert(views(parts@) =~= before.push(c@[i as int]@));
                assert(strs(c@).take(i + 1) =~= strs(c@).take(i as int).push(c@[i as int]@));
                i = i + 1;
            }
            assert(strs(c@).take(c@.len() as int) =~= strs(c@));
            push_all(&mut out, &crate::text::join_vecs(&parts, &chars_of("\n")));
            push_str(&mut out, "\n");
        },
        None => {},
    }
    push_str(&mut out, code.as_str());
    string_of(&out)
}

// ---------------------------------------------------------------------------
// The simpler server's scripts
// ---------------------------------------------------------------------------

/// The context, a line break, then the code; the code alone without a
/// context.
pub open spec fn joined(code: Seq<char>, context: Option<Seq<char>>) -> Seq<char> {
    match context {
        Some(c) => c + "\n"@ + code,
        None => code,
    }
}

pub open spec fn opt_text(o: Option<String>) -> Option<Seq<char>> {
    match o {
        Some(s) => Some(s@),
        None => None,
    }
}

/// The program for a JavaScript, TypeScript, C or Go run: context and code
/// joined.
pub fn joined_source(code: &String, context: &Option<String>) -> (r: String)
    ensures
        r@ == joined(code@, opt_text(*context)),
{
    match context {
        Some(c) => {
            let mut out = chars_of(c.as_str());
            push_str(&mut out, "\n");
            push_str(&mut out, code.as_str());
            string_of(&out)
        },
        None => code.clone(),
    }
}

/// A Rust `main`.
pub const SCRIPT_RUST_MAIN: &'static str = "fn\\s+main";

/// A C++ `main`.
pub const SCRIPT_CPP_MAIN: &'static str = "(?m)int\\s+main\\s*\\(";

/// The Rust program for a run. A context with a `main` has it renamed and
/// the code is wrapped in a `main` unless it has one; otherwise context
/// and code are joined and wrapped in a `main` unless they have one.
pub open spec fn rust_script_spec(code: Seq<char>, context: Seq<char>) -> Seq<char> {
    let m = SCRIPT_RUST_MAIN@;
    if regex_is_match(m, context) {
        regex_replace_all(m, context, "fn main_ignored"@) + "\n"@ + (if regex_is_match(m, code) {
            code
        } else {
            "fn main() {\n"@ + code + "\n}"@
        })
    } else {
        let full = context + "\n"@ + code;
        if regex_is_match(m, full) {
            full
        } else {
            "fn main() {\n"@ + full + "\n}"@
        }
    }
}

/// The C++ program for a run, as for Rust (with `return 0;` in a generated
/// `main`), with `<iostream>` included unless it already is.
pub open spec fn cpp_script_spec(code: Seq<char>, context: Seq<char>) -> Seq<char> {
    let m = SCRIPT_CPP_MAIN@;
    let body = if regex_is_match(m, context) {
        regex_replace_all(m, context, "int main_ignored("@) + "\n"@ + (if regex_is_match(m, code) {
            code
        } else {
            "int main() {\n"@ + code + "\nreturn 0;\n}"@
        })
    } else {
        let full = context + "\n"@ + code;
        if regex_is_match(m, full) {
            full
        } else {
            "int main() {\n"@ + full + "\nreturn 0;\n}"@
        }
    };
    if contains(body, "#include <iostream>"@) {
        body
    } else {
        "#include <iostream>\n"@ + body
    }
}

fn main_script(
    code: &String,
    context: &String,
    main: &Pattern,
    renamed: &str,
    open: &str,
    close: &str,
) -> (r: Vec<char>)
    ensures
        ({
            let m = main.source();
            let wrap = |t: Seq<char>| open@ + t + close@;
            r@ == if regex_is_match(m, context@) {
                regex_replace_all(m, context@, renamed@) + "\n"@ + (if regex_is_match(m, code@) {
                    code@
                } else {
                    open@ + code@ + close@
                })
            } else {
                let full = context@ + "\n"@ + code@;
                if regex_is_match(m, full) {
                    full
                } else {
                    open@ + full + close@
                }
            }
        }),
{
    if is_match(main, context.as_str()) {
        let mut out = chars_of(replace_all(main, context.as_str(), renamed).as_str());
        push_str(&mut out, "\n");
        if is_match(main, code.as_str()) {
            push_str(&mut out, code.as_str());
        } else {
            push_str(&mut out, open);
            push_str(&mut out, code.as_str());
            push_str(&mut out, close);
        }
        out
    } else {
        let mut full = chars_of(context.as_str());
        push_str(&mut full, "\n");
        push_str(&mut full, code.as_str());
        let fs = string_of(&full);
        if is_match(main, fs.as_str()) {
            full
        } else {
            let mut out = chars_of(open);
            push_all(&mut out, &full);
            push_str(&mut out, close);
            out
        }
    }
}

/// The Rust program for a run; `None` when the `main` pattern does not
/// compile. A missing context counts as an empty one.
pub fn rust_script(code: &String, context: &Option<String>) -> (r: Option<String>)
    ensures
        r is Some <==> regex_compiles(SCRIPT_RUST_MAIN@),
        r matches Some(s) ==> s@ == rust_script_spec(
            code@,
            match context {
                Some(c) => c@,
                None => Seq::<char>::empty(),
            },
        ),
{
    let m = match compile(SCRIPT_RUST_MAIN) {
        Some(p) => p,
        None => return None,
    };
    let ctx = match context {
        Some(c) => c.clone(),
        None => String::new(),
    };
    let v = main_script(code, &ctx, &m, "fn main_ignored", "fn main() {\n", "\n}");
    Some(string_of(&v))
}

/// The C++ program for a run; `None` when the `main` pattern does not
/// compile. A missing context counts as an empty one.
pub fn cpp_script(code: &String, context: &Option<String>) -> (r: Option<String>)
    ensures
        r is Some <==> regex_compiles(SCRIPT_CPP_MAIN@),
        r matches Some(s) ==> s@ == cpp_script_spec(
            code@,
            match context {
                Some(c) => c@,
                None => Seq::<char>::empty(),
            },
        ),
{
    let m = match compile(SCRIPT_CPP_MAIN) {
        Some(p) => p,
        None => return None,
    };
    let ctx = match context {
        Some(c) => c.clone(),
        None => String::new(),
    };
    let body = main_script(code, &ctx, &m, "int main_ignored(", "int main() {\n", "\nreturn 0;\n}");
    if contains_str(&body, "#include <iostream>") {
        Some(string_of(&body))
    } else {
        let mut out = chars_of("#include <iostream>\n");
        push_all(&mut out, &body);
        Some(string_of(&out))
    }
}

// ---------------------------------------------------------------------------
// Python
// ---------------------------------------------------------------------------

/// Runs the context with its printing silenced, then the code: the part
/// before the indented context.
pub const PY_CONTEXT_HEAD: &'static str = r#"
import sys
import os
_newt_old_stdout = sys.stdout
sys.stdout = open(os.devnull, 'w')
try:
"#;

/// The part between the indented context and the code.
pub const PY_CONTEXT_MID: &'static str = r#"
    pass
finally:
    sys.stdout.close()
    sys.stdout = _newt_old_stdout

"#;

/// The part after the code.
pub const PY_CONTEXT_TAIL: &'static str = r#"
"#;

/// Every line of `ls` indented by four spaces, joined by line breaks.
pub open spec fn indented(ls: Seq<Seq<char>>) -> Seq<Seq<char>> {
    Seq::new(ls.len(), |i: int| "    "@ + ls[i])
}

/// The Python program for a run: with a context, the context runs first
/// with its printing silenced.
pub open spec fn python_full(code: Seq<char>, context: Option<Seq<char>>) -> Seq<char> {
    match context {
        Some(c) => PY_CONTEXT_HEAD@ + join(indented(lines(c)), "\n"@) + PY_CONTEXT_MID@ + code
            + PY_CONTEXT_TAIL@,
        None => code,
    }
}

/// The Python program for a run.
pub fn python_source(code: &String, context: &Option<String>) -> (r: String)
    ensures
        r@ == python_full(code@, opt_text(*context)),
{
    match context {
        Some(c) => {
            let ls = lines_of(&chars_of(c.as_str()));
            let ghost l = views(ls@);
            let mut ind: Vec<Vec<char>> = Vec::new();
            let mut i: usize = 0;
            while i < ls.len()
                invariant
                    l == views(ls@),
                    i <= ls@.len(),
                    views(ind@) == indented(l).take(i as int),
                decreases ls@.len() - i,
            {
                let mut x = chars_of("    ");
                push_all(&mut x, &ls[i]);
                let ghost before = views(ind@);
                ind.push(x);
                assert(views(ind@) =~= before.push(x@));
                assert(indented(l).take(i + 1) =~= indented(l).take(i as int).push("    "@ + l[i as int]));
                i = i + 1;
            }
            assert(indented(l).take(ls@.len() as int) =~= indented(l));
            let mut out = chars_of(PY_CONTEXT_HEAD);
            push_all(&mut out, &crate::text::join_vecs(&ind, &chars_of("\n")));
            push_str(&mut out, PY_CONTEXT_MID);
            push_str(&mut out, code.as_str());
            push_str(&mut out, PY_CONTEXT_TAIL);
            string_of(&out)
        },
        None => code.clone(),
    }
}

/// An import at the start of a line; group 1 is the top-level package.
pub const PY_IMPORT: &'static str = "(?m)^(?:import|from)\\s+([a-zA-Z0-9_]+)";

/// The packages a Python program imports, each once, in order of first
/// import; `None` when the pattern does not compile.
pub fn python_packages(full: &String) -> (r: Option<Vec<String>>)
    ensures
        r is Some <==> regex_compiles(PY_IMPORT@),
        r matches Some(v) ==> strs(v@) == crate::go_kernel::add_singles(
            seq![],
            regex_group1(PY_IMPORT@, full@),
        ),
{
    let p = match compile(PY_IMPORT) {
        Some(p) => p,
        None => return None,
    };
    let caps = group1_all(&p, full.as_str());
    let mut pk: Vec<Vec<char>> = Vec::new();
    assert(views(pk@) =~= Seq::<Seq<char>>::empty());
    crate::go_kernel::add_singles_vec(&mut pk, &caps);
    let mut out: Vec<String> = Vec::new();
    let mut j: usize = 0;
    while j < pk.len()
        invariant
            j <= pk@.len(),
            strs(out@) == views(pk@).take(j as int),
        decreases pk@.len() - j,
    {
        let ghost before = out@;
        let sj = string_of(&pk[j]);
        out.push(sj);
        assert(out@ == before.push(sj));
        assert(strs(out@) =~= strs(before).push(sj@));
        assert(views(pk@).take(j + 1) =~= views(pk@).take(j as int).push(pk@[j as int]@));
        j = j + 1;
    }
    assert(views(pk@).take(pk@.len() as int) =~= views(pk@));
    Some(out)
}

/// The standard-library modules that need no `--with`.
pub open spec fn py_stdlib(p: Seq<char>) -> bool {
    p == "os"@ || p == "sys"@ || p == "math"@ || p == "json"@ || p == "re"@ || p == "time"@ || p
        == "datetime"@ || p == "random"@ || p == "collections"@ || p == "itertools"@ || p
        == "functools"@
}

/// The packages handed to `uv run --with`: those that are not standard
/// modules, in order.
pub open spec fn with_packages(ps: Seq<Seq<char>>) -> Seq<Seq<char>>
    decreases ps.len(),
{
    if ps.len() == 0 {
        ps
    } else {
        with_packages(ps.drop_last()) + (if py_stdlib(ps.last()) {
            Seq::<Seq<char>>::empty()
        } else {
            seq![ps.last()]
        })
    }
}

fn is_py_stdlib(p: &Vec<char>) -> (b: bool)
    ensures
        b == py_stdlib(p@),
{
    crate::text::equals_str(p, "os") || crate::text::equals_str(p, "sys") || crate::text::equals_str(p, "math")
        || crate::text::equals_str(p, "json") || crate::text::equals_str(p, "re")
        || crate::text::equals_str(p, "time") || crate::text::equals_str(p, "datetime")
        || crate::text::equals_str(p, "random") || crate::text::equals_str(p, "collections")
        || crate::text::equals_str(p, "itertools") || crate::text::equals_str(p, "functools")
}

/// The packages handed to `uv run --with`.
pub fn uv_packages(ps: &Vec<String>) -> (r: Vec<String>)
    ensures
        strs(r@) == with_packages(strs(ps@)),
{
    let mut out: Vec<String> = Vec::new();
    let mut i: usize = 0;
    while i < ps.len()
        invariant
            i <= ps@.len(),
            strs(out@) == with_packages(strs(ps@).take(i as int)),
        decreases ps@.len() - i,
    {
        assert(strs(ps@).take(i + 1).drop_last() =~= strs(ps@).take(i as int));
        let ghost before = out@;
        if !is_py_stdlib(&chars_of(ps[i].as_str())) {
            out.push(ps[i].clone());
            assert(strs(out@) =~= strs(before).push(ps@[i as int]@));
        } else {
            assert(strs(out@) =~= strs(before) + Seq::<Seq<char>>::empty());
        }
        i = i + 1;
    }
    assert(strs(ps@).take(ps@.len() as int) =~= strs(ps@));
    out
}

/// The Python wrapper before the output directory.
pub const PY_WRAPPER_HEAD: &'static str = r#"
import sys
import os
import json
import base64
import builtins

_newt_outputs = []
_newt_output_dir = ""#;

/// The Python wrapper between the output directory and the program.
pub const PY_WRAPPER_MID: &'static str = r#""

def _newt_display(obj, **kwargs):
    data = {}
    metadata = {}
    
    if hasattr(obj, "_repr_mimebundle_"):
        try:
            data, metadata = obj._repr_mimebundle_(include=None, exclude=None)
        except Exception:
            pass
            
    if not data:
        if hasattr(obj, "_repr_png_"):
            data["image/png"] = obj._repr_png_()
        if hasattr(obj, "_repr_svg_"):
            data["image/svg+xml"] = obj._repr_svg_()
        if hasattr(obj, "_repr_html_"):
            data["text/html"] = obj._repr_html_()
        if hasattr(obj, "_repr_json_"):
            data["application/json"] = obj._repr_json_()
        if hasattr(obj, "__repr__"):
            data["text/plain"] = obj.__repr__()

    if data:
        processed_data = {}
        for mime, content in data.items():
            if mime.startswith("image/"):
                if isinstance(content, bytes):
                    b64 = base64.b64encode(content).decode('utf-8')
                    processed_data[mime] = b64
                else:
                    processed_data[mime] = content
            else:
                processed_data[mime] = content
        
        _newt_outputs.append({
            "data": processed_data,
            "metadata": metadata
        })

builtins.display = _newt_display

# --- User Code ---
"#;

/// The Python wrapper after the program: collects figures and prints the
/// display data between its markers.
pub const PY_WRAPPER_TAIL: &'static str = r#"
# -----------------

if "matplotlib.pyplot" in sys.modules:
    try:
        import matplotlib.pyplot as plt
        # Check for open figures
        for i in plt.get_fignums():
            fig = plt.figure(i)
            from io import BytesIO
            buf = BytesIO()
            fig.savefig(buf, format='png')
            b64 = base64.b64encode(buf.getvalue()).decode('utf-8')
            
            _newt_outputs.append({
                "data": {"image/png": b64},
                "metadata": {}
            })
            plt.close(i)
    except Exception:
        pass

# Trigger post-execute events (standard Jupyter lifecycle)

if _newt_outputs:
    print(f"\n__NEWT_DISPLAY_START__")
    print(json.dumps(_newt_outputs))
    print(f"__NEWT_DISPLAY_END__")

"#;

/// The script that runs a Python program and collects its rich output in
/// `output_dir` (backslashes doubled for the Python string).
pub open spec fn wrapper_spec(output_dir: Seq<char>, full: Seq<char>) -> Seq<char> {
    PY_WRAPPER_HEAD@ + replace(output_dir, "\\"@, "\\\\"@) + PY_WRAPPER_MID@ + full
        + PY_WRAPPER_TAIL@
}

/// The script that runs a Python program and collects its rich output.
pub fn python_wrapper(output_dir: &String, full: &String) -> (r: String)
    ensures
        r@ == wrapper_spec(output_dir@, full@),
{
    proof {
        reveal_strlit("\\");
    }
    let mut out = chars_of(PY_WRAPPER_HEAD);
    let d = chars_of(output_dir.as_str());
    push_all(&mut out, &crate::text::replace_str(&d, "\\", "\\\\"));
    push_str(&mut out, PY_WRAPPER_MID);
    push_str(&mut out, full.as_str());
    push_str(&mut out, PY_WRAPPER_TAIL);
    string_of(&out)
}

/// Marks the start of the display data in a wrapped run's output.
pub const DISPLAY_START: &'static str = "__NEWT_DISPLAY_START__";

/// Marks its end.
pub const DISPLAY_END: &'static str = "__NEWT_DISPLAY_END__";

/// A wrapped run's output split into what it printed (trimmed) and the
/// JSON of its display data, when both markers are there in order.
pub open spec fn split_display_spec(raw: Seq<char>) -> (Seq<char>, Option<Seq<char>>) {
    let sl = DISPLAY_START@.len() as int;
    let el = DISPLAY_END@.len() as int;
    match (find(raw, DISPLAY_START@), find(raw, DISPLAY_END@)) {
        (Some(s), Some(e)) => if s + sl <= e {
            (
                trim(raw.take(s) + raw.skip(e + el)),
                Some(trim(raw.subrange(s + sl, e))),
            )
        } else {
            (trim(raw), None)
        },
        _ => (trim(raw), None),
    }
}

/// Splits a wrapped run's output into its printed text and the JSON of its
/// display data.
pub fn split_display(raw: &String) -> (r: (String, Option<String>))
    ensures
        r.0@ == split_display_spec(raw@).0,
        opt_text(r.1) == split_display_spec(raw@).1,
{
    let v = chars_of(raw.as_str());
    let st = chars_of(DISPLAY_START);
    let en = chars_of(DISPLAY_END);
    match (find_vec(&v, &st), find_vec(&v, &en)) {
        (Some(s), Some(e)) => {
            proof {
                lemma_find_bound(v@, st@);
                lemma_find_bound(v@, en@);
            }
            if s <= v.len() - st.len() && s + st.len() <= e {
                let mut out = slice_of(&v, 0, s);
                push_all(&mut out, &slice_of(&v, e + en.len(), v.len()));
                assert(out@ =~= v@.take(s as int) + v@.skip(e + en@.len()));
                let json = trimmed(&slice_of(&v, s + st.len(), e));
                (string_of(&trimmed(&out)), Some(string_of(&json)))
            } else {
                (string_of(&trimmed(&v)), None)
            }
        },
        _ => (string_of(&trimmed(&v)), None),
    }
}

/// The words of a command line, split at white space (`str::split_whitespace`).
pub open spec fn words(s: Seq<char>) -> Seq<Seq<char>>
    decreases s.len(),
{
    if s.len() == 0 {
        Seq::<Seq<char>>::empty()
    } else {
        let t = crate::text::trim_start(s);
        if t.len() == 0 {
            Seq::<Seq<char>>::empty()
        } else {
            let k = word_end(t, 0);
            proof { lemma_word_end(t, 0); crate::text::lemma_lead_ws_bound(s); }
            seq![t.take(k)] + words(t.skip(k))
        }
    }
}

/// The end of the word of `t` that goes on at `i`.
pub open spec fn word_end(t: Seq<char>, i: int) -> int
    decreases t.len() - i,
{
    if i >= t.len() || is_ws(t[i]) {
        i
    } else {
        word_end(t, i + 1)
    }
}

pub proof fn lemma_word_end(t: Seq<char>, i: int)
    requires
        0 <= i <= t.len(),
    ensures
        i <= word_end(t, i) <= t.len(),
        i < t.len() && !is_ws(t[i]) ==> word_end(t, i) > i,
        forall|j: int| i <= j < word_end(t, i) ==> !is_ws(#[trigger] t[j]),
        word_end(t, i) < t.len() ==> is_ws(t[word_end(t, i)]),
    decreases t.len() - i,
{
    if i < t.len() && !is_ws(t[i]) {
        lemma_word_end(t, i + 1);
    }
}

/// The words of a command line, as `str::split_whitespace` gives them.
pub fn split_words(s: &String) -> (r: Vec<String>)
    ensures
        strs(r@) == words(s@),
{
    let mut rest = chars_of(s.as_str());
    let mut out: Vec<String> = Vec::new();
    assert(strs(out@) + words(rest@) =~= words(s@));
    while rest.len() > 0
        invariant
            strs(out@) + words(rest@) == words(s@),
        decreases rest.len(),
    {
        let lw = crate::text::lead_ws_len(&rest);
        let t = slice_of(&rest, lw, rest.len());
        assert(t@ =~= crate::text::trim_start(rest@));
        if t.len() == 0 {
            assert(words(rest@) =~= Seq::<Seq<char>>::empty());
            assert(strs(out@) + words(t@) =~= words(s@));
            rest = t;
        } else {
            let mut k: usize = 0;
            while k < t.len() && !crate::text::is_ws_char(t[k])
                invariant
                    k <= t.len(),
                    word_end(t@, 0) == word_end(t@, k as int),
                decreases t.len() - k,
            {
                k = k + 1;
            }
            proof {
                lemma_word_end(t@, 0);
            }
            let w = slice_of(&t, 0, k);
            let nr = slice_of(&t, k, t.len());
            assert(w@ =~= t@.take(k as int));
            assert(nr@ =~= t@.skip(k as int));
            assert(words(rest@) == seq![t@.take(k as int)] + words(t@.skip(k as int)));
            let ghost before = out@;
            let ws = string_of(&w);
            out.push(ws);
            assert(out@ == before.push(ws));
            assert(strs(out@) =~= strs(before).push(w@));
            assert(strs(out@) + words(nr@) =~= strs(before) + words(rest@));
            rest = nr;
        }
    }
    assert(words(rest@) =~= Seq::<Seq<char>>::empty());
    assert(strs(out@) =~= words(s@));
    out
}

} // verus!
