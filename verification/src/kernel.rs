//! The kernels that compile a notebook's cells as one program (Rust, C,
//! C++, Go): how the cells of one language are assembled into source.
use vstd::prelude::*;
use crate::pattern::{
    Pattern, compile, is_match, regex_compiles, regex_group1, regex_is_match, regex_replace,
    replace_first,
};
use crate::text::{
    chars_of, contains, contains_str, ends_with, find_from, occurs_at, decimal, decimal_of, find, find_vec, is_blank, join, join_vecs,
    lemma_find_bound, push_all, push_str, replace, replace_str, slice_of, starts_with, starts_with_str,
    string_of, trim, trimmed, views,
};

verus! {

/// The source lines of every cell, in order.
pub open spec fn strs(h: Seq<String>) -> Seq<Seq<char>> {
    Seq::new(h.len(), |i: int| h[i]@)
}

/// A `main` function in C or C++.
pub const C_MAIN: &'static str = "(?m)int\\s+main\\s*\\(";

/// Input support compiled into every C++ program: standard input is read
/// through the notebook's input request files.
pub const CPP_INPUT_SUPPORT: &'static str = r#"
#include <iostream>
#include <fstream>
#include <string>
#include <thread>
#include <chrono>
#include <filesystem>
#include <streambuf>
#include <vector>
#include <cstring>

namespace newt {
    class NewtStreamBuf : public std::streambuf {
        char buffer[1024];
    public:
        NewtStreamBuf() {
            setg(buffer, buffer, buffer);
        }

    protected:
        int underflow() override {
            if (gptr() < egptr()) {
                return traits_type::to_int_type(*gptr());
            }

            auto temp_dir = std::filesystem::temp_directory_path();
            auto req_path = temp_dir / "newt_web_input_req";
            auto res_path = temp_dir / "newt_web_input_res";

            if (std::filesystem::exists(res_path)) {
                std::filesystem::remove(res_path);
            }

            // Flush cout before waiting for input so user sees prompt
            std::cout.flush();

            {
                std::ofstream req(req_path);
                req << ""; 
            }

            while (!std::filesystem::exists(res_path)) {
                std::this_thread::sleep_for(std::chrono::milliseconds(100));
            }

            std::string input_data;
            {
                std::ifstream res(res_path);
                std::getline(res, input_data);
                input_data += "\n";
            }

            if (std::filesystem::exists(req_path)) std::filesystem::remove(req_path);
            if (std::filesystem::exists(res_path)) std::filesystem::remove(res_path);

            size_t len = input_data.length();
            if (len > sizeof(buffer)) len = sizeof(buffer);
            std::memcpy(buffer, input_data.c_str(), len);
            
            setg(buffer, buffer, buffer + len);

            return traits_type::to_int_type(*gptr());
        }
    };

    static NewtStreamBuf newt_buf;
    struct NewtInitializer {
        NewtInitializer() {
            std::cin.rdbuf(&newt_buf);
        }
    };
    static NewtInitializer newt_init;
}
"#;

/// One cell of a C or C++ program, given whether the `main` pattern
/// matches it (`has_main`) and the cell with that match renamed
/// (`renamed`). A cell with a `main` keeps it when it is the last cell and
/// has it renamed otherwise; a last cell without one is wrapped in a
/// `main`.
pub open spec fn c_block_of(b: Seq<char>, last: bool, has_main: bool, renamed: Seq<char>) -> Seq<char> {
    if has_main {
        if last {
            b
        } else {
            renamed
        }
    } else if last {
        "\nint main() {\n"@ + b + "\nreturn 0;\n}"@
    } else {
        b
    }
}

/// The name an earlier cell's `main` takes.
pub open spec fn c_ignored(i: int) -> Seq<char> {
    "int main_ignored_"@ + decimal(i as nat) + "("@
}

/// Cell `i` of a C or C++ program.
pub open spec fn c_block(h: Seq<Seq<char>>, i: int) -> Seq<char> {
    c_block_of(
        h[i],
        i == h.len() - 1,
        regex_is_match(C_MAIN@, h[i]),
        regex_replace(C_MAIN@, h[i], c_ignored(i)),
    )
}

/// One cell of a C or C++ program, from what the `main` pattern gave on
/// it: whether it matches, and the cell with the match renamed (read only
/// for an earlier cell with a `main`).
pub fn c_block_with(block: &str, last: bool, has_main: bool, renamed: &str) -> (r: String)
    ensures
        r@ == c_block_of(block@, last, has_main, renamed@),
{
    let mut out: Vec<char> = Vec::new();
    if has_main {
        if last {
            push_str(&mut out, block);
        } else {
            push_str(&mut out, renamed);
        }
    } else if last {
        push_str(&mut out, "\nint main() {\n");
        push_str(&mut out, block);
        push_str(&mut out, "\nreturn 0;\n}");
    } else {
        push_str(&mut out, block);
    }
    string_of(&out)
}

/// The first `n` cells, each followed by a newline.
pub open spec fn c_blocks(h: Seq<Seq<char>>, n: int) -> Seq<char>
    decreases n,
{
    if n <= 0 {
        seq![]
    } else {
        c_blocks(h, n - 1) + c_block(h, n - 1) + seq!['\n']
    }
}

/// `src` with `directive` put first unless it already holds it.
pub open spec fn with_include(src: Seq<char>, directive: Seq<char>) -> Seq<char> {
    if contains(src, directive) {
        src
    } else {
        directive + seq!['\n'] + src
    }
}

/// The C program for a sequence of cells.
pub open spec fn c_source(h: Seq<Seq<char>>) -> Seq<char> {
    with_include(c_blocks(h, h.len() as int), "#include <stdio.h>"@)
}

/// The C++ program for a sequence of cells.
pub open spec fn cpp_source(h: Seq<Seq<char>>) -> Seq<char> {
    CPP_INPUT_SUPPORT@ + seq!['\n'] + with_include(
        c_blocks(h, h.len() as int),
        "#include <iostream>"@,
    )
}

/// The cells of a C-family program, each followed by a newline.
pub fn c_family_blocks(history: &[String], main: &Pattern) -> (r: Vec<char>)
    requires
        main.source() == C_MAIN@,
    ensures
        r@ == c_blocks(strs(history@), history@.len() as int),
{
    let ghost h = strs(history@);
    let mut out: Vec<char> = Vec::new();
    let mut i: usize = 0;
    while i < history.len()
        invariant
            h == strs(history@),
            main.source() == C_MAIN@,
            i <= history.len(),
            out@ == c_blocks(h, i as int),
        decreases history.len() - i,
    {
        let block = history[i].as_str();
        assert(block@ == h[i as int]);
        let is_last = i == history.len() - 1;
        let has_main = is_match(main, block);
        let renamed = if has_main && !is_last {
            let mut rep = chars_of("int main_ignored_");
            let digits = decimal_of(i);
            push_all(&mut rep, &digits);
            rep.push('(');
            let reps = string_of(&rep);
            assert(reps@ =~= c_ignored(i as int)) by {
                reveal_strlit("(");
            }
            replace_first(main, block, reps.as_str())
        } else {
            String::new()
        };
        let piece = c_block_with(block, is_last, has_main, renamed.as_str());
        push_str(&mut out, piece.as_str());
        out.push('\n');
        i = i + 1;
    }
    out
}

fn with_include_vec(src: Vec<char>, directive: &str) -> (r: Vec<char>)
    ensures
        r@ == with_include(src@, directive@),
{
    if contains_str(&src, directive) {
        src
    } else {
        let mut r = chars_of(directive);
        r.push('\n');
        push_all(&mut r, &src);
        r
    }
}

/// The C program for the cells, with the `main` pattern already compiled.
pub fn c_source_with(history: &[String], main: &Pattern) -> (r: String)
    requires
        main.source() == C_MAIN@,
    ensures
        r@ == c_source(strs(history@)),
{
    let blocks = c_family_blocks(history, main);
    string_of(&with_include_vec(blocks, "#include <stdio.h>"))
}

/// The C++ program for the cells, with the `main` pattern already compiled.
pub fn cpp_source_with(history: &[String], main: &Pattern) -> (r: String)
    requires
        main.source() == C_MAIN@,
    ensures
        r@ == cpp_source(strs(history@)),
{
    let blocks = c_family_blocks(history, main);
    let body = with_include_vec(blocks, "#include <iostream>");
    let mut out = chars_of(CPP_INPUT_SUPPORT);
    out.push('\n');
    push_all(&mut out, &body);
    string_of(&out)
}

/// Runs the C cells of a notebook as one program. Holds no state: every run
/// recompiles all the cells it is given.
pub struct CKernel;

impl CKernel {
    pub fn new() -> (k: CKernel)
        ensures
            k == CKernel,
    {
        CKernel
    }

    /// Nothing to forget: the kernel holds no state.
    pub fn clear(&mut self)
        ensures
            *final(self) == *old(self),
    {
    }

    /// The C program for the cells (earlier cells first, the cell to run
    /// last); `None` only when the `main` pattern does not compile.
    pub fn construct_source(&self, history: &[String]) -> (r: Option<String>)
        ensures
            r is Some <==> regex_compiles(C_MAIN@),
            r matches Some(s) ==> s@ == c_source(strs(history@)),
    {
        match compile(C_MAIN) {
            Some(p) => Some(c_source_with(history, &p)),
            None => None,
        }
    }
}

/// Runs the C++ cells of a notebook as one program. Holds no state.
pub struct CppKernel;

impl CppKernel {
    pub fn new() -> (k: CppKernel)
        ensures
            k == CppKernel,
    {
        CppKernel
    }

    /// Nothing to forget: the kernel holds no state.
    pub fn clear(&mut self)
        ensures
            *final(self) == *old(self),
    {
    }

    /// The C++ program for the cells; `None` only when the `main` pattern
    /// does not compile.
    pub fn construct_source(&self, history: &[String]) -> (r: Option<String>)
        ensures
            r is Some <==> regex_compiles(C_MAIN@),
            r matches Some(s) ==> s@ == cpp_source(strs(history@)),
    {
        match compile(C_MAIN) {
            Some(p) => Some(cpp_source_with(history, &p)),
            None => None,
        }
    }
}

// ---------------------------------------------------------------------------
// Rust
// ---------------------------------------------------------------------------

/// The crate attributes that open every assembled Rust program.
pub const RUST_PRELUDE: &'static str = r#"
#![allow(unused_imports)]
#![allow(dead_code)]
#![allow(unused_variables)]
"#;

/// Input support for every assembled Rust program, up to the opening of
/// its `main`.
pub const RUST_INPUT_SUPPORT: &'static str = r#"

// Newt Input Support
use std::io::Read;
use std::io::Write;
use std::thread;
use std::time::Duration;
use std::fs;
use std::env;

mod newt_io {
    use std::io;
    pub struct Stdin;
    pub fn stdin() -> Stdin { Stdin }
    impl Stdin {
        pub fn read_line(&self, buf: &mut String) -> io::Result<usize> {
            let content = super::input();
            buf.push_str(&content);
            if !buf.ends_with('\n') {
                buf.push('\n');
            }
            Ok(content.len() + 1)
        }
    }
}

fn input() -> String {
    let temp_dir = env::temp_dir();
    let req_path = temp_dir.join("newt_web_input_req");
    let res_path = temp_dir.join("newt_web_input_res");

    if res_path.exists() {
        let _ = fs::remove_file(&res_path);
    }

    // Write request
    if let Ok(_) = fs::write(&req_path, "") {
        // Wait for response
        while !res_path.exists() {
            thread::sleep(Duration::from_millis(100));
        }
        
        if let Ok(content) = fs::read_to_string(&res_path) {
            let _ = fs::remove_file(&req_path);
            let _ = fs::remove_file(&res_path);
            return content;
        }
    }
    String::new()
}

fn main() {
"#;

/// A cell (or its rest) that starts with an item declaration.
pub open spec fn is_decl(c: Seq<char>) -> bool {
    starts_with(c, "fn "@) || starts_with(c, "struct "@) || starts_with(c, "enum "@) || starts_with(
        c,
        "impl "@,
    ) || starts_with(c, "mod "@) || starts_with(c, "type "@)
}

pub proof fn lemma_trim_len(s: Seq<char>)
    ensures
        trim(s).len() <= s.len(),
{
    crate::text::lemma_lead_ws_bound(s);
    crate::text::lemma_trail_ws_bound(crate::text::trim_start(s));
}

/// The leading `use` statements of a cell, each up to its `;`, and the rest.
pub open spec fn use_split(c: Seq<char>) -> (Seq<Seq<char>>, Seq<char>)
    decreases c.len(),
{
    if starts_with(c, "use "@) && find(c, ";"@) is Some {
        let end = find(c, ";"@).unwrap();
        proof {
            reveal_strlit(";");
            lemma_find_bound(c, ";"@);
            lemma_trim_len(c.skip(end + 1));
        }
        let rest = use_split(trim(c.skip(end + 1)));
        (seq![c.take(end + 1)] + rest.0, rest.1)
    } else {
        (seq![], c)
    }
}

/// Items (`use` statements and declarations), statements, and whether some
/// cell declares `main`, gathered from the first `n` cells.
pub open spec fn rust_scan(h: Seq<Seq<char>>, n: int) -> (Seq<Seq<char>>, Seq<Seq<char>>, bool)
    decreases n,
{
    if n <= 0 {
        (seq![], seq![], false)
    } else {
        let prev = rust_scan(h, n - 1);
        let parts = use_split(trim(h[n - 1]));
        let items = prev.0 + parts.0;
        let c = parts.1;
        if c.len() == 0 {
            (items, prev.1, prev.2)
        } else if is_decl(c) {
            (items.push(c), prev.1, prev.2 || starts_with(c, "fn main"@))
        } else {
            (items, prev.1.push(c), prev.2)
        }
    }
}

/// The items that do not declare `main`.
pub open spec fn without_main(items: Seq<Seq<char>>) -> Seq<Seq<char>>
    decreases items.len(),
{
    if items.len() == 0 {
        seq![]
    } else {
        without_main(items.drop_last()) + (if starts_with(trim(items.last()), "fn main"@) {
            Seq::<Seq<char>>::empty()
        } else {
            seq![items.last()]
        })
    }
}

/// Standard input redirected to the notebook's input support (both
/// rewrites in turn, as written).
pub open spec fn redirect_stdin(s: Seq<char>) -> Seq<char> {
    replace(replace(s, "std::io::stdin()"@, "newt_io::stdin()"@), "io::stdin()"@, "newt_io::stdin()"@)
}

/// The Rust program for a sequence of cells: loose statements (of every
/// cell) go in a generated `main` and any `main` the cells declare is left
/// out; without statements a declared `main` is used as it is, and without
/// either an empty `main` is generated.
pub open spec fn rust_source(h: Seq<Seq<char>>) -> Seq<char> {
    let p = rust_scan(h, h.len() as int);
    if p.1.len() > 0 {
        RUST_PRELUDE@ + redirect_stdin(join(without_main(p.0), "\n"@)) + RUST_INPUT_SUPPORT@
            + redirect_stdin(join(p.1, "\n"@)) + "\n}\n"@
    } else if p.2 {
        redirect_stdin(join(p.0, "\n"@))
    } else {
        RUST_PRELUDE@ + redirect_stdin(join(p.0, "\n"@)) + RUST_INPUT_SUPPORT@ + "}\n"@
    }
}

fn redirect_stdin_vec(v: &Vec<char>) -> (r: Vec<char>)
    ensures
        r@ == redirect_stdin(v@),
{
    proof {
        reveal_strlit("std::io::stdin()");
        reveal_strlit("io::stdin()");
    }
    let a = replace_str(v, "std::io::stdin()", "newt_io::stdin()");
    replace_str(&a, "io::stdin()", "newt_io::stdin()")
}

fn is_decl_vec(c: &Vec<char>) -> (b: bool)
    ensures
        b == is_decl(c@),
{
    starts_with_str(c, "fn ") || starts_with_str(c, "struct ") || starts_with_str(c, "enum ")
        || starts_with_str(c, "impl ") || starts_with_str(c, "mod ") || starts_with_str(c, "type ")
}

/// Runs the Rust cells of a notebook as one program. Holds no state.
pub struct RustKernel;

impl RustKernel {
    pub fn new() -> (k: RustKernel)
        ensures
            k == RustKernel,
    {
        RustKernel
    }

    /// Nothing to forget: the kernel holds no state.
    pub fn clear(&mut self)
        ensures
            *final(self) == *old(self),
    {
    }

    /// The Rust program for the cells (earlier cells first, the cell to run
    /// last).
    pub fn construct_source(&self, history: &[String]) -> (r: String)
        ensures
            r@ == rust_source(strs(history@)),
    {
        let ghost h = strs(history@);
        let mut items: Vec<Vec<char>> = Vec::new();
        let mut stmts: Vec<Vec<char>> = Vec::new();
        let mut has_main = false;
        let mut i: usize = 0;
        let semi = chars_of(";");
        while i < history.len()
            invariant
                h == strs(history@),
                semi@ == ";"@,
                i <= history.len(),
                (views(items@), views(stmts@), has_main) == rust_scan(h, i as int),
            decreases history.len() - i,
        {
            let block = chars_of(history[i].as_str());
            assert(block@ == h[i as int]);
            let mut content = trimmed(&block);
            let ghost c0 = content@;
            let ghost items0 = views(items@);
            let ghost uses: Seq<Seq<char>> = seq![];
            loop
                invariant
                    semi@ == ";"@,
                    use_split(c0) == (uses + use_split(content@).0, use_split(content@).1),
                    views(items@) == items0 + uses,
                ensures
                    use_split(c0) == (uses, content@),
                    views(items@) == items0 + uses,
                decreases content.len(),
            {
                if !starts_with_str(&content, "use ") {
                    assert(use_split(content@) == (Seq::<Seq<char>>::empty(), content@));
                    assert(uses + Seq::<Seq<char>>::empty() =~= uses);
                    break;
                }
                match find_vec(&content, &semi) {
                    None => {
                        assert(use_split(content@) == (Seq::<Seq<char>>::empty(), content@));
                        assert(uses + Seq::<Seq<char>>::empty() =~= uses);
                        break;
                    },
                    Some(end) => {
                        proof {
                            reveal_strlit(";");
                            lemma_find_bound(content@, semi@);
                            assert(find(content@, semi@) == Some(end as int));
                        }
                        let clen = content.len();
                        let stmt = slice_of(&content, 0, end + 1);
                        let rest = slice_of(&content, end + 1, content.len());
                        assert(stmt@ =~= content@.take(end + 1));
                        assert(rest@ =~= content@.skip(end + 1));
                        let next = trimmed(&rest);
                        proof { lemma_trim_len(rest@); }
                        let ghost before = views(items@);
                        proof {
                            assert(use_split(content@) == (
                                seq![stmt@] + use_split(next@).0,
                                use_split(next@).1,
                            ));
                            uses = uses.push(stmt@);
                            assert(seq![stmt@] + use_split(next@).0 =~= seq![stmt@] + use_split(
                                next@,
                            ).0);
                        }
                        items.push(stmt);
                        assert(views(items@) =~= before.push(stmt@));
                        assert(views(items@) =~= items0 + uses);
                        assert(uses + use_split(next@).0 =~= (uses.drop_last()) + (seq![stmt@]
                            + use_split(next@).0));
                        content = next;
                    },
                }
            }
            let ghost prev = rust_scan(h, i as int);
            if content.len() == 0 {
            } else if is_decl_vec(&content) {
                if starts_with_str(&content, "fn main") {
                    has_main = true;
                }
                let ghost before = views(items@);
                items.push(content);
                assert(views(items@) =~= before.push(c_last(c0)));
            } else {
                let ghost before = views(stmts@);
                stmts.push(content);
                assert(views(stmts@) =~= before.push(c_last(c0)));
            }
            i = i + 1;
        }
        let nl = chars_of("\n");
        let mut out: Vec<char> = Vec::new();
        if stmts.len() > 0 {
            let mut kept: Vec<Vec<char>> = Vec::new();
            let mut k: usize = 0;
            let ghost it = views(items@);
            assert(it.take(0) =~= Seq::<Seq<char>>::empty());
            while k < items.len()
                invariant
                    it == views(items@),
                    k <= items.len(),
                    views(kept@) == without_main(it.take(k as int)),
                decreases items.len() - k,
            {
                assert(it.take(k + 1).drop_last() =~= it.take(k as int));
                assert(it.take(k + 1).last() == items@[k as int]@);
                let t = trimmed(&items[k]);
                if !starts_with_str(&t, "fn main") {
                    let ghost before = views(kept@);
                    let x = slice_of(&items[k], 0, items[k].len());
                    assert(x@ =~= it[k as int]);
                    kept.push(x);
                    assert(views(kept@) =~= before + seq![it[k as int]]);
                } else {
                    assert(without_main(it.take(k + 1)) =~= without_main(it.take(k as int)));
                }
                k = k + 1;
            }
            assert(it.take(items.len() as int) =~= it);
            push_str(&mut out, RUST_PRELUDE);
            push_all(&mut out, &redirect_stdin_vec(&join_vecs(&kept, &nl)));
            push_str(&mut out, RUST_INPUT_SUPPORT);
            push_all(&mut out, &redirect_stdin_vec(&join_vecs(&stmts, &nl)));
            push_str(&mut out, "\n}\n");
        } else if has_main {
            push_all(&mut out, &redirect_stdin_vec(&join_vecs(&items, &nl)));
        } else {
            push_str(&mut out, RUST_PRELUDE);
            push_all(&mut out, &redirect_stdin_vec(&join_vecs(&items, &nl)));
            push_str(&mut out, RUST_INPUT_SUPPORT);
            push_str(&mut out, "}\n");
        }
        string_of(&out)
    }
}

/// What is left of a cell once its leading `use` statements are taken.
pub open spec fn c_last(c0: Seq<char>) -> Seq<char> {
    use_split(c0).1
}

// ---------------------------------------------------------------------------
// Programs for a run
// ---------------------------------------------------------------------------

/// The cells a run covers: the context (earlier cells), then the code.
pub open spec fn history(code: String, context: Option<Vec<String>>) -> Seq<Seq<char>> {
    match context {
        Some(c) => strs(c@).push(code@),
        None => seq![code@],
    }
}

fn history_of(code: String, context: Option<Vec<String>>) -> (h: Vec<String>)
    ensures
        strs(h@) == history(code, context),
{
    let mut h = match context {
        Some(c) => c,
        None => Vec::new(),
    };
    let ghost before = h@;
    h.push(code);
    assert(strs(h@) =~= strs(before).push(h@.last()@));
    h
}

/// A kernel that runs a notebook's cells of one language as one program:
/// it assembles the program for a run, which the caller compiles and runs.
pub trait Kernel {
    /// The program that runs `code` after the cells of `context`; `None`
    /// when the kernel cannot assemble one.
    fn program(&self, code: String, context: Option<Vec<String>>) -> Option<String>;
}

impl Kernel for RustKernel {
    fn program(&self, code: String, context: Option<Vec<String>>) -> (r: Option<String>)
        ensures
            r matches Some(s) && s@ == rust_source(history(code, context)),
    {
        let h = history_of(code, context);
        Some(self.construct_source(h.as_slice()))
    }
}

impl Kernel for CKernel {
    fn program(&self, code: String, context: Option<Vec<String>>) -> (r: Option<String>)
        ensures
            r is Some <==> regex_compiles(C_MAIN@),
            r matches Some(s) ==> s@ == c_source(history(code, context)),
    {
        let h = history_of(code, context);
        self.construct_source(h.as_slice())
    }
}

impl Kernel for CppKernel {
    fn program(&self, code: String, context: Option<Vec<String>>) -> (r: Option<String>)
        ensures
            r is Some <==> regex_compiles(C_MAIN@),
            r matches Some(s) ==> s@ == cpp_source(history(code, context)),
    {
        let h = history_of(code, context);
        self.construct_source(h.as_slice())
    }
}

impl Kernel for crate::go_kernel::GoKernel {
    fn program(&self, code: String, context: Option<Vec<String>>) -> (r: Option<String>)
        ensures
            r is Some <==> (regex_compiles(crate::go_kernel::GO_MAIN@) && regex_compiles(
                crate::go_kernel::GO_PACKAGE@,
            ) && regex_compiles(crate::go_kernel::GO_IMPORT_ONE@) && regex_compiles(
                crate::go_kernel::GO_IMPORT_BLOCK@,
            )),
            r matches Some(s) ==> s@ == crate::go_kernel::go_source(history(code, context)),
    {
        let h = history_of(code, context);
        self.construct_source(h.as_slice())
    }
}

/// The Rust kernel of a slot, started when the slot is still empty.
pub fn get_or_init_rust_kernel(slot: &mut Option<RustKernel>)
    ensures
        *final(slot) is Some,
        *old(slot) is Some ==> *final(slot) == *old(slot),
{
    if slot.is_none() {
        *slot = Some(RustKernel::new());
    }
}

/// The C kernel of a slot, started when the slot is still empty.
pub fn get_or_init_c_kernel(slot: &mut Option<CKernel>)
    ensures
        *final(slot) is Some,
        *old(slot) is Some ==> *final(slot) == *old(slot),
{
    if slot.is_none() {
        *slot = Some(CKernel::new());
    }
}

/// The C++ kernel of a slot, started when the slot is still empty.
pub fn get_or_init_cpp_kernel(slot: &mut Option<CppKernel>)
    ensures
        *final(slot) is Some,
        *old(slot) is Some ==> *final(slot) == *old(slot),
{
    if slot.is_none() {
        *slot = Some(CppKernel::new());
    }
}

/// The Go kernel of a slot, started when the slot is still empty.
pub fn get_or_init_go_kernel(slot: &mut Option<crate::go_kernel::GoKernel>)
    ensures
        *final(slot) is Some,
        *old(slot) is Some ==> *final(slot) == *old(slot),
{
    if slot.is_none() {
        *slot = Some(crate::go_kernel::GoKernel::new());
    }
}

// ---------------------------------------------------------------------------
// Crates a Rust program needs
// ---------------------------------------------------------------------------

/// A `use` at the start of a line; group 1 is the first path segment.
pub const RUST_USE: &'static str = "(?m)^\\s*use\\s+([a-zA-Z0-9_]+)";

/// A crate declaration at the start of a line; group 1 is the crate.
pub const RUST_CRATE_DECL: &'static str = "(?m)^\\s*extern\\s+crate\\s+([a-zA-Z0-9_]+)";

/// The path roots that name no crate to fetch.
pub open spec fn builtin_root(d: Seq<char>) -> bool {
    d == "std"@ || d == "core"@ || d == "alloc"@ || d == "crate"@ || d == "super"@ || d == "self"@
}

/// The roots of `use` paths, builtin roots left out, each once.
pub open spec fn add_uses(deps: Seq<Seq<char>>, caps: Seq<Option<Seq<char>>>) -> Seq<Seq<char>>
    decreases caps.len(),
{
    if caps.len() == 0 {
        deps
    } else {
        let prev = add_uses(deps, caps.drop_last());
        match caps.last() {
            Some(d) => if builtin_root(d) {
                prev
            } else {
                crate::go_kernel::add_import(prev, d)
            },
            None => prev,
        }
    }
}

/// The crates a Rust program uses: the roots of its `use` paths (builtin
/// ones left out) and its declared crates, each once, in order of first
/// appearance.
pub open spec fn rust_deps(source: Seq<char>) -> Seq<Seq<char>> {
    crate::go_kernel::add_singles(
        add_uses(seq![], regex_group1(RUST_USE@, source)),
        regex_group1(RUST_CRATE_DECL@, source),
    )
}

fn is_builtin_root(d: &Vec<char>) -> (b: bool)
    ensures
        b == builtin_root(d@),
{
    crate::text::equals_str(d, "std") || crate::text::equals_str(d, "core")
        || crate::text::equals_str(d, "alloc") || crate::text::equals_str(d, "crate")
        || crate::text::equals_str(d, "super") || crate::text::equals_str(d, "self")
}

/// The crates a Rust program needs fetched, from what the two patterns
/// captured: the roots of its `use` paths (`caps`, builtin roots left
/// out) and its declared crates (`decl_caps`), each once, in order.
pub fn deps_from_captures(caps: &Vec<Option<String>>, decl_caps: &Vec<Option<String>>) -> (r: Vec<String>)
    ensures
        strs(r@) == crate::go_kernel::add_singles(
            add_uses(seq![], crate::pattern::opt_views(caps@)),
            crate::pattern::opt_views(decl_caps@),
        ),
{
    let ghost cs = crate::pattern::opt_views(caps@);
    let mut deps: Vec<Vec<char>> = Vec::new();
    let mut k: usize = 0;
    assert(cs.take(0) =~= Seq::<Option<Seq<char>>>::empty());
    while k < caps.len()
        invariant
            cs == crate::pattern::opt_views(caps@),
            k <= caps.len(),
            views(deps@) == add_uses(seq![], cs.take(k as int)),
        decreases caps.len() - k,
    {
        assert(cs.take(k + 1).drop_last() =~= cs.take(k as int));
        match &caps[k] {
            Some(d) => {
                let dv = chars_of(d.as_str());
                if !is_builtin_root(&dv) {
                    crate::go_kernel::add_import_vec(&mut deps, dv);
                }
            },
            None => {},
        }
        k = k + 1;
    }
    assert(cs.take(caps.len() as int) =~= cs);
    crate::go_kernel::add_singles_vec(&mut deps, decl_caps);
    let mut out: Vec<String> = Vec::new();
    let mut j: usize = 0;
    while j < deps.len()
        invariant
            j <= deps@.len(),
            strs(out@) == views(deps@).take(j as int),
        decreases deps@.len() - j,
    {
        let ghost before = out@;
        let sj = string_of(&deps[j]);
        out.push(sj);
        assert(out@ == before.push(sj));
        assert(strs(out@) =~= strs(before).push(sj@));
        assert(views(deps@).take(j + 1) =~= views(deps@).take(j as int).push(deps@[j as int]@));
        j = j + 1;
    }
    assert(views(deps@).take(deps@.len() as int) =~= views(deps@));
    out
}

/// The crates a Rust program needs fetched; `None` when the patterns do
/// not compile.
pub fn rust_dependencies(source: &String) -> (r: Option<Vec<String>>)
    ensures
        r is Some <==> (regex_compiles(RUST_USE@) && regex_compiles(RUST_CRATE_DECL@)),
        r matches Some(v) ==> strs(v@) == rust_deps(source@),
{
    let uses = match compile(RUST_USE) {
        Some(p) => p,
        None => return None,
    };
    let decls = match compile(RUST_CRATE_DECL) {
        Some(p) => p,
        None => return None,
    };
    let caps = crate::pattern::group1_all(&uses, source.as_str());
    let decl_caps = crate::pattern::group1_all(&decls, source.as_str());
    Some(deps_from_captures(&caps, &decl_caps))
}

/// Whether `cargo add` must still be run for `dep`: the manifest names it
/// neither as `dep =` nor as `"dep"`.
pub fn needs_cargo_add(dep: &String, manifest: &String) -> (b: bool)
    ensures
        b == (!contains(manifest@, dep@ + " ="@) && !contains(manifest@, "\""@ + dep@ + "\""@)),
{
    let m = chars_of(manifest.as_str());
    let mut a = chars_of(dep.as_str());
    push_str(&mut a, " =");
    let mut q = chars_of("\"");
    push_str(&mut q, dep.as_str());
    push_str(&mut q, "\"");
    !crate::text::contains_vec(&m, &a) && !crate::text::contains_vec(&m, &q)
}

/// A C program holds `#include <stdio.h>`, and a C++ one `#include
/// <iostream>`; when the last cell has no `main`, both end with that cell
/// wrapped in one.
pub proof fn law_c_family_program_shape(h: Seq<Seq<char>>)
    requires
        h.len() > 0,
    ensures
        contains(c_source(h), "#include <stdio.h>"@),
        contains(cpp_source(h), "#include <iostream>"@),
        !regex_is_match(C_MAIN@, h.last()) ==> ends_with(
            c_source(h),
            "\nint main() {\n"@ + h.last() + "\nreturn 0;\n}\n"@,
        ),
        !regex_is_match(C_MAIN@, h.last()) ==> ends_with(
            cpp_source(h),
            "\nint main() {\n"@ + h.last() + "\nreturn 0;\n}\n"@,
        ),
{
    let n = h.len() as int;
    let blocks = c_blocks(h, n);
    let w = with_include(blocks, "#include <iostream>"@);
    let pre = CPP_INPUT_SUPPORT@ + seq!['\n'];
    assert(cpp_source(h) == pre + w);
    lemma_with_include_holds(blocks, "#include <stdio.h>"@);
    lemma_with_include_holds(blocks, "#include <iostream>"@);
    lemma_prefix_keeps_contains(pre, w, "#include <iostream>"@);
    if !regex_is_match(C_MAIN@, h.last()) {
        let tail = "\nint main() {\n"@ + h.last() + "\nreturn 0;\n}\n"@;
        lemma_blocks_tail(h);
        lemma_with_include_suffix(blocks, "#include <stdio.h>"@, tail);
        lemma_with_include_suffix(blocks, "#include <iostream>"@, tail);
        lemma_prefix_keeps_suffix(pre, w, tail);
    }
}

proof fn lemma_blocks_tail(h: Seq<Seq<char>>)
    requires
        h.len() > 0,
        !regex_is_match(C_MAIN@, h.last()),
    ensures
        ends_with(c_blocks(h, h.len() as int), "\nint main() {\n"@ + h.last() + "\nreturn 0;\n}\n"@),
{
    let n = h.len() as int;
    let blocks = c_blocks(h, n);
    let tail = "\nint main() {\n"@ + h.last() + "\nreturn 0;\n}\n"@;
    reveal_strlit("\nreturn 0;\n}");
    reveal_strlit("\nreturn 0;\n}\n");
    assert(c_block(h, n - 1) == "\nint main() {\n"@ + h[n - 1] + "\nreturn 0;\n}"@);
    assert(blocks == c_blocks(h, n - 1) + c_block(h, n - 1) + seq!['\n']);
    assert(blocks.skip(blocks.len() - tail.len()) =~= tail);
}

proof fn lemma_prefix_keeps_contains(pre: Seq<char>, w: Seq<char>, d: Seq<char>)
    requires
        contains(w, d),
    ensures
        contains(pre + w, d),
{
    lemma_find_bound(w, d);
    let j = find(w, d).unwrap();
    let s = pre + w;
    assert(s.subrange(pre.len() + j, pre.len() + j + d.len()) =~= w.subrange(j, j + d.len()));
    lemma_occurs_contains(s, d, pre.len() + j);
}

proof fn lemma_prefix_keeps_suffix(pre: Seq<char>, w: Seq<char>, tail: Seq<char>)
    requires
        ends_with(w, tail),
    ensures
        ends_with(pre + w, tail),
{
    let s = pre + w;
    assert(s.skip(s.len() - tail.len()) =~= w.skip(w.len() - tail.len()));
}

proof fn lemma_occurs_contains(s: Seq<char>, p: Seq<char>, i: int)
    requires
        occurs_at(s, p, i),
    ensures
        contains(s, p),
    decreases i,
{
    lemma_find_from_reaches(s, p, 0, i);
}

proof fn lemma_find_from_reaches(s: Seq<char>, p: Seq<char>, from: int, i: int)
    requires
        0 <= from <= i,
        occurs_at(s, p, i),
    ensures
        find_from(s, p, from) is Some,
    decreases i - from,
{
    if !occurs_at(s, p, from) {
        lemma_find_from_reaches(s, p, from + 1, i);
    }
}

proof fn lemma_with_include_holds(src: Seq<char>, d: Seq<char>)
    ensures
        contains(with_include(src, d), d),
{
    if !contains(src, d) {
        let w = d + seq!['\n'] + src;
        assert(w.subrange(0, d.len() as int) =~= d);
        lemma_occurs_contains(w, d, 0);
    }
}

proof fn lemma_with_include_suffix(src: Seq<char>, d: Seq<char>, tail: Seq<char>)
    requires
        ends_with(src, tail),
    ensures
        ends_with(with_include(src, d), tail),
{
    if !contains(src, d) {
        let w = d + seq!['\n'] + src;
        assert(w.skip(w.len() - tail.len()) =~= src.skip(src.len() - tail.len()));
    }
}

/// A cell text that begins a Rust item: `fn `, `struct `, `enum `,
/// `impl `, `mod ` or `type `.
pub open spec fn rust_item_text(t: Seq<char>) -> bool {
    ||| starts_with(t, "fn "@)
    ||| starts_with(t, "struct "@)
    ||| starts_with(t, "enum "@)
    ||| starts_with(t, "impl "@)
    ||| starts_with(t, "mod "@)
    ||| starts_with(t, "type "@)
}

proof fn lemma_item_not_use(t: Seq<char>)
    requires
        rust_item_text(t),
    ensures
        !starts_with(t, "use "@),
        t.len() > 0,
        is_decl(t),
{
    reveal_strlit("use ");
    reveal_strlit("fn ");
    reveal_strlit("struct ");
    reveal_strlit("enum ");
    reveal_strlit("impl ");
    reveal_strlit("mod ");
    reveal_strlit("type ");
    assert("use "@[0] == 'u');
    if starts_with(t, "fn "@) {
        assert(t[0] == "fn "@[0]);
    } else if starts_with(t, "struct "@) {
        assert(t[0] == "struct "@[0]);
    } else if starts_with(t, "enum "@) {
        assert(t[0] == "enum "@[0]);
    } else if starts_with(t, "impl "@) {
        assert(t[0] == "impl "@[0]);
    } else if starts_with(t, "mod "@) {
        assert(t[0] == "mod "@[0]);
    } else {
        assert(t[0] == "type "@[0]);
    }
}

proof fn lemma_items_scan(h: Seq<Seq<char>>, n: int)
    requires
        0 <= n <= h.len(),
        forall|i: int| 0 <= i < h.len() ==> rust_item_text(#[trigger] trim(h[i])),
    ensures
        rust_scan(h, n).0 == Seq::new(n as nat, |i: int| trim(h[i])),
        rust_scan(h, n).1.len() == 0,
        rust_scan(h, n).2 == exists|i: int| 0 <= i < n && starts_with(#[trigger] trim(h[i]), "fn main"@),
    decreases n,
{
    if n > 0 {
        lemma_items_scan(h, n - 1);
        let t = trim(h[n - 1]);
        lemma_item_not_use(t);
        assert(use_split(t) == (Seq::<Seq<char>>::empty(), t));
        let prev = rust_scan(h, n - 1);
        assert(prev.0 + Seq::<Seq<char>>::empty() =~= prev.0);
        assert(prev.0.push(t) =~= Seq::new(n as nat, |i: int| trim(h[i])));
        if starts_with(t, "fn main"@) {
            assert(exists|i: int| 0 <= i < n && starts_with(#[trigger] trim(h[i]), "fn main"@));
        }
        if rust_scan(h, n).2 {
        } else {
            assert forall|i: int| 0 <= i < n implies !starts_with(#[trigger] trim(h[i]), "fn main"@) by {
                if i < n - 1 {
                }
            }
        }
    }
}

/// Cells that are all items are kept at top level, never run as
/// statements: when one of them is a `fn main`, the program is exactly the
/// cells (trimmed) joined by line breaks, with standard input redirected to
/// the notebook's input support.
pub proof fn law_rust_items_stay_at_top_level(h: Seq<Seq<char>>)
    requires
        forall|i: int| 0 <= i < h.len() ==> rust_item_text(#[trigger] trim(h[i])),
        exists|i: int| 0 <= i < h.len() && starts_with(#[trigger] trim(h[i]), "fn main"@),
    ensures
        rust_source(h) == redirect_stdin(join(Seq::new(h.len(), |i: int| trim(h[i])), "\n"@)),
{
    lemma_items_scan(h, h.len() as int);
}

} // verus!
