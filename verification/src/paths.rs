//! File names and extensions of `/`-separated paths, as std's `Path`
//! reads them for the paths the editor builds (a directory joined with an
//! entry's name).
use vstd::prelude::*;
use crate::text::{
    chars_of, decimal, decimal_of, ends_with, push_all, push_str, rfind_char, rfind_char_vec,
    slice_of, string_of,
};

verus! {

/// The last component: what follows the last `/`.
pub open spec fn file_name(p: Seq<char>) -> Seq<char> {
    match rfind_char(p, '/') {
        Some(i) => p.skip(i + 1),
        None => p,
    }
}

/// The extension: what follows the last `.` of the file name, when that
/// `.` is not its first character (`..` has none).
pub open spec fn extension(p: Seq<char>) -> Option<Seq<char>> {
    let name = file_name(p);
    if name == ".."@ {
        None
    } else {
        match rfind_char(name, '.') {
            Some(k) => if k > 0 {
                Some(name.skip(k + 1))
            } else {
                None
            },
            None => None,
        }
    }
}

/// A notebook file: extension `md` or `newt`.
pub open spec fn is_notebook(p: Seq<char>) -> bool {
    extension(p) == Some("md"@) || extension(p) == Some("newt"@)
}

fn file_name_vec(p: &Vec<char>) -> (r: Vec<char>)
    ensures
        r@ == file_name(p@),
{
    match rfind_char_vec(p, '/') {
        Some(i) => {
            let r = slice_of(p, i + 1, p.len());
            assert(r@ =~= p@.skip(i + 1));
            r
        },
        None => slice_of(p, 0, p.len()),
    }
}

/// The last component of a path.
pub fn file_name_of(p: &str) -> (r: String)
    ensures
        r@ == file_name(p@),
{
    let v = chars_of(p);
    let r = file_name_vec(&v);
    assert(r@ == file_name(v@));
    string_of(&r)
}

/// The extension of a path, when it has one.
pub fn extension_of(p: &str) -> (r: Option<String>)
    ensures
        opt_text(r) == extension(p@),
{
    let v = chars_of(p);
    let name = file_name_vec(&v);
    if crate::text::equals_str(&name, "..") {
        return None;
    }
    match rfind_char_vec(&name, '.') {
        Some(k) => if k > 0 {
            let e = slice_of(&name, k + 1, name.len());
            assert(e@ =~= name@.skip(k + 1));
            Some(string_of(&e))
        } else {
            None
        },
        None => None,
    }
}

pub open spec fn opt_text(o: Option<String>) -> Option<Seq<char>> {
    match o {
        Some(s) => Some(s@),
        None => None,
    }
}

/// Whether the path names a notebook file (`.md` or `.newt`).
pub fn is_notebook_path(p: &str) -> (b: bool)
    ensures
        b == is_notebook(p@),
{
    match extension_of(p) {
        Some(e) => {
            let v = chars_of(e.as_str());
            crate::text::equals_str(&v, "md") || crate::text::equals_str(&v, "newt")
        },
        None => false,
    }
}

/// Whether the path names a JSON notebook (`.newt`).
pub fn is_newt_path(p: &str) -> (b: bool)
    ensures
        b == (extension(p@) == Some("newt"@)),
{
    match extension_of(p) {
        Some(e) => {
            let v = chars_of(e.as_str());
            crate::text::equals_str(&v, "newt")
        },
        None => false,
    }
}

/// Whether a save gives the path the `.md` extension: a path named for the
/// save that is not a notebook (`.md` or `.newt`) file gets it.
pub fn save_needs_md_extension(named: bool, p: &str) -> (b: bool)
    ensures
        b == (named && !is_notebook(p@)),
{
    named && !is_notebook_path(p)
}

/// Whether a notebook is saved as markdown (a `.md` path) rather than as
/// JSON.
pub fn saves_as_markdown(p: &str) -> (b: bool)
    ensures
        b == (extension(p@) == Some("md"@)),
{
    match extension_of(p) {
        Some(e) => {
            let v = chars_of(e.as_str());
            crate::text::equals_str(&v, "md")
        },
        None => false,
    }
}

/// The `n`-th name tried for a new notebook: `notebook.md`, then
/// `notebook2.md`, `notebook3.md`, ...
pub open spec fn default_notebook_name(n: nat) -> Seq<char> {
    if n <= 1 {
        "notebook.md"@
    } else {
        "notebook"@ + decimal(n) + ".md"@
    }
}

/// The `n`-th name tried for a new notebook.
pub fn default_notebook_name_of(n: u64) -> (r: String)
    ensures
        r@ == default_notebook_name(n as nat),
{
    if n <= 1 {
        string_of(&chars_of("notebook.md"))
    } else {
        let mut v = chars_of("notebook");
        push_all(&mut v, &crate::text::decimal_u64(n));
        push_str(&mut v, ".md");
        string_of(&v)
    }
}

/// A name given on the command line, with `.md` added unless it already
/// ends in `.md` or `.newt`.
pub open spec fn with_md(name: Seq<char>) -> Seq<char> {
    if ends_with(name, ".md"@) || ends_with(name, ".newt"@) {
        name
    } else {
        name + ".md"@
    }
}

pub fn with_md_of(name: &Vec<char>) -> (r: Vec<char>)
    ensures
        r@ == with_md(name@),
{
    let md = chars_of(".md");
    let newt = chars_of(".newt");
    if ends_with_vec(name, &md) || ends_with_vec(name, &newt) {
        slice_of(name, 0, name.len())
    } else {
        let mut r = slice_of(name, 0, name.len());
        push_all(&mut r, &md);
        r
    }
}

fn ends_with_vec(v: &Vec<char>, p: &Vec<char>) -> (b: bool)
    ensures
        b == ends_with(v@, p@),
{
    if p.len() > v.len() {
        return false;
    }
    let tail = slice_of(v, v.len() - p.len(), v.len());
    assert(tail@ =~= v@.skip(v.len() - p.len()));
    crate::text::equals_vec(&tail, p)
}

/// The name of the `n`-th copy of a file: `stem_copyN`, with the extension
/// after a `.` when there is one.
pub open spec fn copy_name(stem: Seq<char>, ext: Seq<char>, n: nat) -> Seq<char> {
    if ext.len() == 0 {
        stem + "_copy"@ + decimal(n)
    } else {
        stem + "_copy"@ + decimal(n) + "."@ + ext
    }
}

pub fn copy_name_of(stem: &str, ext: &str, n: u64) -> (r: String)
    ensures
        r@ == copy_name(stem@, ext@, n as nat),
{
    let mut v = chars_of(stem);
    push_str(&mut v, "_copy");
    push_all(&mut v, &crate::text::decimal_u64(n));
    if !ext.is_empty() {
        push_str(&mut v, ".");
        push_str(&mut v, ext);
    }
    string_of(&v)
}

} // verus!
