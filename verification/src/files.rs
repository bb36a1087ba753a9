//! The file tree of the sidebar and of the server's file list: in what
//! order a directory's entries come, which are shown, and the line each
//! becomes.
use vstd::prelude::*;
use crate::paths::{file_name, file_name_of, is_notebook, is_notebook_path};
use crate::state::{FileItem as SidebarItem, text_set};
use crate::text::{chars_of, starts_with};

verus! {

broadcast use vstd::seq_lib::to_multiset_insert, vstd::seq_lib::to_multiset_build;

/// Lexicographic order of texts, character by character.
pub open spec fn lex_lt(a: Seq<char>, b: Seq<char>) -> bool
    decreases a.len(),
{
    if a.len() == 0 {
        b.len() > 0
    } else if b.len() == 0 {
        false
    } else if a[0] != b[0] {
        a[0] < b[0]
    } else {
        lex_lt(a.drop_first(), b.drop_first())
    }
}

pub proof fn lemma_lex_trans(a: Seq<char>, b: Seq<char>, c: Seq<char>)
    requires
        lex_lt(a, b),
        lex_lt(b, c),
    ensures
        lex_lt(a, c),
    decreases a.len(),
{
    if a.len() > 0 && b.len() > 0 && c.len() > 0 {
        if a[0] == b[0] && b[0] == c[0] {
            lemma_lex_trans(a.drop_first(), b.drop_first(), c.drop_first());
        }
    }
}

pub proof fn lemma_lex_total(a: Seq<char>, b: Seq<char>)
    ensures
        a =~= b || lex_lt(a, b) || lex_lt(b, a),
    decreases a.len(),
{
    if a.len() > 0 && b.len() > 0 && a[0] == b[0] {
        lemma_lex_total(a.drop_first(), b.drop_first());
        if a.drop_first() =~= b.drop_first() {
            assert(a =~= seq![a[0]] + a.drop_first());
            assert(b =~= seq![b[0]] + b.drop_first());
        }
    }
}

pub proof fn lemma_lex_irrefl(a: Seq<char>)
    ensures
        !lex_lt(a, a),
    decreases a.len(),
{
    if a.len() > 0 {
        lemma_lex_irrefl(a.drop_first());
    }
}

/// A directory entry: its path and whether it is a directory.
pub type Entry = (String, bool);

/// Directories come before files; within each group, paths in
/// lexicographic order.
pub open spec fn before(a: Entry, b: Entry) -> bool {
    (a.1 && !b.1) || (a.1 == b.1 && lex_lt(a.0@, b.0@))
}

/// No entry comes after one that should follow it.
pub open spec fn sorted(s: Seq<Entry>) -> bool {
    forall|i: int, j: int| 0 <= i < j < s.len() ==> !before(#[trigger] s[j], #[trigger] s[i])
}

proof fn lemma_before_trans(a: Entry, b: Entry, c: Entry)
    requires
        before(a, b),
        before(b, c),
    ensures
        before(a, c),
{
    if a.1 == b.1 && b.1 == c.1 {
        lemma_lex_trans(a.0@, b.0@, c.0@);
    }
}

fn lex_less(a: &Vec<char>, b: &Vec<char>) -> (r: bool)
    ensures
        r == lex_lt(a@, b@),
{
    let mut i: usize = 0;
    assert(a@.skip(0) =~= a@);
    assert(b@.skip(0) =~= b@);
    while i < a.len() && i < b.len() && a[i] == b[i]
        invariant
            i <= a.len(),
            i <= b.len(),
            lex_lt(a@, b@) == lex_lt(a@.skip(i as int), b@.skip(i as int)),
        decreases a.len() - i,
    {
        assert(a@.skip(i as int).drop_first() =~= a@.skip(i + 1));
        assert(b@.skip(i as int).drop_first() =~= b@.skip(i + 1));
        i = i + 1;
    }
    if i == a.len() {
        i < b.len()
    } else if i == b.len() {
        false
    } else {
        assert(a@.skip(i as int)[0] == a@[i as int]);
        assert(b@.skip(i as int)[0] == b@[i as int]);
        a[i] < b[i]
    }
}

fn comes_before(a: &Entry, b: &Entry) -> (r: bool)
    ensures
        r == before(*a, *b),
{
    if a.1 && !b.1 {
        true
    } else if a.1 == b.1 {
        lex_less(&chars_of(a.0.as_str()), &chars_of(b.0.as_str()))
    } else {
        false
    }
}

/// The entries of a directory in the order the tree shows them:
/// directories first, then files, each group by path.
pub fn order_entries(entries: Vec<Entry>) -> (r: Vec<Entry>)
    ensures
        sorted(r@),
        r@.to_multiset() == entries@.to_multiset(),
{
    let mut out: Vec<Entry> = Vec::new();
    let mut k: usize = 0;
    let mut rest = entries;
    let ghost all = rest@;
    assert(all.take(0) =~= Seq::<Entry>::empty());
    while k < rest.len()
        invariant
            rest@ == all,
            k <= all.len(),
            sorted(out@),
            out@.to_multiset() == all.take(k as int).to_multiset(),
        decreases all.len() - k,
    {
        let e: Entry = (rest[k].0.clone(), rest[k].1);
        assert(e == all[k as int]);
        let mut p: usize = 0;
        while p < out.len() && !comes_before(&e, &out[p])
            invariant
                p <= out@.len(),
                forall|j: int| 0 <= j < p ==> !before(e, #[trigger] out@[j]),
            decreases out@.len() - p,
        {
            p = p + 1;
        }
        let ghost o = out@;
        out.insert(p, e);
        assert(out@ == o.insert(p as int, e));
        assert forall|i: int, j: int| 0 <= i < j < out@.len() implies !before(
            #[trigger] out@[j],
            #[trigger] out@[i],
        ) by {
            if j == p {
                assert(out@[i] == o[i]);
                assert(!before(e, o[i]));
                let x = o[i];
                if before(e, x) {
                } else {
                }
            } else if i == p {
                let y = o[j - 1];
                assert(out@[j] == y);
                assert(p < o.len());
                assert(before(e, o[p as int]));
                if before(y, e) {
                    if j - 1 > p {
                        assert(!before(o[j - 1], o[p as int]));
                        lemma_before_trans(y, e, o[p as int]);
                    } else {
                        lemma_before_trans(y, e, y);
                        lemma_lex_irrefl(y.0@);
                    }
                }
            } else {
                let ii = if i < p { i } else { i - 1 };
                let jj = if j < p { j } else { j - 1 };
                assert(out@[i] == o[ii]);
                assert(out@[j] == o[jj]);
                assert(ii < jj);
            }
        }
        assert(all.take(k + 1) =~= all.take(k as int).push(e));
        k = k + 1;
    }
    assert(all.take(all.len() as int) =~= all);
    out
}

// ---------------------------------------------------------------------------
// The sidebar
// ---------------------------------------------------------------------------

/// Whether a directory entry is shown in the sidebar: hidden entries (a
/// name starting with `.`) never are, and the application directory only
/// shows directories and notebooks.
pub open spec fn sidebar_shows(e: Entry, is_app_file: bool) -> bool {
    !starts_with(file_name(e.0@), "."@) && (!is_app_file || e.1 || is_notebook(e.0@))
}

/// The sidebar line for a shown entry of directory `dir`.
pub open spec fn sidebar_line(item: SidebarItem, e: Entry, dir: Seq<char>, depth: usize, is_app_file: bool, expanded: Seq<String>) -> bool {
    &&& item.path == Some(e.0)
    &&& item.label@ == file_name(e.0@)
    &&& !item.is_header
    &&& item.is_app_file == is_app_file
    &&& item.is_directory == e.1
    &&& item.is_expanded == text_set(expanded).contains(e.0@)
    &&& item.depth == depth
    &&& item.parent_path matches Some(p) && p@ == dir
}

/// Whether the sidebar shows this entry, and the line it becomes.
pub fn sidebar_entry(
    e: &Entry,
    dir: &String,
    depth: usize,
    is_app_file: bool,
    expanded: &Vec<String>,
) -> (r: Option<SidebarItem>)
    ensures
        r is Some <==> sidebar_shows(*e, is_app_file),
        r matches Some(item) ==> sidebar_line(item, *e, dir@, depth, is_app_file, expanded@),
{
    let name = file_name_of(e.0.as_str());
    if crate::text::starts_with_str(&chars_of(name.as_str()), ".") {
        return None;
    }
    if is_app_file && !e.1 && !is_notebook_path(e.0.as_str()) {
        return None;
    }
    let mut open = false;
    let mut i: usize = 0;
    while i < expanded.len()
        invariant
            i <= expanded@.len(),
            !open ==> forall|j: int| 0 <= j < i ==> expanded@[j]@ != e.0@,
            open ==> text_set(expanded@).contains(e.0@),
        decreases expanded@.len() - i,
    {
        if expanded[i] == e.0 {
            assert(expanded@[i as int]@ == e.0@);
            open = true;
        }
        i = i + 1;
    }
    Some(
        SidebarItem {
            path: Some(e.0.clone()),
            label: name,
            is_header: false,
            is_app_file,
            is_directory: e.1,
            is_expanded: open,
            depth,
            parent_path: Some(dir.clone()),
        },
    )
}

/// The sidebar selection after the tree was read again: kept (within the
/// new tree), or the first line when there was none.
pub fn restore_selection(prev: Option<usize>, len: usize) -> (r: Option<usize>)
    ensures
        r == Some(
            match prev {
                Some(s) => if len == 0 {
                    0usize
                } else if s > len - 1 {
                    (len - 1) as usize
                } else {
                    s
                },
                None => 0usize,
            },
        ),
{
    match prev {
        Some(s) => {
            let max = if len == 0 {
                0
            } else {
                len - 1
            };
            Some(
                if s > max {
                    max
                } else {
                    s
                },
            )
        },
        None => Some(0),
    }
}

// ---------------------------------------------------------------------------
// The server's file list
// ---------------------------------------------------------------------------

/// A line of the server's file list.
pub struct FileItem {
    pub path: Option<String>,
    pub label: String,
    pub is_header: bool,
    pub is_app_file: bool,
    pub is_directory: bool,
    pub is_expanded: bool,
    pub depth: usize,
}

/// The directories a client has expanded.
pub struct ListFilesRequest {
    pub expanded_dirs: Vec<String>,
}

/// A path to read or delete.
pub struct FilePath {
    pub path: String,
}

/// A file to write.
pub struct SaveRequest {
    pub path: String,
    pub content: String,
}

/// A file to rename.
pub struct RenameRequest {
    pub old_path: String,
    pub new_path: String,
}

/// A file to copy.
pub struct CopyRequest {
    pub src: String,
    pub dest: String,
}

/// Whether the server lists an entry: hidden entries only when asked for
/// (the `.newt` directory always), entries the ignore rules match only when
/// they are not respected (`ignored` is what the rules say), and in the
/// application directory only directories and notebooks.
pub open spec fn server_shows(e: Entry, is_app_file: bool, show_hidden: bool, respect_ignore: bool, ignored: bool) -> bool {
    let name = file_name(e.0@);
    let newt_dir = name == ".newt"@;
    &&& (show_hidden || newt_dir || !starts_with(name, "."@))
    &&& (is_app_file || !respect_ignore || newt_dir || !ignored)
    &&& (!is_app_file || e.1 || is_notebook(e.0@))
}

/// Whether the server lists an entry, and the line it becomes.
pub fn server_entry(
    e: &Entry,
    depth: usize,
    is_app_file: bool,
    show_hidden: bool,
    respect_ignore: bool,
    ignored: bool,
    expanded: &Vec<String>,
) -> (r: Option<FileItem>)
    ensures
        r is Some <==> server_shows(*e, is_app_file, show_hidden, respect_ignore, ignored),
        r matches Some(item) ==> {
            &&& item.path == Some(e.0)
            &&& item.label@ == file_name(e.0@)
            &&& !item.is_header
            &&& item.is_app_file == is_app_file
            &&& item.is_directory == e.1
            &&& item.is_expanded == text_set(expanded@).contains(e.0@)
            &&& item.depth == depth
        },
{
    let name = file_name_of(e.0.as_str());
    let nv = chars_of(name.as_str());
    let newt_dir = crate::text::equals_str(&nv, ".newt");
    if !show_hidden && !newt_dir && crate::text::starts_with_str(&nv, ".") {
        return None;
    }
    if !is_app_file && respect_ignore && !newt_dir && ignored {
        return None;
    }
    if is_app_file && !e.1 && !is_notebook_path(e.0.as_str()) {
        return None;
    }
    let mut open = false;
    let mut i: usize = 0;
    while i < expanded.len()
        invariant
            i <= expanded@.len(),
            !open ==> forall|j: int| 0 <= j < i ==> expanded@[j]@ != e.0@,
            open ==> text_set(expanded@).contains(e.0@),
        decreases expanded@.len() - i,
    {
        if expanded[i] == e.0 {
            assert(expanded@[i as int]@ == e.0@);
            open = true;
        }
        i = i + 1;
    }
    Some(
        FileItem {
            path: Some(e.0.clone()),
            label: name,
            is_header: false,
            is_app_file,
            is_directory: e.1,
            is_expanded: open,
            depth,
        },
    )
}

} // verus!
