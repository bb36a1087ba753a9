//! Running a markdown notebook from the command line: which code cells run
//! (all of them, or those under one heading) and the request for each.
use vstd::prelude::*;
use crate::api::CommandRequest;
use crate::notebook::{Cell, CellType};
use crate::state::run_lang;
use crate::text::{chars_of, lines, lines_of, slice_of, starts_with, trim, trimmed, views};

verus! {

/// ASCII lower case (other characters are kept).
pub open spec fn ascii_lower(c: char) -> char {
    if 'A' <= c && c <= 'Z' {
        ((c as u32) + 32) as char
    } else {
        c
    }
}

/// `str::eq_ignore_ascii_case`.
pub open spec fn eq_ignore_ascii_case(a: Seq<char>, b: Seq<char>) -> bool {
    a.len() == b.len() && forall|i: int| 0 <= i < a.len() ==> ascii_lower(#[trigger] a[i]) == ascii_lower(b[i])
}

/// The number of `#` at the start of `t`.
pub open spec fn hashes(t: Seq<char>) -> nat
    decreases t.len(),
{
    if t.len() > 0 && t[0] == '#' {
        1 + hashes(t.drop_first())
    } else {
        0
    }
}

/// Whether the scan is inside the target section, and the target's level.
pub type Section = (bool, Option<nat>);

/// One line of a markdown cell: the target heading opens the section; a
/// heading of the same or a higher level closes it.
pub open spec fn scan_line(st: Section, line: Seq<char>, target: Seq<char>) -> Section {
    let t = trim(line);
    if starts_with(t, seq!['#']) {
        let hc = hashes(t);
        let text = trim(t.skip(hc as int));
        if eq_ignore_ascii_case(text, target) {
            (true, Some(hc))
        } else if st.0 {
            match st.1 {
                Some(l) => if hc <= l {
                    (false, st.1)
                } else {
                    st
                },
                None => st,
            }
        } else {
            st
        }
    } else {
        st
    }
}

pub open spec fn scan_lines(st: Section, ls: Seq<Seq<char>>, target: Seq<char>) -> Section
    decreases ls.len(),
{
    if ls.len() == 0 {
        st
    } else {
        scan_line(scan_lines(st, ls.drop_last(), target), ls.last(), target)
    }
}

/// The code cells among the first `n` under the target heading, and the
/// section state after them.
pub open spec fn pick(cells: Seq<Cell>, target: Seq<char>, n: int) -> (Seq<usize>, Section)
    decreases n,
{
    if n <= 0 {
        (Seq::<usize>::empty(), (false, None))
    } else {
        let prev = pick(cells, target, n - 1);
        let c = cells[n - 1];
        if c.cell_type == CellType::Markdown {
            (prev.0, scan_lines(prev.1, lines(c.content@), target))
        } else if prev.1.0 {
            (prev.0.push((n - 1) as usize), prev.1)
        } else {
            prev
        }
    }
}

/// The code cells among the first `n`.
pub open spec fn code_cells(cells: Seq<Cell>, n: int) -> Seq<usize>
    decreases n,
{
    if n <= 0 {
        Seq::<usize>::empty()
    } else {
        code_cells(cells, n - 1) + (if cells[n - 1].cell_type != CellType::Markdown {
            seq![(n - 1) as usize]
        } else {
            Seq::<usize>::empty()
        })
    }
}

fn ascii_lower_of(c: char) -> (r: char)
    ensures
        r == ascii_lower(c),
{
    if 'A' <= c && c <= 'Z' {
        ((c as u32) + 32) as u8 as char
    } else {
        c
    }
}

fn eq_ignore_case(a: &Vec<char>, b: &Vec<char>) -> (r: bool)
    ensures
        r == eq_ignore_ascii_case(a@, b@),
{
    if a.len() != b.len() {
        return false;
    }
    let mut i: usize = 0;
    while i < a.len()
        invariant
            a.len() == b.len(),
            i <= a.len(),
            forall|j: int| 0 <= j < i ==> ascii_lower(#[trigger] a@[j]) == ascii_lower(b@[j]),
        decreases a.len() - i,
    {
        if ascii_lower_of(a[i]) != ascii_lower_of(b[i]) {
            return false;
        }
        i = i + 1;
    }
    true
}

fn hashes_of(t: &Vec<char>) -> (n: usize)
    ensures
        n == hashes(t@),
        n <= t.len(),
{
    let mut i: usize = 0;
    assert(t@.skip(0) =~= t@);
    while i < t.len() && t[i] == '#'
        invariant
            i <= t.len(),
            hashes(t@) == i + hashes(t@.skip(i as int)),
        decreases t.len() - i,
    {
        assert(t@.skip(i as int).drop_first() =~= t@.skip(i + 1));
        i = i + 1;
    }
    i
}

fn scan_line_of(st: (bool, Option<usize>), line: &Vec<char>, target: &Vec<char>) -> (r: (bool, Option<usize>))
    ensures
        ({
            let s: Section = (st.0, match st.1 { Some(l) => Some(l as nat), None => None });
            let o: Section = (r.0, match r.1 { Some(l) => Some(l as nat), None => None });
            o == scan_line(s, line@, target@)
        }),
{
    let t = trimmed(line);
    if t.len() > 0 && t[0] == '#' {
        assert(starts_with(t@, seq!['#'])) by {
            assert(t@.take(1) =~= seq!['#']);
        }
        let hc = hashes_of(&t);
        let text = trimmed(&slice_of(&t, hc, t.len()));
        assert(t@.subrange(hc as int, t@.len() as int) =~= t@.skip(hc as int));
        if eq_ignore_case(&text, target) {
            (true, Some(hc))
        } else if st.0 {
            match st.1 {
                Some(l) => if hc <= l {
                    (false, st.1)
                } else {
                    st
                },
                None => st,
            }
        } else {
            st
        }
    } else {
        proof {
            if starts_with(t@, seq!['#']) {
                assert(t@.take(1)[0] == '#');
            }
        }
        st
    }
}

/// The cells a notebook run executes: with a heading, the code cells in
/// the section under that heading (matched ignoring ASCII case; the section
/// ends at a heading of the same or a higher level, and a later match opens
/// it again); without one, every code cell.
pub fn cells_to_run(cells: &Vec<Cell>, heading: &Option<String>) -> (r: Vec<usize>)
    ensures
        match heading {
            Some(h) => r@ == pick(cells@, h@, cells@.len() as int).0,
            None => r@ == code_cells(cells@, cells@.len() as int),
        },
{
    let mut out: Vec<usize> = Vec::new();
    match heading {
        None => {
            let mut i: usize = 0;
            while i < cells.len()
                invariant
                    i <= cells@.len(),
                    out@ == code_cells(cells@, i as int),
                decreases cells@.len() - i,
            {
                if cells[i].cell_type != CellType::Markdown {
                    out.push(i);
                }
                i = i + 1;
            }
            out
        },
        Some(h) => {
            let target = chars_of(h.as_str());
            let mut st: (bool, Option<usize>) = (false, None);
            let mut i: usize = 0;
            while i < cells.len()
                invariant
                    target@ == h@,
                    i <= cells@.len(),
                    ({
                        let p = pick(cells@, h@, i as int);
                        &&& out@ == p.0
                        &&& p.1 == (st.0, match st.1 { Some(l) => Some(l as nat), None => None })
                    }),
                decreases cells@.len() - i,
            {
                if cells[i].cell_type == CellType::Markdown {
                    let ls = lines_of(&chars_of(cells[i].content.as_str()));
                    let ghost l = views(ls@);
                    let ghost st0: Section = (st.0, match st.1 { Some(x) => Some(x as nat), None => None });
                    let mut k: usize = 0;
                    assert(l.take(0) =~= Seq::<Seq<char>>::empty());
                    while k < ls.len()
                        invariant
                            target@ == h@,
                            l == views(ls@),
                            k <= ls@.len(),
                            (st.0, match st.1 { Some(x) => Some(x as nat), None => None }) == scan_lines(
                                st0,
                                l.take(k as int),
                                h@,
                            ),
                        decreases ls@.len() - k,
                    {
                        assert(l.take(k + 1).drop_last() =~= l.take(k as int));
                        st = scan_line_of(st, &ls[k], &target);
                        k = k + 1;
                    }
                    assert(l.take(ls@.len() as int) =~= l);
                } else if st.0 {
                    out.push(i);
                }
                i = i + 1;
            }
            out
        },
    }
}

/// The request that runs a notebook cell from the command line: no
/// context, the notebook's path, `cli` as the client. Markdown cells have
/// none.
pub fn cli_request(cell: &Cell, notebook_path: &String) -> (r: Option<CommandRequest>)
    ensures
        r is None <==> cell.cell_type == CellType::Markdown,
        r matches Some(q) ==> {
            &&& q.command@ == cell.content@
            &&& crate::api::opt_str(q.language) == run_lang(cell.cell_type)
            &&& q.context is None
            &&& crate::api::opt_str(q.client_type) == Some("cli"@)
            &&& crate::api::opt_str(q.notebook_path) == Some(notebook_path@)
        },
{
    let lang: Option<&str> = match cell.cell_type {
        CellType::Rust => Some("rust"),
        CellType::Python => Some("python"),
        CellType::JavaScript => Some("javascript"),
        CellType::TypeScript => Some("typescript"),
        CellType::C => Some("c"),
        CellType::Cpp => Some("cpp"),
        CellType::Go => Some("go"),
        CellType::Shell => None,
        CellType::Markdown => return None,
    };
    Some(CommandRequest {
        command: cell.content.clone(),
        language: match lang {
            Some(n) => Some(n.to_owned()),
            None => None,
        },
        context: None,
        client_type: Some("cli".to_owned()),
        notebook_path: Some(notebook_path.clone()),
    })
}

} // verus!
