//! Turning a saved terminal session into notebook markdown: find the shell
//! prompt, then make every prompted command a shell cell with its output.
use vstd::prelude::*;
use crate::markdown::marked;
use crate::text::{
    chars_of, contains, find, find_vec, is_blank, lemma_unlines_push, lines, lines_of, push_all,
    push_str, replace, replace_vec, slice_of, starts_with, starts_with_vec, string_of, trim,
    trimmed, unlines, views,
};

verus! {

// ---------------------------------------------------------------------------
// Specification
// ---------------------------------------------------------------------------

/// The lines of `ls` that hold more than whitespace.
pub open spec fn non_blank(ls: Seq<Seq<char>>) -> Seq<Seq<char>>
    decreases ls.len(),
{
    if ls.len() == 0 {
        seq![]
    } else {
        non_blank(ls.drop_last()) + (if trim(ls.last()).len() != 0 {
            seq![ls.last()]
        } else {
            Seq::<Seq<char>>::empty()
        })
    }
}

/// How many lines start with `p`.
pub open spec fn count_prefixed(ls: Seq<Seq<char>>, p: Seq<char>) -> nat
    decreases ls.len(),
{
    if ls.len() == 0 {
        0
    } else {
        count_prefixed(ls.drop_last(), p) + (if starts_with(ls.last(), p) { 1nat } else { 0nat })
    }
}

/// A line that starts with `user` and holds both `@` and the prompt character.
pub open spec fn user_line(l: Seq<char>, user: Seq<char>, pc: char) -> bool {
    starts_with(l, user) && contains(l, seq!['@']) && contains(l, seq![pc])
}

pub open spec fn count_user(ls: Seq<Seq<char>>, user: Seq<char>, pc: char) -> nat
    decreases ls.len(),
{
    if ls.len() == 0 {
        0
    } else {
        count_user(ls.drop_last(), user, pc) + (if user_line(ls.last(), user, pc) {
            1nat
        } else {
            0nat
        })
    }
}

/// The prompt that prompt character `pc` gives, judged on the non-blank
/// lines `ne`: the `user` part before `@` when at least two lines start with
/// it (and hold `@` and `pc`), else the whole prompt of the first line when
/// at least two lines start with it.
pub open spec fn prompt_for(ne: Seq<Seq<char>>, pc: char) -> Option<Seq<char>> {
    let first = ne[0];
    match find(first, seq![pc, ' ']) {
        None => None,
        Some(pos) => {
            let full = first.take(pos + 2);
            let by_user = match find(full, seq!['@']) {
                Some(at) => if count_user(ne, full.take(at), pc) >= 2 {
                    Some(full.take(at))
                } else {
                    None
                },
                None => None,
            };
            if by_user is Some {
                by_user
            } else if count_prefixed(ne, full) >= 2 {
                Some(full)
            } else {
                None
            }
        },
    }
}

/// The prompt detected in a saved session, trying `%`, `$`, `#`, `>` in turn.
pub open spec fn detect_spec(content: Seq<char>) -> Option<Seq<char>> {
    let ne = non_blank(lines(content));
    if ne.len() == 0 {
        None
    } else if prompt_for(ne, '%') is Some {
        prompt_for(ne, '%')
    } else if prompt_for(ne, '$') is Some {
        prompt_for(ne, '$')
    } else if prompt_for(ne, '#') is Some {
        prompt_for(ne, '#')
    } else {
        prompt_for(ne, '>')
    }
}

/// What follows the first prompt character (with its space) on a line.
pub open spec fn after_prompt_char(line: Seq<char>) -> Option<Seq<char>> {
    if find(line, seq!['%', ' ']) is Some {
        Some(line.skip(find(line, seq!['%', ' ']).unwrap() + 2))
    } else if find(line, seq!['$', ' ']) is Some {
        Some(line.skip(find(line, seq!['$', ' ']).unwrap() + 2))
    } else if find(line, seq!['#', ' ']) is Some {
        Some(line.skip(find(line, seq!['#', ' ']).unwrap() + 2))
    } else if find(line, seq!['>', ' ']) is Some {
        Some(line.skip(find(line, seq!['>', ' ']).unwrap() + 2))
    } else {
        None
    }
}

/// The command on a prompt line. A prompt without `@` or space is a user
/// name: the line must start with it and hold `@`, and the command follows
/// the prompt character. Any other prompt must start the line exactly.
pub open spec fn extract_spec(line: Seq<char>, prompt: Seq<char>) -> Option<Seq<char>> {
    if !contains(prompt, seq!['@']) && !contains(prompt, seq![' ']) {
        if starts_with(line, prompt) && contains(line, seq!['@']) {
            after_prompt_char(line)
        } else {
            None
        }
    } else if starts_with(line, prompt) {
        Some(line.skip(prompt.len() as int))
    } else {
        None
    }
}

/// Index of the first prompt line at or after `j`.
pub open spec fn next_prompt(ls: Seq<Seq<char>>, prompt: Seq<char>, j: int) -> int
    decreases ls.len() - j,
{
    if j < 0 || j >= ls.len() {
        ls.len() as int
    } else if extract_spec(ls[j], prompt) is Some {
        j
    } else {
        next_prompt(ls, prompt, j + 1)
    }
}

/// `ls` without its trailing blank lines.
pub open spec fn drop_blank_tail(ls: Seq<Seq<char>>) -> Seq<Seq<char>>
    decreases ls.len(),
{
    if ls.len() > 0 && trim(ls.last()).len() == 0 {
        drop_blank_tail(ls.drop_last())
    } else {
        ls
    }
}

/// The shell cell for one command and its output lines.
pub open spec fn command_block(cmd: Seq<char>, outs: Seq<Seq<char>>) -> Seq<char> {
    "```sh\n"@ + cmd + "\n```\n"@ + (if outs.len() > 0 {
        unlines(marked(outs)) + seq!['\n']
    } else {
        seq!['\n']
    })
}

pub proof fn lemma_next_prompt_bound(ls: Seq<Seq<char>>, prompt: Seq<char>, j: int)
    requires
        0 <= j <= ls.len(),
    ensures
        j <= next_prompt(ls, prompt, j) <= ls.len(),
    decreases ls.len() - j,
{
    if j < ls.len() && extract_spec(ls[j], prompt) is None {
        lemma_next_prompt_bound(ls, prompt, j + 1);
    }
}

/// The markdown for lines `ls[i..]` of a session.
pub open spec fn convert_from(ls: Seq<Seq<char>>, prompt: Seq<char>, i: int) -> Seq<char>
    decreases ls.len() - i,
{
    if i < 0 || i >= ls.len() {
        seq![]
    } else {
        match extract_spec(ls[i], prompt) {
            Some(cmd) => if trim(cmd).len() != 0 {
                let j = next_prompt(ls, prompt, i + 1);
                proof {
                    lemma_next_prompt_bound(ls, prompt, i + 1);
                }
                command_block(trim(cmd), drop_blank_tail(ls.subrange(i + 1, j))) + convert_from(
                    ls,
                    prompt,
                    j,
                )
            } else {
                convert_from(ls, prompt, i + 1)
            },
            None => convert_from(ls, prompt, i + 1),
        }
    }
}

pub open spec fn convert_spec(content: Seq<char>, prompt: Seq<char>) -> Seq<char> {
    convert_from(lines(content), prompt, 0)
}

proof fn lemma_next_prompt_is(ls: Seq<Seq<char>>, prompt: Seq<char>, k: int, j: int)
    requires
        0 <= k <= j <= ls.len(),
        forall|m: int| k <= m < j ==> extract_spec(#[trigger] ls[m], prompt) is None,
        j == ls.len() || extract_spec(ls[j], prompt) is Some,
    ensures
        next_prompt(ls, prompt, k) == j,
    decreases j - k,
{
    if k < j {
        lemma_next_prompt_is(ls, prompt, k + 1, j);
    }
}

proof fn lemma_drop_blank_tail(ls: Seq<Seq<char>>)
    ensures
        drop_blank_tail(ls).len() <= ls.len(),
        drop_blank_tail(ls) =~= ls.take(drop_blank_tail(ls).len() as int),
        forall|k: int| drop_blank_tail(ls).len() <= k < ls.len() ==> trim(#[trigger] ls[k]).len() == 0,
        drop_blank_tail(ls).len() > 0 ==> trim(drop_blank_tail(ls).last()).len() != 0,
    decreases ls.len(),
{
    if ls.len() > 0 && trim(ls.last()).len() == 0 {
        lemma_drop_blank_tail(ls.drop_last());
        let d = drop_blank_tail(ls.drop_last());
        assert forall|k: int| d.len() <= k < ls.len() implies trim(#[trigger] ls[k]).len() == 0 by {
            if k < ls.len() - 1 {
                assert(ls[k] == ls.drop_last()[k]);
            }
        }
        assert(ls.drop_last().take(d.len() as int) =~= ls.take(d.len() as int));
    }
}

/// A command's cell holds every line after the command up to the next
/// prompt line (or the end of the session), less only its trailing blank
/// lines: a blank line inside the output stays, as a `>> ` line. The rest
/// of the session follows from that next prompt line on.
pub proof fn law_output_runs_to_next_prompt(ls: Seq<Seq<char>>, prompt: Seq<char>, i: int, j: int)
    requires
        0 <= i < j <= ls.len(),
        extract_spec(ls[i], prompt) is Some,
        trim(extract_spec(ls[i], prompt).unwrap()).len() != 0,
        forall|k: int| i < k < j ==> extract_spec(#[trigger] ls[k], prompt) is None,
        j == ls.len() || extract_spec(ls[j], prompt) is Some,
    ensures
        ({
            let cmd = trim(extract_spec(ls[i], prompt).unwrap());
            let outs = ls.subrange(i + 1, j);
            let kept = drop_blank_tail(outs);
            &&& kept == outs.take(kept.len() as int)
            &&& forall|k: int| kept.len() <= k < outs.len() ==> trim(#[trigger] outs[k]).len() == 0
            &&& kept.len() > 0 ==> trim(kept.last()).len() != 0
            &&& convert_from(ls, prompt, i) == "```sh\n"@ + cmd + "\n```\n"@ + (if kept.len() > 0 {
                unlines(marked(kept)) + seq!['\n']
            } else {
                seq!['\n']
            }) + convert_from(ls, prompt, j)
        }),
{
    lemma_next_prompt_is(ls, prompt, i + 1, j);
    lemma_drop_blank_tail(ls.subrange(i + 1, j));
}

/// The path of the markdown written for a session file: `.txt` becomes
/// `.md` (every occurrence), any other name gets `.md` appended.
pub open spec fn markdown_path_spec(path: Seq<char>) -> Seq<char> {
    if path.len() >= 4 && path.skip(path.len() - 4) == ".txt"@ {
        replace(path, ".txt"@, ".md"@)
    } else {
        path + ".md"@
    }
}

// ---------------------------------------------------------------------------
// Exec
// ---------------------------------------------------------------------------

fn non_blank_lines(ls: &Vec<Vec<char>>) -> (r: Vec<Vec<char>>)
    ensures
        views(r@) == non_blank(views(ls@)),
{
    let ghost l = views(ls@);
    let mut r: Vec<Vec<char>> = Vec::new();
    let mut i: usize = 0;
    assert(l.take(0) =~= Seq::<Seq<char>>::empty());
    while i < ls.len()
        invariant
            l == views(ls@),
            l.len() == ls.len(),
            i <= ls.len(),
            views(r@) == non_blank(l.take(i as int)),
        decreases ls.len() - i,
    {
        assert(l.take(i + 1).drop_last() =~= l.take(i as int));
        assert(l.take(i + 1).last() == ls@[i as int]@);
        if !is_blank(&ls[i]) {
            let ghost before = views(r@);
            let x = slice_of(&ls[i], 0, ls[i].len());
            assert(x@ =~= l[i as int]);
            r.push(x);
            assert(views(r@) =~= before + seq![l[i as int]]);
        } else {
            assert(non_blank(l.take(i + 1)) =~= non_blank(l.take(i as int)));
        }
        i = i + 1;
    }
    assert(l.take(ls.len() as int) =~= l);
    r
}

fn count_prefixed_lines(ls: &Vec<Vec<char>>, p: &Vec<char>) -> (n: usize)
    ensures
        n == count_prefixed(views(ls@), p@),
{
    let ghost l = views(ls@);
    let mut n: usize = 0;
    let mut i: usize = 0;
    while i < ls.len()
        invariant
            l == views(ls@),
            i <= ls.len(),
            n == count_prefixed(l.take(i as int), p@),
            n <= i,
        decreases ls.len() - i,
    {
        assert(l.take(i + 1).drop_last() =~= l.take(i as int));
        assert(l.take(i + 1).last() == ls@[i as int]@);
        if starts_with_vec(&ls[i], p) {
            n = n + 1;
        }
        i = i + 1;
    }
    assert(l.take(ls.len() as int) =~= l);
    n
}

fn count_user_lines(ls: &Vec<Vec<char>>, user: &Vec<char>, pc: char) -> (n: usize)
    ensures
        n == count_user(views(ls@), user@, pc),
{
    let ghost l = views(ls@);
    let at = vec!['@'];
    let pcv = vec![pc];
    assert(at@ =~= seq!['@']);
    assert(pcv@ =~= seq![pc]);
    let mut n: usize = 0;
    let mut i: usize = 0;
    while i < ls.len()
        invariant
            l == views(ls@),
            at@ == seq!['@'],
            pcv@ == seq![pc],
            i <= ls.len(),
            n == count_user(l.take(i as int), user@, pc),
            n <= i,
        decreases ls.len() - i,
    {
        assert(l.take(i + 1).drop_last() =~= l.take(i as int));
        assert(l.take(i + 1).last() == ls@[i as int]@);
        if starts_with_vec(&ls[i], user) && crate::text::contains_vec(&ls[i], &at)
            && crate::text::contains_vec(&ls[i], &pcv) {
            n = n + 1;
        }
        i = i + 1;
    }
    assert(l.take(ls.len() as int) =~= l);
    n
}

fn prompt_for_char(ne: &Vec<Vec<char>>, pc: char) -> (r: Option<Vec<char>>)
    requires
        ne.len() > 0,
    ensures
        r matches Some(p) ==> prompt_for(views(ne@), pc) == Some(p@),
        r is None ==> prompt_for(views(ne@), pc) is None,
{
    let ghost l = views(ne@);
    let first = &ne[0];
    assert(first@ == l[0]);
    let pat = vec![pc, ' '];
    assert(pat@ =~= seq![pc, ' ']);
    match find_vec(first, &pat) {
        None => None,
        Some(pos) => {
            proof {
                crate::text::lemma_find_bound(first@, pat@);
                assert(find(first@, pat@) == Some(pos as int));
                assert(pos + 2 <= first@.len());
            }
            let flen = first.len();
            let full = slice_of(first, 0, pos + 2);
            assert(full@ =~= l[0].take(pos + 2));
            let at = vec!['@'];
            assert(at@ =~= seq!['@']);
            match find_vec(&full, &at) {
                Some(a) => {
                    proof { crate::text::lemma_find_bound(full@, at@); }
                    let user = slice_of(&full, 0, a);
                    assert(user@ =~= full@.take(a as int));
                    if count_user_lines(ne, &user, pc) >= 2 {
                        return Some(user);
                    }
                },
                None => {},
            }
            if count_prefixed_lines(ne, &full) >= 2 {
                Some(full)
            } else {
                None
            }
        },
    }
}

/// Detects the shell prompt of a saved terminal session: for the first of
/// `%`, `$`, `#`, `>` that the first non-blank line holds followed by a
/// space, the user name before `@` when two lines start with it, else the
/// whole prompt when two lines start with it.
pub fn detect_terminal_prompt(content: &str) -> (r: Option<String>)
    ensures
        r matches Some(p) ==> detect_spec(content@) == Some(p@),
        r is None ==> detect_spec(content@) is None,
{
    let text = chars_of(content);
    let ls = lines_of(&text);
    let ne = non_blank_lines(&ls);
    if ne.len() == 0 {
        return None;
    }
    if let Some(p) = prompt_for_char(&ne, '%') {
        return Some(string_of(&p));
    }
    if let Some(p) = prompt_for_char(&ne, '$') {
        return Some(string_of(&p));
    }
    if let Some(p) = prompt_for_char(&ne, '#') {
        return Some(string_of(&p));
    }
    match prompt_for_char(&ne, '>') {
        Some(p) => Some(string_of(&p)),
        None => None,
    }
}

fn after_prompt_char_vec(line: &Vec<char>) -> (r: Option<Vec<char>>)
    ensures
        r matches Some(c) ==> after_prompt_char(line@) == Some(c@),
        r is None ==> after_prompt_char(line@) is None,
{
    let pcs = vec!['%', '$', '#', '>'];
    let mut k: usize = 0;
    while k < 4
        invariant
            pcs@ == seq!['%', '$', '#', '>'],
            k <= 4,
            forall|j: int| 0 <= j < k ==> find(line@, seq![#[trigger] pcs@[j], ' ']) is None,
        decreases 4 - k,
    {
        let pat = vec![pcs[k], ' '];
        assert(pat@ =~= seq![pcs@[k as int], ' ']);
        if let Some(pos) = find_vec(line, &pat) {
            proof {
                crate::text::lemma_find_bound(line@, pat@);
                assert(find(line@, pat@) == Some(pos as int));
                assert(pos + 2 <= line@.len());
            }
            let llen = line.len();
            let rest = slice_of(line, pos + 2, llen);
            assert(rest@ =~= line@.skip(pos + 2));
            return Some(rest);
        }
        k = k + 1;
    }
    None
}

fn extract_vec(line: &Vec<char>, prompt: &Vec<char>) -> (r: Option<Vec<char>>)
    ensures
        r matches Some(c) ==> extract_spec(line@, prompt@) == Some(c@),
        r is None ==> extract_spec(line@, prompt@) is None,
{
    let at = vec!['@'];
    let sp = vec![' '];
    assert(at@ =~= seq!['@']);
    assert(sp@ =~= seq![' ']);
    if !crate::text::contains_vec(prompt, &at) && !crate::text::contains_vec(prompt, &sp) {
        if starts_with_vec(line, prompt) && crate::text::contains_vec(line, &at) {
            after_prompt_char_vec(line)
        } else {
            None
        }
    } else if starts_with_vec(line, prompt) {
        let rest = slice_of(line, prompt.len(), line.len());
        assert(rest@ =~= line@.skip(prompt@.len() as int));
        Some(rest)
    } else {
        None
    }
}

/// The command on a prompt line, if the line is one.
pub fn extract_command(line: &str, prompt: &str) -> (r: Option<String>)
    ensures
        r matches Some(c) ==> extract_spec(line@, prompt@) == Some(c@),
        r is None ==> extract_spec(line@, prompt@) is None,
{
    let l = chars_of(line);
    let p = chars_of(prompt);
    match extract_vec(&l, &p) {
        Some(c) => Some(string_of(&c)),
        None => None,
    }
}

fn drop_blank_tail_vec(ls: &mut Vec<Vec<char>>)
    ensures
        views(final(ls)@) == drop_blank_tail(views(old(ls)@)),
{
    while ls.len() > 0 && is_blank(&ls[ls.len() - 1])
        invariant
            drop_blank_tail(views(old(ls)@)) == drop_blank_tail(views(ls@)),
        decreases ls.len(),
    {
        let ghost before = views(ls@);
        assert(before.last() == ls@[ls.len() - 1]@);
        ls.pop();
        assert(views(ls@) =~= before.drop_last());
    }
}

/// Converts a saved terminal session to notebook markdown: each prompt line
/// with a command becomes a `sh` code block, and the lines up to the next
/// prompt (without trailing blank lines) become its `>> ` output.
pub fn convert_terminal_to_markdown(content: &str, prompt: &str) -> (md: String)
    ensures
        md@ == convert_spec(content@, prompt@),
{
    let text = chars_of(content);
    let ls = lines_of(&text);
    let p = chars_of(prompt);
    let ghost l = views(ls@);
    let mut out: Vec<char> = Vec::new();
    let mut i: usize = 0;
    while i < ls.len()
        invariant
            l == views(ls@),
            l.len() == ls.len(),
            p@ == prompt@,
            i <= ls.len(),
            convert_spec(content@, prompt@) == out@ + convert_from(l, p@, i as int),
        decreases ls.len() - i,
    {
        assert(ls@[i as int]@ == l[i as int]);
        match extract_vec(&ls[i], &p) {
            Some(cmd) => {
                let tc = trimmed(&cmd);
                if tc.len() > 0 {
                    let ghost before = out@;
                    let mut outs: Vec<Vec<char>> = Vec::new();
                    let mut j = i + 1;
                    assert(views(outs@) =~= l.subrange(i + 1, j as int));
                    loop
                        invariant
                            l == views(ls@),
                            l.len() == ls.len(),
                            p@ == prompt@,
                            i < j <= ls.len(),
                            views(outs@) == l.subrange(i + 1, j as int),
                            next_prompt(l, p@, i + 1) == next_prompt(l, p@, j as int),
                        ensures
                            i < j <= ls.len(),
                            views(outs@) == l.subrange(i + 1, j as int),
                            next_prompt(l, p@, i + 1) == j,
                        decreases ls.len() - j,
                    {
                        if j >= ls.len() {
                            break;
                        }
                        assert(ls@[j as int]@ == l[j as int]);
                        if extract_vec(&ls[j], &p).is_some() {
                            break;
                        }
                        let ghost ob = views(outs@);
                        let x = slice_of(&ls[j], 0, ls[j].len());
                        assert(x@ =~= l[j as int]);
                        outs.push(x);
                        assert(views(outs@) =~= ob.push(l[j as int]));
                        assert(l.subrange(i + 1, j + 1) =~= l.subrange(i + 1, j as int).push(
                            l[j as int],
                        ));
                        j = j + 1;
                    }
                    assert(next_prompt(l, p@, i + 1) == j);
                    drop_blank_tail_vec(&mut outs);
                    push_str(&mut out, "```sh\n");
                    push_all(&mut out, &tc);
                    push_str(&mut out, "\n```\n");
                    let ghost mid = out@;
                    let ghost o = views(outs@);
                    if outs.len() > 0 {
                        let mut k: usize = 0;
                        assert(marked(o.take(0)) =~= Seq::<Seq<char>>::empty());
                        while k < outs.len()
                            invariant
                                o == views(outs@),
                                k <= outs.len(),
                                out@ == mid + unlines(marked(o.take(k as int))),
                            decreases outs.len() - k,
                        {
                            proof {
                                lemma_unlines_push(marked(o.take(k as int)), ">> "@ + o[k as int]);
                                assert(marked(o.take(k as int + 1)) =~= marked(
                                    o.take(k as int),
                                ).push(">> "@ + o[k as int]));
                            }
                            assert(outs@[k as int]@ == o[k as int]);
                            push_str(&mut out, ">> ");
                            push_all(&mut out, &outs[k]);
                            out.push('\n');
                            k = k + 1;
                        }
                        assert(o.take(outs.len() as int) =~= o);
                        out.push('\n');
                    } else {
                        out.push('\n');
                    }
                    assert(out@ =~= before + command_block(tc@, o));
                    i = j;
                } else {
                    i = i + 1;
                }
            },
            None => {
                i = i + 1;
            },
        }
    }
    assert(convert_from(l, p@, i as int) =~= Seq::<char>::empty());
    string_of(&out)
}

/// The file the markdown of a session file is written to.
pub fn markdown_path(path: &str) -> (r: String)
    ensures
        r@ == markdown_path_spec(path@),
{
    let v = chars_of(path);
    let txt = chars_of(".txt");
    proof { reveal_strlit(".txt"); }
    let is_txt = v.len() >= 4 && crate::text::equals_vec(&slice_of(&v, v.len() - 4, v.len()), &txt);
    if v.len() >= 4 {
        assert(v@.subrange(v.len() - 4, v.len() as int) =~= v@.skip(v.len() - 4));
    }
    if is_txt {
        let md = chars_of(".md");
        string_of(&replace_vec(&v, &txt, &md))
    } else {
        let mut w = slice_of(&v, 0, v.len());
        push_str(&mut w, ".md");
        string_of(&w)
    }
}

} // verus!
