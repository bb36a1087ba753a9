//! Properties of the editor that span several key presses or several
//! functions, each proved over the contracts of the functions involved.
use vstd::prelude::*;
use crate::cursor::{byte_offset, lemma_byte_len, lemma_offset_injective, on_boundary, utf8_width};
use crate::lite::{LiteApp, LiteEffect, lite_key_post};
use crate::keys::{Effect, Key, byte_len, cur_cell, key_post, prefix_after, shell_cell};
use crate::numparse::{all_digits, digits_val, parse_unsigned};
use crate::text::{decimal, digit_char};
use crate::go_kernel::add_import;
use crate::api::Config;
use crate::notebook::Cell;
use crate::state::{App, Focus, InputMode, due, due_indices, settings_applied, settings_saved, stamped};

verus! {

/// The normal mode of the cell list with no key sequence under way.
pub open spec fn at_cells(a: App) -> bool {
    &&& a.input_mode == InputMode::Normal
    &&& a.focus == Focus::Editor
    &&& a.pending_key is None
}

proof fn lemma_one_digit(d: char)
    requires
        '1' <= d <= '9',
    ensures
        parse_unsigned(seq![d], usize::MAX as nat) == Some(((d as u32) - ('0' as u32)) as nat),
        prefix_after(None, d) == ((d as u32) - ('0' as u32)) as usize,
{
    let s = seq![d];
    assert(s.drop_last() =~= Seq::<char>::empty());
    assert(digits_val(s) == digits_val(s.drop_last()) * 10 + ((d as u32) - ('0' as u32)) as nat);
}

/// A count and `G` select the same cell as the command line `:` with that
/// count: `3G` and `:3` both go to the third cell.
pub proof fn law_count_g_is_colon_jump(
    o: App,
    d: char,
    a1: App,
    a2: App,
    ea1: Effect,
    ea2: Effect,
    b1: App,
    b2: App,
    b3: App,
    eb1: Effect,
    eb2: Effect,
    eb3: Effect,
)
    requires
        at_cells(o),
        o.numeric_prefix is None,
        '1' <= d <= '9',
        ((d as u32) - ('0' as u32)) <= o.cells@.len(),
        key_post(o, a1, Key::Char(d), ea1),
        key_post(a1, a2, Key::Char('G'), ea2),
        key_post(o, b1, Key::Char(':'), eb1),
        key_post(b1, b2, Key::Char(d), eb2),
        key_post(b2, b3, Key::Enter, eb3),
    ensures
        a2.selected == Some(((d as u32) - ('1' as u32)) as usize),
        b3.selected == a2.selected,
        a2.input_mode == InputMode::Normal,
        b3.input_mode == InputMode::Normal,
{
    lemma_one_digit(d);
    assert(b2.command_input@ =~= seq![d]);
    reveal_strlit("ww ");
    reveal_strlit("w ");
    reveal_strlit("editor ");
    reveal_strlit("color ");
    reveal_strlit("compact");
    reveal_strlit("cozy");
    reveal_strlit("colorscheme ");
    assert("compact"@.len() == 7);
    assert("cozy"@.len() == 4);
    assert(b2.command_input@ != "compact"@);
    assert(b2.command_input@ != "cozy"@);
}

/// A count and `j` move the selection that many cells down, stopping at
/// the last cell: `3j` moves three cells down.
pub proof fn law_count_moves_down(o: App, d: char, a1: App, a2: App, e1: Effect, e2: Effect)
    requires
        at_cells(o),
        o.numeric_prefix is None,
        o.selected matches Some(i) && i < o.cells@.len(),
        '1' <= d <= '9',
        key_post(o, a1, Key::Char(d), e1),
        key_post(a1, a2, Key::Char('j'), e2),
    ensures
        a2.selected == Some(
            (if o.selected.unwrap() + ((d as u32) - ('0' as u32)) < o.cells@.len() {
                o.selected.unwrap() + ((d as u32) - ('0' as u32))
            } else {
                o.cells@.len() - 1
            }) as usize,
        ),
        a2.cells == o.cells,
        a2.numeric_prefix is None,
{
    lemma_one_digit(d);
}

/// `g g` selects the first cell.
pub proof fn law_gg_goes_to_top(o: App, a1: App, a2: App, e1: Effect, e2: Effect)
    requires
        at_cells(o),
        key_post(o, a1, Key::Char('g'), e1),
        key_post(a1, a2, Key::Char('g'), e2),
    ensures
        a2.selected == Some(0usize),
        a2.cells == o.cells,
        a2.pending_key is None,
{
}

/// `y` then `p` puts a copy of the selected cell right after it: same
/// text, type, output and polling, a new identity.
pub proof fn law_yank_then_paste_copies(o: App, a1: App, a2: App, e1: Effect, e2: Effect)
    requires
        at_cells(o),
        cur_cell(o) is Some,
        key_post(o, a1, Key::Char('y'), e1),
        key_post(a1, a2, Key::Char('p'), e2),
    ensures
        ({
            let i = cur_cell(o).unwrap();
            let c = o.cells@[i];
            let p = a2.cells@[i + 1];
            &&& a2.cells@.len() == o.cells@.len() + 1
            &&& a2.cells@ == o.cells@.insert(i + 1, p)
            &&& p.content == c.content
            &&& p.cell_type == c.cell_type
            &&& p.output == c.output
            &&& p.polling_interval == c.polling_interval
        }),
{
}

/// `O` adds an empty cell of the selected cell's type above it, at its
/// index, and selects the new cell; `o` adds it below, at the next index.
/// Every other cell keeps its place relative to the others.
pub proof fn law_add_cell_above_and_below(o: App, above: App, below: App, e1: Effect, e2: Effect)
    requires
        at_cells(o),
        cur_cell(o) is Some,
        key_post(o, above, Key::Char('O'), e1),
        key_post(o, below, Key::Char('o'), e2),
    ensures
        ({
            let i = cur_cell(o).unwrap();
            &&& above.cells@ == o.cells@.insert(i, above.cells@[i])
            &&& above.cells@[i].content@.len() == 0
            &&& above.cells@[i].cell_type == o.cells@[i].cell_type
            &&& above.selected == Some(i as usize)
            &&& above.cells@[i + 1] == o.cells@[i]
            &&& below.cells@ == o.cells@.insert(i + 1, below.cells@[i + 1])
            &&& below.cells@[i + 1].content@.len() == 0
            &&& below.cells@[i + 1].cell_type == o.cells@[i].cell_type
            &&& below.selected == Some((i + 1) as usize)
            &&& below.cells@[i] == o.cells@[i]
        }),
{
    let i = cur_cell(o).unwrap();
    assert(above.cells@[i + 1] == o.cells@.insert(i, above.cells@[i])[i + 1]);
    assert(below.cells@[i] == o.cells@.insert(i + 1, below.cells@[i + 1])[i]);
}

/// `d` removes the selected cell and never leaves the notebook empty:
/// afterwards a cell is selected.
pub proof fn law_delete_keeps_a_cell(o: App, a1: App, e1: Effect)
    requires
        at_cells(o),
        cur_cell(o) is Some,
        key_post(o, a1, Key::Char('d'), e1),
    ensures
        a1.cells@.len() >= 1,
        cur_cell(a1) is Some,
        o.cells@.len() > 1 ==> a1.cells@ == o.cells@.remove(cur_cell(o).unwrap()),
        !a1.pending_delete,
{
}

proof fn lemma_offset_insert(s: Seq<char>, k: int, c: char, j: int)
    requires
        0 <= k <= s.len(),
        0 <= j <= s.len() + 1,
    ensures
        j <= k ==> byte_offset(s.insert(k, c), j) == byte_offset(s, j),
        j > k ==> byte_offset(s.insert(k, c), j) == byte_offset(s, j - 1) + utf8_width(c),
    decreases j,
{
    let t = s.insert(k, c);
    if j > 0 {
        lemma_offset_insert(s, k, c, j - 1);
        if j - 1 < k {
            assert(t[j - 1] == s[j - 1]);
        } else if j - 1 == k {
            assert(t[j - 1] == c);
        } else {
            assert(t[j - 1] == s[j - 2]);
        }
    }
}

/// Typing a character into a shell cell and then pressing Backspace gives
/// back the line and the cursor as they were.
pub proof fn law_type_then_backspace_restores(
    o: App,
    ch: char,
    a1: App,
    a2: App,
    e1: Effect,
    e2: Effect,
)
    requires
        o.input_mode == InputMode::Editing,
        o.pending_key is None,
        shell_cell(o) is Some,
        o.shell_cursor <= byte_len(o.cells@[shell_cell(o).unwrap()].content@),
        on_boundary(o.cells@[shell_cell(o).unwrap()].content@, o.shell_cursor as int),
        byte_len(o.cells@[shell_cell(o).unwrap()].content@) + utf8_width(ch) <= usize::MAX,
        key_post(o, a1, Key::Char(ch), e1),
        key_post(a1, a2, Key::Backspace, e2),
    ensures
        ({
            let i = shell_cell(o).unwrap();
            &&& a2.cells@[i].content@ == o.cells@[i].content@
            &&& a2.cells@ == o.cells@.update(i, crate::notebook::Cell { content: a2.cells@[i].content, ..o.cells@[i] })
            &&& a2 == (App { cells: a2.cells, dirty: true, ..o })
        }),
{
    let i = shell_cell(o).unwrap();
    let s = o.cells@[i].content@;
    let cur = o.shell_cursor as int;
    lemma_byte_len(s);
    let k = choose|k: int| 0 <= k <= s.len() && #[trigger] byte_offset(s, k) == cur && crate::keys::retyped(
        o,
        a1,
        i,
        s.insert(k, ch),
        (cur + utf8_width(ch)) as usize,
    );
    let t = s.insert(k, ch);
    assert(a1.cells@[i].content@ == t);
    lemma_offset_insert(s, k, ch, k);
    lemma_offset_insert(s, k, ch, k + 1);
    lemma_offset_insert(s, k, ch, t.len() as int);
    lemma_byte_len(t);
    assert(shell_cell(a1) == Some(i));
    assert(byte_offset(t, k + 1) == cur + utf8_width(ch));
    assert(on_boundary(t, cur + utf8_width(ch)));
    let k2 = choose|k2: int| 0 < k2 <= t.len() && #[trigger] byte_offset(t, k2) == cur + utf8_width(ch)
        && crate::keys::retyped(a1, a2, i, t.remove(k2 - 1), byte_offset(t, k2 - 1) as usize);
    lemma_offset_injective(t, k2, k + 1);
    assert(t.remove(k) =~= s);
}

/// Settings stored from one editor and taken by another give the second
/// the first one's editor, display mode, colorscheme and accent color.
pub proof fn law_saved_settings_come_back(a: App, stored: Option<Config>, c: Config, b: App, b2: App)
    requires
        settings_saved(a, stored, c),
        settings_applied(b, b2, Some(c)),
        a.accent_color == (if a.pastel() {
            crate::state::Color::Indexed(183)
        } else {
            crate::state::Color::Magenta
        }),
    ensures
        b2.editor == a.editor,
        b2.display_mode == a.display_mode,
        b2.colorscheme == a.colorscheme,
        b2.accent_color == a.accent_color,
{
}

/// A polled cell that was due and has run at `now` is due again exactly
/// when its interval has passed since `now`.
pub proof fn law_polled_cell_due_after_interval(c: Cell, now: u64, later: u64)
    requires
        due(c, now),
    ensures
        due(stamped(c, now), later) <==> later >= now + c.polling_interval.unwrap(),
{
}

proof fn lemma_none_due_after_stamp(cells: Seq<Cell>, now: u64, n: int)
    requires
        0 <= n <= cells.len(),
        forall|j: int| 0 <= j < cells.len() && (#[trigger] cells[j]).polling_interval is Some
            ==> cells[j].polling_interval.unwrap() > 0,
    ensures
        due_indices(Seq::new(cells.len(), |j: int| stamped(cells[j], now)), now, n).len() == 0,
    decreases n,
{
    let st = Seq::new(cells.len(), |j: int| stamped(cells[j], now));
    if n > 0 {
        lemma_none_due_after_stamp(cells, now, n - 1);
        let c = cells[n - 1];
        assert(st[n - 1] == stamped(c, now));
        assert(!due(st[n - 1], now));
    }
}

/// Polling twice at the same instant runs nothing the second time, when
/// every polled cell has an interval of at least a second.
pub proof fn law_polling_twice_at_once_runs_nothing(cells: Seq<Cell>, now: u64)
    requires
        forall|j: int| 0 <= j < cells.len() && (#[trigger] cells[j]).polling_interval is Some
            ==> cells[j].polling_interval.unwrap() > 0,
    ensures
        due_indices(
            Seq::new(cells.len(), |j: int| stamped(cells[j], now)),
            now,
            cells.len() as int,
        ).len() == 0,
{
    lemma_none_due_after_stamp(cells, now, cells.len() as int);
}

/// The cells after polling at `now`, as `check_polling_at` leaves them.
pub open spec fn stamp_all(cells: Seq<Cell>, now: u64) -> Seq<Cell> {
    Seq::new(cells.len(), |j: int| stamped(cells[j], now))
}

/// The cells after polls at the first `m` of the times `ts`.
pub open spec fn polled(cells: Seq<Cell>, ts: Seq<u64>, m: int) -> Seq<Cell>
    decreases m,
{
    if m <= 0 {
        cells
    } else {
        stamp_all(polled(cells, ts, m - 1), ts[m - 1])
    }
}

proof fn lemma_only_one_due(cells: Seq<Cell>, k: int, now: u64, n: int)
    requires
        0 <= k < cells.len(),
        0 <= n <= cells.len(),
        due(cells[k], now),
        forall|j: int| 0 <= j < cells.len() && j != k ==> (#[trigger] cells[j]).polling_interval is None,
    ensures
        due_indices(cells, now, n) == (if k < n {
            seq![k as usize]
        } else {
            Seq::<usize>::empty()
        }),
    decreases n,
{
    if n > 0 {
        lemma_only_one_due(cells, k, now, n - 1);
        if n - 1 != k {
            assert(cells[n - 1].polling_interval is None);
        }
        assert(due_indices(cells, now, n) =~= (if k < n {
            seq![k as usize]
        } else {
            Seq::<usize>::empty()
        }));
    }
}

proof fn lemma_polled_shape(cells: Seq<Cell>, k: int, iv: u64, ts: Seq<u64>, m: int)
    requires
        0 <= k < cells.len(),
        cells[k].polling_interval == Some(iv),
        cells[k].last_run is None,
        forall|j: int| 0 <= j < cells.len() && j != k ==> (#[trigger] cells[j]).polling_interval is None,
        forall|i: int| 0 <= i < ts.len() - 1 ==> #[trigger] ts[i + 1] >= ts[i] + iv,
        0 <= m < ts.len(),
    ensures
        polled(cells, ts, m).len() == cells.len(),
        polled(cells, ts, m)[k].polling_interval == Some(iv),
        m == 0 ==> polled(cells, ts, m)[k].last_run is None,
        m > 0 ==> polled(cells, ts, m)[k].last_run == Some(ts[m - 1]),
        forall|j: int| 0 <= j < cells.len() && j != k ==> (#[trigger] polled(cells, ts, m)[j]).polling_interval is None,
        due(polled(cells, ts, m)[k], ts[m]),
    decreases m,
{
    if m > 0 {
        lemma_polled_shape(cells, k, iv, ts, m - 1);
        let p = polled(cells, ts, m - 1);
        assert(polled(cells, ts, m) == stamp_all(p, ts[m - 1]));
        assert(polled(cells, ts, m)[k] == stamped(p[k], ts[m - 1]));
        assert(ts[(m - 1) + 1] >= ts[m - 1] + iv);
        assert forall|j: int| 0 <= j < cells.len() && j != k implies (#[trigger] polled(cells, ts, m)[j]).polling_interval is None by {
            assert(polled(cells, ts, m)[j] == stamped(p[j], ts[m - 1]));
            assert(p[j].polling_interval is None);
        }
    }
}

/// A cell polled every `iv` seconds, the only polled cell and not yet run,
/// is due at every poll when the polls come at least `iv` seconds apart:
/// each of the polls at the times `ts` returns exactly that cell.
pub proof fn law_polled_cell_due_at_every_poll(cells: Seq<Cell>, k: int, iv: u64, ts: Seq<u64>)
    requires
        0 <= k < cells.len(),
        cells[k].polling_interval == Some(iv),
        cells[k].last_run is None,
        forall|j: int| 0 <= j < cells.len() && j != k ==> (#[trigger] cells[j]).polling_interval is None,
        forall|i: int| 0 <= i < ts.len() - 1 ==> #[trigger] ts[i + 1] >= ts[i] + iv,
    ensures
        forall|m: int| 0 <= m < ts.len() ==> due_indices(
            #[trigger] polled(cells, ts, m),
            ts[m],
            cells.len() as int,
        ) == seq![k as usize],
{
    assert forall|m: int| 0 <= m < ts.len() implies due_indices(
        #[trigger] polled(cells, ts, m),
        ts[m],
        cells.len() as int,
    ) == seq![k as usize] by {
        lemma_polled_shape(cells, k, iv, ts, m);
        lemma_only_one_due(polled(cells, ts, m), k, ts[m], cells.len() as int);
    }
}

/// `n` then `N` in the cells' search comes back to the match it started
/// from.
pub proof fn law_next_then_previous_match(o: App, a1: App, a2: App, e1: Effect, e2: Effect)
    requires
        at_cells(o),
        o.editor_search.current_match matches Some(m) && m < o.editor_search.matches@.len(),
        o.editor_search.matches@.len() <= usize::MAX,
        key_post(o, a1, Key::Char('n'), e1),
        key_post(a1, a2, Key::Char('N'), e2),
    ensures
        a2.editor_search.current_match == o.editor_search.current_match,
        a2.selected == Some(o.editor_search.matches@[o.editor_search.current_match.unwrap() as int]),
        a2.cells == o.cells,
{
    let s = o.editor_search;
    let m = s.current_match.unwrap() as int;
    let len = s.matches@.len() as int;
    if m + 1 < len {
        assert((m + 1) % len == m + 1) by (nonlinear_arith)
            requires
                0 <= m + 1 < len,
        ;
    } else {
        assert((m + 1) % len == 0) by (nonlinear_arith)
            requires
                m + 1 == len,
                len > 0,
        ;
    }
    let k = crate::keys::next_match(s);
    assert(a1.editor_search.current_match == Some(k));
    assert(a1.editor_search.matches@ == s.matches@);
    assert(at_cells(a1));
}

/// Adding an import never makes one occur twice, and the import is there
/// afterwards.
pub proof fn law_imports_stay_distinct(imps: Seq<Seq<char>>, x: Seq<char>)
    requires
        imps.no_duplicates(),
    ensures
        add_import(imps, x).no_duplicates(),
        add_import(imps, x).contains(x),
{
    if !imps.contains(x) {
        let r = imps.push(x);
        assert(r[imps.len() as int] == x);
        assert forall|i: int, j: int| 0 <= i < r.len() && 0 <= j < r.len() && i != j implies r[i]
            != r[j] by {
            if i < imps.len() && j < imps.len() {
            } else if i == imps.len() {
                assert(r[j] == imps[j]);
            } else {
                assert(r[i] == imps[i]);
            }
        }
    } else {
    }
}

proof fn lemma_decimal_digits(n: nat)
    ensures
        decimal(n).len() > 0,
        all_digits(decimal(n)),
        digits_val(decimal(n)) == n,
        decimal(n)[0] != '+',
    decreases n,
{
    if n < 10 {
        let s = decimal(n);
        assert(s.drop_last() =~= Seq::<char>::empty());
        assert(((digit_char(n) as u32) - ('0' as u32)) as nat == n);
        assert(digits_val(s) == digits_val(s.drop_last()) * 10 + ((s.last() as u32) - ('0' as u32)) as nat);
    } else {
        lemma_decimal_digits(n / 10);
        let s = decimal(n);
        let d = n % 10;
        assert(s.drop_last() =~= decimal(n / 10));
        assert(s.last() == digit_char(d));
        assert(((digit_char(d) as u32) - ('0' as u32)) as nat == d);
        assert(digits_val(s) == digits_val(s.drop_last()) * 10 + ((s.last() as u32) - ('0' as u32)) as nat);
        assert(n == (n / 10) * 10 + n % 10);
        assert(s[0] == decimal(n / 10)[0]);
        assert forall|i: int| 0 <= i < s.len() implies crate::numparse::is_digit(#[trigger] s[i]) by {
            if i < s.len() - 1 {
                assert(s[i] == decimal(n / 10)[i]);
            }
        }
    }
}

/// A number written out in decimal reads back as the same number.
pub proof fn law_decimal_reads_back(n: nat, max: nat)
    requires
        n <= max,
    ensures
        parse_unsigned(decimal(n), max) == Some(n),
{
    lemma_decimal_digits(n);
}

/// Moving the cursor of a shell cell one character right and then one
/// left brings it back, when it was on a character before the end.
pub proof fn law_right_then_left_restores_cursor(o: App, a1: App, a2: App, e1: Effect, e2: Effect)
    requires
        o.input_mode == InputMode::Editing,
        o.pending_key is None,
        shell_cell(o) is Some,
        byte_len(o.cells@[shell_cell(o).unwrap()].content@) <= usize::MAX,
        o.shell_cursor < byte_len(o.cells@[shell_cell(o).unwrap()].content@),
        on_boundary(o.cells@[shell_cell(o).unwrap()].content@, o.shell_cursor as int),
        key_post(o, a1, Key::Right, e1),
        key_post(a1, a2, Key::Left, e2),
    ensures
        a2 == o,
{
    let i = shell_cell(o).unwrap();
    let s = o.cells@[i].content@;
    let cur = o.shell_cursor as int;
    lemma_byte_len(s);
    let k = choose|k: int| 0 <= k < s.len() && #[trigger] byte_offset(s, k) == cur && a1 == (App {
        shell_cursor: byte_offset(s, k + 1) as usize,
        ..o
    });
    if k + 1 < s.len() {
        crate::cursor::lemma_offset_monotonic(s, k + 1, s.len() as int);
    }
    assert(shell_cell(a1) == Some(i));
    assert(on_boundary(s, byte_offset(s, k + 1) as int));
    let cur1 = byte_offset(s, k + 1) as int;
    if cur1 > 0 {
        let k2 = choose|k2: int| 0 < k2 <= s.len() && #[trigger] byte_offset(s, k2) == cur1 && a2 == (App {
            shell_cursor: byte_offset(s, k2 - 1) as usize,
            ..a1
        });
        lemma_offset_injective(s, k2, k + 1);
    }
}

/// No key empties a notebook: after any key a notebook that had a cell
/// still has one.
#[verifier::spinoff_prover]
#[verifier::rlimit(60)]
pub proof fn law_keys_keep_a_cell(o: App, n: App, key: Key, e: Effect)
    requires
        o.cells@.len() >= 1,
        key_post(o, n, key, e),
    ensures
        n.cells@.len() >= 1,
{
}

/// No key of the light editor empties a notebook either.
#[verifier::spinoff_prover]
#[verifier::rlimit(60)]
pub proof fn law_lite_keys_keep_a_cell(o: LiteApp, n: LiteApp, key: Key, e: LiteEffect)
    requires
        o.cells@.len() >= 1,
        lite_key_post(o, n, key, e),
    ensures
        n.cells@.len() >= 1,
{
}

} // verus!
