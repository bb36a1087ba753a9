//! The editor's state: the notebook being edited, the sidebar of files, the
//! modes and prompts, and the operations on them that the keys and the
//! server's replies lead to.
use vstd::prelude::*;
use crate::api::{CommandRequest, Config, opt_str, strings};
use crate::paths::{extension, is_newt_path, is_notebook, is_notebook_path};
use crate::ids::new_cell_id;
use crate::markdown::{lang_name, lang_of, parse_markdown, parse_spec};
use crate::notebook::{Cell, CellText, CellType, texts};
use crate::search::{SearchState, smart_match};
use crate::text::{
    chars_of, contains, contains_str, equals_vec, push_all, push_str, string_of, trim, trimmed,
    is_blank,
};

verus! {

/// A terminal colour.
#[derive(Clone, Copy, PartialEq, Eq, Structural, Debug)]
pub enum Color {
    Black,
    Red,
    Green,
    Yellow,
    Blue,
    Magenta,
    Cyan,
    Gray,
    DarkGray,
    LightRed,
    LightGreen,
    LightYellow,
    LightBlue,
    LightMagenta,
    LightCyan,
    White,
    Indexed(u8),
}

/// Which pane takes the keys.
#[derive(Clone, Copy, PartialEq, Eq, Structural, Debug)]
pub enum Focus {
    Editor,
    Sidebar,
}

/// What the keys currently do.
#[derive(Clone, Copy, PartialEq, Eq, Structural, Debug)]
pub enum InputMode {
    Normal,
    Editing,
    Command,
    Renaming,
    Polling,
    ConfirmDelete,
    ConfirmOverwrite,
    InputPopup,
    SearchSidebar,
    SearchEditor,
}

/// One line of the sidebar: a section header, a directory or a file.
#[derive(Clone, Debug)]
pub struct FileItem {
    pub path: Option<String>,
    pub label: String,
    pub is_header: bool,
    pub is_app_file: bool,
    pub is_directory: bool,
    pub is_expanded: bool,
    pub depth: usize,
    pub parent_path: Option<String>,
}

/// The editor. `selected` is the selected cell and `file_selected` the
/// selected sidebar line (line 0 is "new notebook", line `i + 1` shows
/// `available_files[i]`); `shell_cursor` is a byte offset into the selected
/// shell cell.
pub struct App {
    pub cells: Vec<Cell>,
    pub selected: Option<usize>,
    pub input: String,
    pub shell_cursor: usize,
    pub input_mode: InputMode,
    pub pending_delete: bool,
    pub command_input: String,
    pub file_path: Option<String>,
    pub file_selected: Option<usize>,
    pub available_files: Vec<FileItem>,
    pub pending_key: Option<char>,
    pub show_sidebar: bool,
    pub focus: Focus,
    pub clipboard_cell: Option<Cell>,
    pub clipboard_file: Option<String>,
    pub clipboard_output: Option<String>,
    pub status_message: Option<String>,
    pub rename_input: String,
    pub polling_input: String,
    pub file_to_delete: Option<String>,
    pub running_cells: Vec<usize>,
    pub popup_input: String,
    pub popup_prompt: String,
    pub overwrite_path: Option<String>,
    pub editor: String,
    pub accent_color: Color,
    pub display_mode: String,
    pub colorscheme: String,
    pub dirty: bool,
    pub numeric_prefix: Option<usize>,
    pub sidebar_search: SearchState,
    pub editor_search: SearchState,
    pub expanded_dirs: Vec<String>,
}

/// The language name a cell of this type is run with; shell cells have
/// none, markdown cells are not run.
pub open spec fn run_lang(k: CellType) -> Option<Seq<char>> {
    match k {
        CellType::Rust => Some("rust"@),
        CellType::Python => Some("python"@),
        CellType::JavaScript => Some("javascript"@),
        CellType::TypeScript => Some("typescript"@),
        CellType::C => Some("c"@),
        CellType::Cpp => Some("cpp"@),
        CellType::Go => Some("go"@),
        CellType::Shell => None,
        CellType::Markdown => None,
    }
}

/// The contents of the first `n` cells of type `k`, when cells of that type
/// run in a language of their own (shell and markdown cells give none).
pub open spec fn context_of(cells: Seq<Cell>, k: CellType, n: int) -> Seq<Seq<char>>
    decreases n,
{
    if n <= 0 {
        Seq::<Seq<char>>::empty()
    } else {
        context_of(cells, k, n - 1) + (if run_lang(k) is Some && cells[n - 1].cell_type == k {
            seq![cells[n - 1].content@]
        } else {
            Seq::<Seq<char>>::empty()
        })
    }
}

/// Whether the polling cell is due at `now`: it has an interval and either
/// never ran or ran at least that long ago.
pub open spec fn due(c: Cell, now: u64) -> bool {
    match c.polling_interval {
        Some(iv) => match c.last_run {
            Some(last) => now >= last + iv,
            None => true,
        },
        None => false,
    }
}

/// The indices among the first `n` cells that are due, in order.
pub open spec fn due_indices(cells: Seq<Cell>, now: u64, n: int) -> Seq<usize>
    decreases n,
{
    if n <= 0 {
        Seq::<usize>::empty()
    } else {
        due_indices(cells, now, n - 1) + (if due(cells[n - 1], now) {
            seq![(n - 1) as usize]
        } else {
            Seq::<usize>::empty()
        })
    }
}

/// The cell after polling at `now`: a due cell is stamped with `now`.
pub open spec fn stamped(c: Cell, now: u64) -> Cell {
    if due(c, now) {
        Cell { last_run: Some(now), ..c }
    } else {
        c
    }
}

/// The indices of the first `n` sidebar entries, headers excepted, whose
/// label the search matches.
pub open spec fn sidebar_hits(files: Seq<FileItem>, s: SearchState, n: int) -> Seq<usize>
    decreases n,
{
    if n <= 0 {
        Seq::<usize>::empty()
    } else {
        sidebar_hits(files, s, n - 1) + (if !files[n - 1].is_header && smart_match(
            s.is_smart_case,
            s.query@,
            files[n - 1].label@,
        ) {
            seq![(n - 1) as usize]
        } else {
            Seq::<usize>::empty()
        })
    }
}

/// The indices of the first `n` cells whose content the search matches.
pub open spec fn editor_hits(cells: Seq<Cell>, s: SearchState, n: int) -> Seq<usize>
    decreases n,
{
    if n <= 0 {
        Seq::<usize>::empty()
    } else {
        editor_hits(cells, s, n - 1) + (if smart_match(
            s.is_smart_case,
            s.query@,
            cells[n - 1].content@,
        ) {
            seq![(n - 1) as usize]
        } else {
            Seq::<usize>::empty()
        })
    }
}

/// A search after it ran over `hits`: nothing for an empty query, else the
/// hits, with the first one current when there is one.
pub open spec fn searched(old_s: SearchState, new_s: SearchState, hits: Seq<usize>) -> bool {
    &&& new_s.query == old_s.query
    &&& new_s.is_smart_case == old_s.is_smart_case
    &&& if old_s.query@.len() == 0 {
        new_s.matches@.len() == 0 && new_s.current_match is None
    } else {
        &&& new_s.matches@ == hits
        &&& new_s.current_match == (if hits.len() > 0 {
            Some(0usize)
        } else {
            None::<usize>
        })
    }
}

/// `n` is `o` with an empty cell of type `k` inserted at `index` and
/// selected, in normal mode with the shell line cleared.
pub open spec fn inserted(o: App, n: App, index: int, k: CellType) -> bool {
    &&& n.cells@.len() == o.cells@.len() + 1
    &&& n.cells@ == o.cells@.insert(index, n.cells@[index])
    &&& n.cells@[index].content@.len() == 0
    &&& n.cells@[index].output@.len() == 0
    &&& n.cells@[index].cell_type == k
    &&& n.cells@[index].polling_interval is None
    &&& n.cells@[index].last_run is None
    &&& n.input@.len() == 0
    &&& n == (App {
        cells: n.cells,
        selected: Some(index as usize),
        input: n.input,
        shell_cursor: 0,
        input_mode: InputMode::Normal,
        dirty: true,
        ..o
    })
}

/// `n` is `o` with an empty cell of type `k` appended and selected; a
/// shell cell is opened for typing.
pub open spec fn appended(o: App, n: App, k: CellType) -> bool {
    &&& n.cells@.len() == o.cells@.len() + 1
    &&& n.cells@.drop_last() == o.cells@
    &&& n.cells@.last().content@.len() == 0
    &&& n.cells@.last().output@.len() == 0
    &&& n.cells@.last().cell_type == k
    &&& n.cells@.last().polling_interval is None
    &&& n.cells@.last().last_run is None
    &&& n.input@.len() == 0
    &&& n == (App {
        cells: n.cells,
        selected: Some(o.cells@.len() as usize),
        input: n.input,
        shell_cursor: 0,
        input_mode: if k == CellType::Shell {
            InputMode::Editing
        } else {
            InputMode::Normal
        },
        dirty: true,
        ..o
    })
}

/// `n` is `o` after deleting the selected cell: nothing happens without a
/// selected cell; deleting the only cell leaves one fresh shell cell.
pub open spec fn deleted(o: App, n: App) -> bool {
    let len = o.cells@.len();
    match o.selected {
        Some(i) => if i >= len {
            n == o
        } else if len == 1 {
            &&& n.cells@.len() == 1
            &&& n.cells@[0].cell_type == CellType::Shell
            &&& n.cells@[0].content@.len() == 0
            &&& n.cells@[0].output@.len() == 0
            &&& n.cells@[0].polling_interval is None
            &&& n.cells@[0].last_run is None
            &&& n.input@.len() == 0
            &&& n == (App {
                cells: n.cells,
                input: n.input,
                selected: Some(0usize),
                shell_cursor: 0,
                input_mode: InputMode::Editing,
                dirty: true,
                ..o
            })
        } else {
            &&& n.cells@ == o.cells@.remove(i as int)
            &&& n == (App {
                cells: n.cells,
                selected: Some(if i + 1 == len { (len - 2) as usize } else { i }),
                dirty: true,
                ..o
            })
        },
        None => n == o,
    }
}

/// `n` is `o` after taking the stored settings: the editor, display mode
/// and colorscheme they set, with the accent following the colorscheme.
pub open spec fn settings_applied(o: App, n: App, config: Option<Config>) -> bool {
    let (e, d, c) = match config {
        Some(cfg) => (cfg.editor, cfg.display_mode, cfg.colorscheme),
        None => (None, None, None),
    };
    &&& n.editor == (match e {
        Some(v) => v,
        None => o.editor,
    })
    &&& n.display_mode == (match d {
        Some(v) => v,
        None => o.display_mode,
    })
    &&& n.colorscheme == (match c {
        Some(v) => v,
        None => o.colorscheme,
    })
    &&& n.accent_color == (if n.pastel() {
        Color::Indexed(183)
    } else {
        Color::Magenta
    })
    &&& n == (App {
        editor: n.editor,
        display_mode: n.display_mode,
        colorscheme: n.colorscheme,
        accent_color: n.accent_color,
        ..o
    })
}

/// `c` is what `a` stores: its editor, display mode and colorscheme, and
/// the other settings as stored before (unset when nothing was).
pub open spec fn settings_saved(a: App, stored: Option<Config>, c: Config) -> bool {
    &&& c.editor == Some(a.editor)
    &&& c.display_mode == Some(a.display_mode)
    &&& c.colorscheme == Some(a.colorscheme)
    &&& match stored {
        Some(s) => c.theme == s.theme && c.show_hidden_files == s.show_hidden_files
            && c.respect_gitignore == s.respect_gitignore && c.savequit == s.savequit,
        None => c.theme is None && c.show_hidden_files is None && c.respect_gitignore is None
            && c.savequit is None,
    }
}

/// The set of texts a list of strings holds.
pub open spec fn text_set(v: Seq<String>) -> Set<Seq<char>> {
    Set::new(|t: Seq<char>| exists|i: int| 0 <= i < v.len() && #[trigger] v[i]@ == t)
}

/// The set of numbers a list holds.
pub open spec fn num_set(v: Seq<usize>) -> Set<usize> {
    Set::new(|x: usize| v.contains(x))
}

/// The fence tag an edited cell is wrapped in before its text is split
/// into cells (shell cells are written as `bash`).
pub open spec fn wrap_for_split(k: CellType, t: Seq<char>) -> Seq<char> {
    if k == CellType::Markdown {
        t
    } else {
        "```"@ + lang_of(k) + "\n"@ + t + "\n```"@
    }
}

impl App {
    /// A fresh editor with no notebook loaded: no cells, nothing selected,
    /// the shell line in editing mode, the pastel colorscheme with its
    /// accent, compact display, and `editor` as the external editor.
    pub fn new(editor: String) -> (app: App)
        ensures
            app.cells@.len() == 0,
            app.selected is None,
            app.input@.len() == 0,
            app.shell_cursor == 0,
            app.input_mode == InputMode::Editing,
            !app.pending_delete,
            app.command_input@.len() == 0,
            app.file_path is None,
            app.file_selected is None,
            app.available_files@.len() == 0,
            app.pending_key is None,
            !app.show_sidebar,
            app.focus == Focus::Editor,
            app.clipboard_cell is None,
            app.clipboard_file is None,
            app.clipboard_output is None,
            app.status_message is None,
            app.rename_input@.len() == 0,
            app.polling_input@.len() == 0,
            app.file_to_delete is None,
            app.running_cells@.len() == 0,
            app.popup_input@.len() == 0,
            app.popup_prompt@.len() == 0,
            app.overwrite_path is None,
            app.editor == editor,
            app.accent_color == Color::Indexed(183),
            app.display_mode@ == "compact"@,
            app.colorscheme@ == "pastel"@,
            !app.dirty,
            app.numeric_prefix is None,
            app.sidebar_search.query@.len() == 0,
            app.sidebar_search.matches@.len() == 0,
            app.sidebar_search.current_match is None,
            app.sidebar_search.is_smart_case,
            app.editor_search.query@.len() == 0,
            app.editor_search.matches@.len() == 0,
            app.editor_search.current_match is None,
            app.editor_search.is_smart_case,
            app.expanded_dirs@.len() == 0,
    {
        App {
            cells: Vec::new(),
            selected: None,
            input: String::new(),
            shell_cursor: 0,
            input_mode: InputMode::Editing,
            pending_delete: false,
            command_input: String::new(),
            file_path: None,
            file_selected: None,
            available_files: Vec::new(),
            pending_key: None,
            show_sidebar: false,
            focus: Focus::Editor,
            clipboard_cell: None,
            clipboard_file: None,
            clipboard_output: None,
            status_message: None,
            rename_input: String::new(),
            polling_input: String::new(),
            file_to_delete: None,
            running_cells: Vec::new(),
            popup_input: String::new(),
            popup_prompt: String::new(),
            overwrite_path: None,
            editor,
            accent_color: Color::Indexed(183),
            display_mode: "compact".to_owned(),
            colorscheme: "pastel".to_owned(),
            dirty: false,
            numeric_prefix: None,
            sidebar_search: SearchState::new(),
            editor_search: SearchState::new(),
            expanded_dirs: Vec::new(),
        }
    }

    /// Whether the colorscheme is the pastel one.
    pub open spec fn pastel(&self) -> bool {
        self.colorscheme@ == "pastel"@
    }

    fn is_pastel(&self) -> (b: bool)
        ensures
            b == self.pastel(),
    {
        crate::text::equals_str(&chars_of(self.colorscheme.as_str()), "pastel")
    }

    /// The accent colour of the colorscheme.
    pub fn get_accent_color(&self) -> (c: Color)
        ensures
            c == (if self.pastel() {
                Color::Indexed(183)
            } else {
                Color::Magenta
            }),
    {
        if self.is_pastel() {
            Color::Indexed(183)
        } else {
            Color::Magenta
        }
    }

    /// The colour of first-level markdown headings.
    pub fn get_h1_color(&self) -> (c: Color)
        ensures
            c == (if self.pastel() {
                Color::Indexed(117)
            } else {
                Color::Blue
            }),
    {
        if self.is_pastel() {
            Color::Indexed(117)
        } else {
            Color::Blue
        }
    }

    /// The colour of second-level markdown headings.
    pub fn get_h2_color(&self) -> (c: Color)
        ensures
            c == (if self.pastel() {
                Color::Indexed(152)
            } else {
                Color::Cyan
            }),
    {
        if self.is_pastel() {
            Color::Indexed(152)
        } else {
            Color::Cyan
        }
    }

    /// The colour of third-level markdown headings.
    pub fn get_h3_color(&self) -> (c: Color)
        ensures
            c == (if self.pastel() {
                Color::Indexed(114)
            } else {
                Color::Green
            }),
    {
        if self.is_pastel() {
            Color::Indexed(114)
        } else {
            Color::Green
        }
    }

    /// The cells in display order: every cell, in order.
    pub fn get_visual_items(&self) -> (v: Vec<usize>)
        ensures
            v@.len() == self.cells@.len(),
            forall|i: int| 0 <= i < v@.len() ==> v@[i] == i,
    {
        let mut v: Vec<usize> = Vec::new();
        let mut i: usize = 0;
        while i < self.cells.len()
            invariant
                i <= self.cells.len(),
                v@.len() == i,
                forall|j: int| 0 <= j < i ==> v@[j] == j,
            decreases self.cells.len() - i,
        {
            v.push(i);
            i = i + 1;
        }
        v
    }

    /// Inserts an empty cell of the given type at `index` and selects it, in
    /// normal mode with the shell line cleared.
    pub fn insert_cell(&mut self, index: usize, cell_type: CellType)
        requires
            index <= old(self).cells@.len(),
        ensures
            inserted(*old(self), *final(self), index as int, cell_type),
    {
        let cell = Cell {
            id: new_cell_id(),
            content: String::new(),
            output: String::new(),
            cell_type,
            polling_interval: None,
            last_run: None,
        };
        self.cells.insert(index, cell);
        self.selected = Some(index);
        self.input = String::new();
        self.shell_cursor = 0;
        self.input_mode = InputMode::Normal;
        self.dirty = true;
    }

    /// Appends an empty cell of the given type and selects it; a shell cell
    /// is opened for typing.
    pub fn add_cell(&mut self, cell_type: CellType)
        ensures
            appended(*old(self), *final(self), cell_type),
    {
        let n = self.cells.len();
        self.insert_cell(n, cell_type);
        assert(self.cells@.drop_last() =~= old(self).cells@);
        if cell_type == CellType::Shell {
            self.input_mode = InputMode::Editing;
            self.shell_cursor = 0;
        }
    }

    /// Puts the keys in the mode the selected cell wants: typing into a
    /// shell cell (cursor at its end), normal mode otherwise.
    pub fn set_default_mode_for_selected_cell(&mut self)
        ensures
            ({
                let shell = old(self).selected matches Some(i) && i < old(self).cells@.len()
                    && old(self).cells@[i as int].cell_type == CellType::Shell;
                *final(self) == (App {
                    input_mode: if shell {
                        InputMode::Editing
                    } else {
                        InputMode::Normal
                    },
                    shell_cursor: if shell {
                        vstd::utf8::encode_utf8(
                            old(self).cells@[old(self).selected.unwrap() as int].content@,
                        ).len() as usize
                    } else {
                        0
                    },
                    ..*old(self)
                })
            }),
    {
        if let Some(i) = self.selected {
            if i < self.cells.len() {
                if self.cells[i].cell_type == CellType::Shell {
                    self.input_mode = InputMode::Editing;
                    self.shell_cursor = self.cells[i].content.as_str().len();
                    return;
                }
            }
        }
        self.input_mode = InputMode::Normal;
        self.shell_cursor = 0;
    }

    /// Deletes the selected cell. The notebook never goes empty: deleting
    /// the last cell leaves one fresh shell cell. The selection stays at the
    /// same index, or moves to the new last cell.
    pub fn delete_current_cell(&mut self)
        ensures
            deleted(*old(self), *final(self)),
    {
        if let Some(i) = self.selected {
            if self.cells.len() > 0 && i < self.cells.len() {
                self.cells.remove(i);
                self.dirty = true;
                if self.cells.len() == 0 {
                    self.add_cell(CellType::Shell);
                } else {
                    let new_idx = if i >= self.cells.len() {
                        self.cells.len() - 1
                    } else {
                        i
                    };
                    self.selected = Some(new_idx);
                }
            }
        }
    }

    /// The index of the selected cell, when a cell is selected.
    pub fn current_cell(&self) -> (r: Option<usize>)
        ensures
            match self.selected {
                Some(i) => if i < self.cells@.len() {
                    r == Some(i)
                } else {
                    r is None
                },
                None => r is None,
            },
    {
        match self.selected {
            Some(i) => if i < self.cells.len() {
                Some(i)
            } else {
                None
            },
            None => None,
        }
    }

    /// Replaces the output of cell `index`, when there is such a cell.
    pub fn update_cell_output(&mut self, index: usize, output: String)
        ensures
            if index < old(self).cells@.len() {
                *final(self) == (App {
                    cells: final(self).cells,
                    ..*old(self)
                }) && final(self).cells@ == old(self).cells@.update(
                    index as int,
                    Cell { output: output, ..old(self).cells@[index as int] },
                )
            } else {
                *final(self) == *old(self)
            },
    {
        if index < self.cells.len() {
            self.cells[index].output = output;
        }
    }

    /// Stamps every due polling cell with `now` and returns the due cells'
    /// indices, in order.
    pub fn check_polling_at(&mut self, now: u64) -> (due_now: Vec<usize>)
        ensures
            due_now@ == due_indices(old(self).cells@, now, old(self).cells@.len() as int),
            final(self).cells@ == Seq::new(
                old(self).cells@.len(),
                |j: int| stamped(old(self).cells@[j], now),
            ),
            *final(self) == (App { cells: final(self).cells, ..*old(self) }),
    {
        let ghost c0 = self.cells@;
        let mut out: Vec<usize> = Vec::new();
        let mut i: usize = 0;
        while i < self.cells.len()
            invariant
                c0 == old(self).cells@,
                *self == (App { cells: self.cells, ..*old(self) }),
                self.cells@.len() == c0.len(),
                i <= c0.len(),
                out@ == due_indices(c0, now, i as int),
                forall|j: int| 0 <= j < i ==> self.cells@[j] == stamped(#[trigger] c0[j], now),
                forall|j: int| i <= j < c0.len() ==> self.cells@[j] == c0[j],
            decreases c0.len() - i,
        {
            let is_due = match self.cells[i].polling_interval {
                Some(iv) => match self.cells[i].last_run {
                    Some(last) => match last.checked_add(iv) {
                        Some(t) => now >= t,
                        None => false,
                    },
                    None => true,
                },
                None => false,
            };
            assert(is_due == due(c0[i as int], now));
            if is_due {
                out.push(i);
                self.cells[i].last_run = Some(now);
            }
            i = i + 1;
        }
        assert(self.cells@ =~= Seq::new(c0.len(), |j: int| stamped(c0[j], now)));
        out
    }

    /// Polls at the current time (seconds since the Unix epoch): stamps the
    /// due cells and returns their indices.
    pub fn check_polling(&mut self) -> (due_now: Vec<usize>)
        ensures
            exists|now: u64|
                {
                    &&& due_now@ == due_indices(old(self).cells@, now, old(self).cells@.len() as int)
                    &&& final(self).cells@ == Seq::new(
                        old(self).cells@.len(),
                        |j: int| stamped(old(self).cells@[j], now),
                    )
                },
            *final(self) == (App { cells: final(self).cells, ..*old(self) }),
    {
        let now = now_secs();
        self.check_polling_at(now)
    }

    /// The request that runs cell `index` on the server: its content, its
    /// language, and as context the earlier cells of the same language.
    /// Markdown cells (and indices past the end) give none.
    pub fn get_run_request(&self, index: usize) -> (r: Option<CommandRequest>)
        ensures
            r is None <==> (index >= self.cells@.len() || self.cells@[index as int].cell_type
                == CellType::Markdown),
            r matches Some(q) ==> {
                let c = self.cells@[index as int];
                let ctx = context_of(self.cells@, c.cell_type, index as int);
                &&& q.command@ == c.content@
                &&& opt_str(q.language) == run_lang(c.cell_type)
                &&& (ctx.len() == 0 ==> q.context is None)
                &&& (ctx.len() > 0 ==> (q.context matches Some(v) && strings(v@) == ctx))
                &&& opt_str(q.client_type) == Some("tui"@)
                &&& opt_str(q.notebook_path) == opt_str(self.file_path)
            },
    {
        if index >= self.cells.len() || self.cells[index].cell_type == CellType::Markdown {
            return None;
        }
        let kind = self.cells[index].cell_type;
        let lang = run_lang_name(kind);
        let mut context: Vec<String> = Vec::new();
        if lang.is_some() {
            let mut i: usize = 0;
            while i < index
                invariant
                    index < self.cells@.len(),
                    run_lang(kind) is Some,
                    i <= index,
                    strings(context@) == context_of(self.cells@, kind, i as int),
                decreases index - i,
            {
                let ghost before = strings(context@);
                if self.cells[i].cell_type == kind {
                    context.push(self.cells[i].content.clone());
                    assert(strings(context@) =~= before + seq![self.cells@[i as int].content@]);
                } else {
                    assert(strings(context@) =~= before + Seq::<Seq<char>>::empty());
                }
                i = i + 1;
            }
        } else {
            assert(context_of(self.cells@, kind, index as int) =~= Seq::<Seq<char>>::empty()) by {
                lemma_no_context(self.cells@, kind, index as int);
            }
        }
        let ghost ctx = strings(context@);
        let context_opt = if context.len() == 0 {
            None
        } else {
            Some(context)
        };
        Some(CommandRequest {
            command: self.cells[index].content.clone(),
            language: match lang {
                Some(n) => Some(n.to_owned()),
                None => None,
            },
            context: context_opt,
            client_type: Some("tui".to_owned()),
            notebook_path: match &self.file_path {
                Some(p) => Some(p.clone()),
                None => None,
            },
        })
    }

    /// Takes the text that came back from the external editor for cell
    /// `cell_idx`. Unchanged text is ignored. Text with a code fence is split
    /// into cells (a code cell's text is first wrapped in a fence of its own
    /// language), which take the cell's place; other text replaces the
    /// cell's content.
    pub fn handle_editor_result(&mut self, cell_idx: usize, new_content: String)
        ensures
            ({
                let n = old(self).cells@.len();
                if cell_idx >= n || old(self).cells@[cell_idx as int].content@ == new_content@ {
                    *final(self) == *old(self)
                } else if contains(new_content@, "```"@) {
                    let c = old(self).cells@[cell_idx as int];
                    let parsed = parse_spec(wrap_for_split(c.cell_type, new_content@));
                    let m = parsed.len();
                    &&& final(self).cells@.len() == n - 1 + m
                    &&& final(self).cells@.take(cell_idx as int) == old(self).cells@.take(
                        cell_idx as int,
                    )
                    &&& texts(final(self).cells@.subrange(cell_idx as int, cell_idx + m)) == parsed
                    &&& final(self).cells@.skip(cell_idx + m) == old(self).cells@.skip(cell_idx + 1)
                    &&& *final(self) == (App { cells: final(self).cells, dirty: true, ..*old(self) })
                } else {
                    &&& final(self).cells@ == old(self).cells@.update(
                        cell_idx as int,
                        Cell { content: new_content, ..old(self).cells@[cell_idx as int] },
                    )
                    &&& *final(self) == (App { cells: final(self).cells, dirty: true, ..*old(self) })
                }
            }),
    {
        if cell_idx >= self.cells.len() {
            return;
        }
        if self.cells[cell_idx].content == new_content {
            return;
        }
        let nv = chars_of(new_content.as_str());
        if contains_str(&nv, "```") {
            let kind = self.cells[cell_idx].cell_type;
            let wrapped = if kind == CellType::Markdown {
                new_content.clone()
            } else {
                let mut w = chars_of("```");
                push_str(&mut w, lang_name(kind));
                push_str(&mut w, "\n");
                push_all(&mut w, &nv);
                push_str(&mut w, "\n```");
                string_of(&w)
            };
            let new_cells = parse_markdown(wrapped.as_str());
            let ghost old_cells = self.cells@;
            let ghost parsed = texts(new_cells@);
            self.cells.remove(cell_idx);
            let mut j: usize = 0;
            while j < new_cells.len()
                invariant
                    cell_idx < old_cells.len(),
                    j <= new_cells.len(),
                    self.cells@.len() == old_cells.len() - 1 + j,
                    self.cells@.take(cell_idx as int) == old_cells.take(cell_idx as int),
                    self.cells@.subrange(cell_idx as int, cell_idx + j) == new_cells@.take(j as int),
                    self.cells@.skip(cell_idx + j) == old_cells.skip(cell_idx + 1),
                    *self == (App { cells: self.cells, ..*old(self) }),
                decreases new_cells.len() - j,
            {
                let c = new_cells[j].duplicate();
                let ghost before = self.cells@;
                let cur_len = self.cells.len();
                assert(cell_idx + j <= cur_len);
                self.cells.insert(cell_idx + j, c);
                assert(self.cells@.take(cell_idx as int) =~= before.take(cell_idx as int));
                assert(self.cells@.subrange(cell_idx as int, cell_idx + j + 1) =~= before.subrange(
                    cell_idx as int,
                    cell_idx + j,
                ).push(c));
                assert(new_cells@.take(j + 1) =~= new_cells@.take(j as int).push(new_cells@[j as int]));
                assert(self.cells@.skip(cell_idx + j + 1) =~= before.skip(cell_idx + j));
                j = j + 1;
            }
            assert(new_cells@.take(new_cells.len() as int) =~= new_cells@);
            assert(texts(self.cells@.subrange(cell_idx as int, cell_idx + new_cells.len())) =~= parsed);
            self.dirty = true;
        } else {
            self.cells[cell_idx].content = new_content;
            self.dirty = true;
        }
    }

    /// Reruns the sidebar search over the entries' labels (headers are not
    /// searched).
    pub fn perform_sidebar_search(&mut self)
        ensures
            searched(
                old(self).sidebar_search,
                final(self).sidebar_search,
                sidebar_hits(
                    old(self).available_files@,
                    old(self).sidebar_search,
                    old(self).available_files@.len() as int,
                ),
            ),
            *final(self) == (App { sidebar_search: final(self).sidebar_search, ..*old(self) }),
    {
        let ghost s0 = self.sidebar_search;
        let mut hits: Vec<usize> = Vec::new();
        if !self.sidebar_search.query.as_str().is_empty() {
            let mut i: usize = 0;
            while i < self.available_files.len()
                invariant
                    s0 == old(self).sidebar_search,
                    *self == *old(self),
                    i <= self.available_files@.len(),
                    hits@ == sidebar_hits(self.available_files@, s0, i as int),
                decreases self.available_files@.len() - i,
            {
                if !self.available_files[i].is_header
                    && self.sidebar_search.matches_pattern(self.available_files[i].label.as_str()) {
                    hits.push(i);
                }
                i = i + 1;
            }
        }
        let has = hits.len() > 0;
        self.sidebar_search.matches = hits;
        self.sidebar_search.current_match = if has {
            Some(0)
        } else {
            None
        };
    }

    /// Reruns the editor search over the cells' contents.
    pub fn perform_editor_search(&mut self)
        ensures
            searched(
                old(self).editor_search,
                final(self).editor_search,
                editor_hits(old(self).cells@, old(self).editor_search, old(self).cells@.len() as int),
            ),
            *final(self) == (App { editor_search: final(self).editor_search, ..*old(self) }),
    {
        let ghost s0 = self.editor_search;
        let mut hits: Vec<usize> = Vec::new();
        if !self.editor_search.query.as_str().is_empty() {
            let mut i: usize = 0;
            while i < self.cells.len()
                invariant
                    s0 == old(self).editor_search,
                    *self == *old(self),
                    i <= self.cells@.len(),
                    hits@ == editor_hits(self.cells@, s0, i as int),
                decreases self.cells@.len() - i,
            {
                if self.editor_search.matches_pattern(self.cells[i].content.as_str()) {
                    hits.push(i);
                }
                i = i + 1;
            }
        }
        let has = hits.len() > 0;
        self.editor_search.matches = hits;
        self.editor_search.current_match = if has {
            Some(0)
        } else {
            None
        };
    }
}

impl App {
    /// Whether `p` is among the expanded directories.
    fn dir_expanded(&self, p: &String) -> (b: bool)
        ensures
            b == text_set(self.expanded_dirs@).contains(p@),
    {
        let mut i: usize = 0;
        while i < self.expanded_dirs.len()
            invariant
                i <= self.expanded_dirs@.len(),
                forall|j: int| 0 <= j < i ==> self.expanded_dirs@[j]@ != p@,
            decreases self.expanded_dirs@.len() - i,
        {
            if self.expanded_dirs[i] == *p {
                assert(self.expanded_dirs@[i as int]@ == p@);
                return true;
            }
            i = i + 1;
        }
        false
    }

    /// Marks `p` as expanded.
    fn expand_dir(&mut self, p: String)
        ensures
            text_set(final(self).expanded_dirs@) == text_set(old(self).expanded_dirs@).insert(p@),
            *final(self) == (App { expanded_dirs: final(self).expanded_dirs, ..*old(self) }),
    {
        let ghost before = self.expanded_dirs@;
        self.expanded_dirs.push(p);
        assert forall|t: Seq<char>| #[trigger] text_set(self.expanded_dirs@).contains(t) <==> text_set(
            before,
        ).insert(p@).contains(t) by {
            if text_set(self.expanded_dirs@).contains(t) {
                let j = choose|j: int| 0 <= j < self.expanded_dirs@.len() && #[trigger] self.expanded_dirs@[j]@ == t;
                if j < before.len() {
                    assert(before[j]@ == t);
                }
            }
            if text_set(before).contains(t) {
                let j = choose|j: int| 0 <= j < before.len() && #[trigger] before[j]@ == t;
                assert(self.expanded_dirs@[j]@ == t);
            }
            if t == p@ {
                assert(self.expanded_dirs@[before.len() as int]@ == t);
            }
        }
        assert(text_set(self.expanded_dirs@) =~= text_set(before).insert(p@));
    }

    /// Marks `p` as collapsed.
    fn collapse_dir(&mut self, p: &String)
        ensures
            text_set(final(self).expanded_dirs@) == text_set(old(self).expanded_dirs@).remove(p@),
            *final(self) == (App { expanded_dirs: final(self).expanded_dirs, ..*old(self) }),
    {
        let ghost before = self.expanded_dirs@;
        let mut kept: Vec<String> = Vec::new();
        let mut i: usize = 0;
        while i < self.expanded_dirs.len()
            invariant
                before == self.expanded_dirs@,
                *self == *old(self),
                i <= before.len(),
                forall|t: Seq<char>| #[trigger] text_set(kept@).contains(t) <==> (t != p@ && exists|j: int|
                    0 <= j < i && #[trigger] before[j]@ == t),
            decreases before.len() - i,
        {
            if self.expanded_dirs[i] != *p {
                let ghost k0 = kept@;
                kept.push(self.expanded_dirs[i].clone());
                assert forall|t: Seq<char>| #[trigger] text_set(kept@).contains(t) <==> (t != p@ && exists|j: int|
                    0 <= j < i + 1 && #[trigger] before[j]@ == t) by {
                    if text_set(kept@).contains(t) {
                        let j = choose|j: int| 0 <= j < kept@.len() && #[trigger] kept@[j]@ == t;
                        if j < k0.len() {
                            assert(text_set(k0).contains(t));
                        } else {
                            assert(before[i as int]@ == t);
                        }
                    }
                    if t != p@ && exists|j: int| 0 <= j < i + 1 && #[trigger] before[j]@ == t {
                        let j = choose|j: int| 0 <= j < i + 1 && #[trigger] before[j]@ == t;
                        if j < i {
                            assert(text_set(k0).contains(t));
                            let m = choose|m: int| 0 <= m < k0.len() && #[trigger] k0[m]@ == t;
                            assert(kept@[m]@ == t);
                        } else {
                            assert(kept@[k0.len() as int]@ == t);
                        }
                    }
                }
            } else {
                assert forall|t: Seq<char>| #[trigger] text_set(kept@).contains(t) <==> (t != p@ && exists|j: int|
                    0 <= j < i + 1 && #[trigger] before[j]@ == t) by {
                    if t != p@ && exists|j: int| 0 <= j < i + 1 && #[trigger] before[j]@ == t {
                        let j = choose|j: int| 0 <= j < i + 1 && #[trigger] before[j]@ == t;
                        assert(j < i);
                    }
                }
            }
            i = i + 1;
        }
        self.expanded_dirs = kept;
        assert(text_set(self.expanded_dirs@) =~= text_set(before).remove(p@));
    }

    /// Enter on a directory of the sidebar: expands it, or collapses it when
    /// it is expanded. Returns whether the tree must be read again.
    pub fn toggle_directory(&mut self, index: usize) -> (refresh: bool)
        ensures
            refresh <==> (index < old(self).available_files@.len()
                && old(self).available_files@[index as int].is_directory
                && old(self).available_files@[index as int].path is Some),
            refresh ==> {
                let p = old(self).available_files@[index as int].path.unwrap()@;
                text_set(final(self).expanded_dirs@) == (if text_set(
                    old(self).expanded_dirs@,
                ).contains(p) {
                    text_set(old(self).expanded_dirs@).remove(p)
                } else {
                    text_set(old(self).expanded_dirs@).insert(p)
                })
            },
            !refresh ==> *final(self) == *old(self),
            *final(self) == (App { expanded_dirs: final(self).expanded_dirs, ..*old(self) }),
    {
        if index < self.available_files.len() && self.available_files[index].is_directory {
            match &self.available_files[index].path {
                Some(p) => {
                    let p = p.clone();
                    if self.dir_expanded(&p) {
                        self.collapse_dir(&p);
                    } else {
                        self.expand_dir(p);
                    }
                    true
                },
                None => false,
            }
        } else {
            false
        }
    }

    /// `h` on a sidebar entry: an expanded directory is collapsed (returns
    /// true: the tree must be read again); on a nested file the selection
    /// moves to the first line showing its parent directory.
    pub fn collapse_directory(&mut self, index: usize) -> (refresh: bool)
        ensures
            ({
                let files = old(self).available_files@;
                if index >= files.len() {
                    !refresh && *final(self) == *old(self)
                } else {
                    let item = files[index as int];
                    if item.is_directory && item.is_expanded && item.path is Some {
                        &&& refresh
                        &&& text_set(final(self).expanded_dirs@) == text_set(
                            old(self).expanded_dirs@,
                        ).remove(item.path.unwrap()@)
                        &&& *final(self) == (App {
                            expanded_dirs: final(self).expanded_dirs,
                            ..*old(self)
                        })
                    } else if !item.is_directory && item.depth > 0 && item.parent_path is Some {
                        &&& !refresh
                        &&& *final(self) == (App {
                            file_selected: match first_path_from(files, item.parent_path.unwrap()@, 0) {
                                Some(j) => Some(j as usize),
                                None => old(self).file_selected,
                            },
                            ..*old(self)
                        })
                    } else {
                        !refresh && *final(self) == *old(self)
                    }
                }
            }),
    {
        if index >= self.available_files.len() {
            return false;
        }
        let is_dir = self.available_files[index].is_directory;
        let expanded = self.available_files[index].is_expanded;
        if is_dir && expanded && self.available_files[index].path.is_some() {
            let p = self.available_files[index].path.clone().unwrap();
            self.collapse_dir(&p);
            return true;
        }
        if !is_dir && self.available_files[index].depth > 0 {
            match &self.available_files[index].parent_path {
                Some(parent) => {
                    let parent = parent.clone();
                    let ghost files = self.available_files@;
                    let mut i: usize = 0;
                    while i < self.available_files.len()
                        invariant
                            *self == *old(self),
                            files == self.available_files@,
                            index < files.len(),
                            !files[index as int].is_directory,
                            files[index as int].depth > 0,
                            files[index as int].parent_path matches Some(q) && q@ == parent@,
                            i <= files.len(),
                            first_path_from(files, parent@, 0) == first_path_from(files, parent@, i as int),
                        decreases files.len() - i,
                    {
                        let hit = match &self.available_files[i].path {
                            Some(q) => *q == parent,
                            None => false,
                        };
                        if hit {
                            assert(path_is(files[i as int], parent@));
                            assert(first_path_from(files, parent@, i as int) == Some(i as int));
                            self.file_selected = Some(i);
                            return false;
                        }
                        i = i + 1;
                    }
                    false
                },
                None => false,
            }
        } else {
            false
        }
    }

    /// `l` on a collapsed directory of the sidebar: expands it. Returns
    /// whether the tree must be read again.
    pub fn expand_directory(&mut self, index: usize) -> (refresh: bool)
        ensures
            refresh <==> (index < old(self).available_files@.len()
                && old(self).available_files@[index as int].is_directory
                && !old(self).available_files@[index as int].is_expanded
                && old(self).available_files@[index as int].path is Some),
            refresh ==> text_set(final(self).expanded_dirs@) == text_set(
                old(self).expanded_dirs@,
            ).insert(old(self).available_files@[index as int].path.unwrap()@),
            !refresh ==> *final(self) == *old(self),
            *final(self) == (App { expanded_dirs: final(self).expanded_dirs, ..*old(self) }),
    {
        if index < self.available_files.len() && self.available_files[index].is_directory
            && !self.available_files[index].is_expanded {
            match &self.available_files[index].path {
                Some(p) => {
                    let p = p.clone();
                    self.expand_dir(p);
                    true
                },
                None => false,
            }
        } else {
            false
        }
    }

    /// Records that cell `i` is being run.
    pub fn mark_running(&mut self, i: usize)
        ensures
            num_set(final(self).running_cells@) == num_set(old(self).running_cells@).insert(i),
            *final(self) == (App { running_cells: final(self).running_cells, ..*old(self) }),
    {
        let ghost before = self.running_cells@;
        if !self.is_running(i) {
            self.running_cells.push(i);
            assert forall|x: usize| #[trigger] self.running_cells@.contains(x) <==> (before.contains(x) || x == i) by {
                if self.running_cells@.contains(x) {
                    let j = choose|j: int| 0 <= j < self.running_cells@.len() && self.running_cells@[j] == x;
                    if j < before.len() {
                        assert(before[j] == x);
                    }
                }
                if before.contains(x) {
                    let j = choose|j: int| 0 <= j < before.len() && before[j] == x;
                    assert(self.running_cells@[j] == x);
                }
                if x == i {
                    assert(self.running_cells@[before.len() as int] == x);
                }
            }
        }
        assert(num_set(self.running_cells@) =~= num_set(before).insert(i));
    }

    /// Records that cell `i` is no longer running.
    pub fn unmark_running(&mut self, i: usize)
        ensures
            num_set(final(self).running_cells@) == num_set(old(self).running_cells@).remove(i),
            *final(self) == (App { running_cells: final(self).running_cells, ..*old(self) }),
    {
        let ghost before = self.running_cells@;
        let mut kept: Vec<usize> = Vec::new();
        let mut k: usize = 0;
        while k < self.running_cells.len()
            invariant
                before == self.running_cells@,
                *self == *old(self),
                k <= before.len(),
                forall|x: usize| #[trigger] kept@.contains(x) <==> (x != i && exists|j: int|
                    0 <= j < k && before[j] == x),
            decreases before.len() - k,
        {
            let x0 = self.running_cells[k];
            let ghost k0 = kept@;
            if x0 != i {
                kept.push(x0);
            }
            assert forall|x: usize| #[trigger] kept@.contains(x) <==> (x != i && exists|j: int|
                0 <= j < k + 1 && before[j] == x) by {
                if kept@.contains(x) {
                    let j = choose|j: int| 0 <= j < kept@.len() && kept@[j] == x;
                    if j < k0.len() {
                        assert(k0[j] == x);
                        assert(k0.contains(x));
                    } else {
                        assert(before[k as int] == x);
                    }
                }
                if x != i && exists|j: int| 0 <= j < k + 1 && before[j] == x {
                    let m = choose|m: int| 0 <= m < k + 1 && before[m] == x;
                    if m < k {
                        assert(k0.contains(x));
                        let j = choose|j: int| 0 <= j < k0.len() && k0[j] == x;
                        assert(kept@[j] == x);
                    } else {
                        assert(kept@[k0.len() as int] == x);
                    }
                }
            }
            k = k + 1;
        }
        self.running_cells = kept;
        assert forall|x: usize| #[trigger] num_set(self.running_cells@).contains(x) <==> num_set(before).remove(i).contains(x) by {
            if before.contains(x) {
                let j = choose|j: int| 0 <= j < before.len() && before[j] == x;
                assert(before[j] == x);
            }
        }
        assert(num_set(self.running_cells@) =~= num_set(before).remove(i));
    }

    /// Whether cell `i` is being run.
    pub fn is_running(&self, i: usize) -> (b: bool)
        ensures
            b == num_set(self.running_cells@).contains(i),
    {
        let mut k: usize = 0;
        while k < self.running_cells.len()
            invariant
                k <= self.running_cells@.len(),
                forall|j: int| 0 <= j < k ==> self.running_cells@[j] != i,
            decreases self.running_cells@.len() - k,
        {
            if self.running_cells[k] == i {
                assert(self.running_cells@[k as int] == i);
                return true;
            }
            k = k + 1;
        }
        false
    }

    /// A run of cell `i` came back with `output`: the cell is no longer
    /// running and shows the output.
    pub fn task_finished(&mut self, i: usize, output: String)
        ensures
            num_set(final(self).running_cells@) == num_set(old(self).running_cells@).remove(i),
            i < old(self).cells@.len() ==> final(self).cells@ == old(self).cells@.update(
                i as int,
                Cell { output: output, ..old(self).cells@[i as int] },
            ),
            i >= old(self).cells@.len() ==> final(self).cells == old(self).cells,
            *final(self) == (App {
                running_cells: final(self).running_cells,
                cells: final(self).cells,
                ..*old(self)
            }),
    {
        self.unmark_running(i);
        self.update_cell_output(i, output);
    }

    /// Takes the stored settings (when there are any): the editor, display
    /// mode and colorscheme they set; the accent follows the colorscheme.
    pub fn apply_config(&mut self, config: Option<Config>)
        ensures
            settings_applied(*old(self), *final(self), config),
    {
        if let Some(cfg) = config {
            if let Some(e) = cfg.editor {
                self.editor = e;
            }
            if let Some(d) = cfg.display_mode {
                self.display_mode = d;
            }
            if let Some(c) = cfg.colorscheme {
                self.colorscheme = c;
            }
        }
        self.accent_color = self.get_accent_color();
    }

    /// The settings to store: the stored ones (or none) with this editor,
    /// display mode and colorscheme.
    pub fn config_to_save(&self, stored: Option<Config>) -> (c: Config)
        ensures
            settings_saved(*self, stored, c),
    {
        let mut c = match stored {
            Some(s) => s,
            None => Config::default(),
        };
        c.editor = Some(self.editor.clone());
        c.display_mode = Some(self.display_mode.clone());
        c.colorscheme = Some(self.colorscheme.clone());
        c
    }

    /// The files that could be the notebook to open at start: the sidebar's
    /// `.md` and `.newt` files outside the application directory, in order.
    pub fn startup_candidates(&self) -> (r: Vec<String>)
        ensures
            strings(r@) == startup_paths(self.available_files@, self.available_files@.len() as int),
    {
        let mut r: Vec<String> = Vec::new();
        let mut i: usize = 0;
        while i < self.available_files.len()
            invariant
                i <= self.available_files@.len(),
                strings(r@) == startup_paths(self.available_files@, i as int),
            decreases self.available_files@.len() - i,
        {
            let ghost before = strings(r@);
            let item = &self.available_files[i];
            let mut pushed = false;
            if !item.is_header && !item.is_app_file {
                if let Some(p) = &item.path {
                    if is_notebook_path(p.as_str()) {
                        r.push(p.clone());
                        pushed = true;
                    }
                }
            }
            if pushed {
                assert(strings(r@) =~= before + seq![self.available_files@[i as int].path.unwrap()@]);
            } else {
                assert(strings(r@) =~= before + Seq::<Seq<char>>::empty());
            }
            i = i + 1;
        }
        r
    }

    /// A notebook was read at start from `path`: it is shown from its first
    /// cell, in the mode that cell wants.
    pub fn load_notebook(&mut self, cells: Vec<Cell>, path: String)
        ensures
            *final(self) == loaded(*old(self), cells, path),
    {
        self.cells = cells;
        self.file_path = Some(path);
        self.selected = Some(0);
        self.set_default_mode_for_selected_cell();
    }

    /// The end of start-up: a notebook that is still empty gets one shell
    /// cell, and nothing counts as changed.
    pub fn finish_start(&mut self)
        ensures
            started(*old(self), *final(self)),
    {
        if self.cells.len() == 0 {
            self.add_cell(CellType::Shell);
        }
        self.dirty = false;
    }

    /// Start-up with a notebook named on the command line. `text` is what
    /// reading the file gave (`None` when it does not exist or cannot be
    /// read) and `json` its cells when that text is a JSON notebook. A
    /// readable file opens, from its JSON cells (an empty list too) or else
    /// from its markdown, and start-up is over. Otherwise the name is kept
    /// as the notebook's path, for the first save (an empty name opens
    /// nothing), and start-up ends as `finish_start` ends it.
    pub fn start_named(&mut self, path: String, text: Option<String>, json: Option<Vec<Cell>>)
        ensures
            path@.len() == 0 ==> started(*old(self), *final(self)),
            path@.len() > 0 && text is None ==> started(
                App { file_path: Some(path), ..*old(self) },
                *final(self),
            ),
            path@.len() > 0 && text is Some && json is Some ==> *final(self) == loaded(
                *old(self),
                json.unwrap(),
                path,
            ),
            path@.len() > 0 && text is Some && json is None ==> {
                &&& texts(final(self).cells@) == parse_spec(text.unwrap()@)
                &&& *final(self) == loaded(*old(self), final(self).cells, path)
            },
    {
        if path.as_str().is_empty() {
            self.finish_start();
            return;
        }
        match text {
            Some(t) => match json {
                Some(cells) => self.load_notebook(cells, path),
                None => {
                    let cells = parse_markdown(t.as_str());
                    self.load_notebook(cells, path);
                },
            },
            None => {
                self.file_path = Some(path);
                self.finish_start();
            },
        }
    }

    /// One start-up candidate tried (see `startup_candidates`): a `.newt`
    /// file opens from its JSON cells, any other from its markdown. A file
    /// that cannot be read, or a `.newt` one that is not JSON, is passed
    /// over and nothing changes. Whether it opened is returned; when one
    /// opens, start-up is over, and when none does, `finish_start` ends it.
    pub fn try_start_candidate(&mut self, path: String, text: Option<String>, json: Option<Vec<Cell>>) -> (opened: bool)
        ensures
            opened == (text is Some && (extension(path@) == Some("newt"@) ==> json is Some)),
            !opened ==> *final(self) == *old(self),
            opened && extension(path@) == Some("newt"@) ==> *final(self) == loaded(
                *old(self),
                json.unwrap(),
                path,
            ),
            opened && extension(path@) != Some("newt"@) ==> {
                &&& texts(final(self).cells@) == parse_spec(text.unwrap()@)
                &&& *final(self) == loaded(*old(self), final(self).cells, path)
            },
    {
        match text {
            None => false,
            Some(t) => if is_newt_path(path.as_str()) {
                match json {
                    Some(cells) => {
                        self.load_notebook(cells, path);
                        true
                    },
                    None => false,
                }
            } else {
                let cells = parse_markdown(t.as_str());
                self.load_notebook(cells, path);
                true
            },
        }
    }

    /// A notebook was opened from the sidebar: it is shown from its first
    /// cell in normal mode, with the keys back in the editor.
    pub fn open_loaded(&mut self, cells: Vec<Cell>, path: String)
        ensures
            *final(self) == (App {
                cells: cells,
                file_path: Some(path),
                input_mode: InputMode::Normal,
                selected: Some(0usize),
                focus: Focus::Editor,
                ..*old(self)
            }),
    {
        self.cells = cells;
        self.file_path = Some(path);
        self.input_mode = InputMode::Normal;
        self.selected = Some(0);
        self.focus = Focus::Editor;
    }
}

/// The cells of a notebook file's text: its JSON cells when the text is a
/// JSON notebook (`json`), else those of its markdown.
pub fn notebook_cells(text: &str, json: Option<Vec<Cell>>) -> (cells: Vec<Cell>)
    ensures
        json is Some ==> cells == json.unwrap(),
        json is None ==> texts(cells@) == parse_spec(text@),
{
    match json {
        Some(cells) => cells,
        None => parse_markdown(text),
    }
}

/// The editor after a notebook was read at start from `path`: shown from
/// its first cell, in the mode that cell wants (editing, with the cursor at
/// the end, for a shell cell).
pub open spec fn loaded(o: App, cells: Vec<Cell>, path: String) -> App {
    let shell = cells@.len() > 0 && cells@[0].cell_type == CellType::Shell;
    App {
        cells: cells,
        file_path: Some(path),
        selected: Some(0usize),
        input_mode: if shell {
            InputMode::Editing
        } else {
            InputMode::Normal
        },
        shell_cursor: if shell {
            vstd::utf8::encode_utf8(cells@[0].content@).len() as usize
        } else {
            0
        },
        ..o
    }
}

/// The end of start-up from `o`: an empty notebook gets one empty shell
/// cell, selected and in editing mode; nothing counts as changed.
pub open spec fn started(o: App, n: App) -> bool {
    &&& o.cells@.len() == 0 ==> {
        &&& n.cells@.len() == 1
        &&& n.cells@[0].cell_type == CellType::Shell
        &&& n.cells@[0].content@.len() == 0
        &&& n.input@.len() == 0
        &&& n == (App {
            cells: n.cells,
            input: n.input,
            selected: Some(0usize),
            shell_cursor: 0,
            input_mode: InputMode::Editing,
            dirty: false,
            ..o
        })
    }
    &&& o.cells@.len() > 0 ==> n == (App { dirty: false, ..o })
}

/// A sidebar entry that can be the notebook opened at start.
pub open spec fn startup_file(f: FileItem) -> bool {
    !f.is_header && !f.is_app_file && f.path is Some && is_notebook(f.path.unwrap()@)
}

/// The paths of the start-up candidates among the first `n` entries.
pub open spec fn startup_paths(files: Seq<FileItem>, n: int) -> Seq<Seq<char>>
    decreases n,
{
    if n <= 0 {
        Seq::<Seq<char>>::empty()
    } else {
        startup_paths(files, n - 1) + (if startup_file(files[n - 1]) {
            seq![files[n - 1].path.unwrap()@]
        } else {
            Seq::<Seq<char>>::empty()
        })
    }
}

/// Whether the entry shows the path `p`.
pub open spec fn path_is(f: FileItem, p: Seq<char>) -> bool {
    f.path matches Some(q) && q@ == p
}

/// The first entry from `i` on that shows the path `p`.
pub open spec fn first_path_from(files: Seq<FileItem>, p: Seq<char>, i: int) -> Option<int>
    decreases files.len() - i,
{
    if i < 0 || i >= files.len() {
        None
    } else if path_is(files[i], p) {
        Some(i)
    } else {
        first_path_from(files, p, i + 1)
    }
}

proof fn lemma_no_context(cells: Seq<Cell>, k: CellType, n: int)
    requires
        run_lang(k) is None,
    ensures
        context_of(cells, k, n) =~= Seq::<Seq<char>>::empty(),
    decreases n,
{
    if n > 0 {
        lemma_no_context(cells, k, n - 1);
    }
}

/// The language name of a cell type, as `run_lang` gives it.
fn run_lang_name(k: CellType) -> (r: Option<&'static str>)
    ensures
        match r {
            Some(s) => run_lang(k) == Some(s@),
            None => run_lang(k) is None,
        },
{
    match k {
        CellType::Rust => Some("rust"),
        CellType::Python => Some("python"),
        CellType::JavaScript => Some("javascript"),
        CellType::TypeScript => Some("typescript"),
        CellType::C => Some("c"),
        CellType::Cpp => Some("cpp"),
        CellType::Go => Some("go"),
        CellType::Shell => None,
        CellType::Markdown => None,
    }
}

/// Calls `SystemTime::now` and measures from the Unix epoch, in whole
/// seconds. The clock decides the value: nothing is stated of it. A clock
/// set before the epoch reads as 0.
#[verifier::external_body]
fn now_secs() -> u64 {
    std::time::SystemTime::now()
        .duration_since(std::time::UNIX_EPOCH)
        .map(|d| d.as_secs())
        .unwrap_or(0)
}

} // verus!
