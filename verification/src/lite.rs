//! The light editor: shell and code cells in a JSON notebook of the
//! application directory, run one at a time by the script server, whose
//! requests carry the earlier cells of the same language as one text.
use vstd::prelude::*;
use crate::api::CommandResponse;
use crate::files::{Entry, order_entries, sorted};
use crate::ids::new_cell_id;
use crate::keys::Key;
use crate::notebook::{Cell, CellType};
use crate::paths::{extension, extension_of};
use crate::state::{Focus, run_lang};
use crate::text::{chars_of, equals_str, push_str, string_of, trim, trimmed, without_last};

verus! {

/// What the keys of the light editor do.
#[derive(Clone, Copy, PartialEq, Eq, Structural, Debug)]
pub enum LiteMode {
    Normal,
    Editing,
    Command,
}

/// The light editor. `selected` is the selected cell, `file_selected` the
/// selected sidebar line (line 0 is "new notebook", line `i + 1` shows
/// `available_files[i]`); `input` is the line typed into a shell cell.
pub struct LiteApp {
    pub cells: Vec<Cell>,
    pub selected: Option<usize>,
    pub input: String,
    pub input_mode: LiteMode,
    pub pending_delete: bool,
    pub command_input: String,
    pub file_path: Option<String>,
    pub file_selected: Option<usize>,
    pub available_files: Vec<String>,
    pub pending_key: Option<char>,
    pub show_sidebar: bool,
    pub focus: Focus,
}

/// A request to the script server: the earlier cells of the language come
/// as one text.
pub struct ScriptRequest {
    pub command: String,
    pub language: Option<String>,
    pub context: Option<String>,
}

/// Outside work a key of the light editor asks for.
pub enum LiteEffect {
    Nothing,
    /// Leave the editor.
    Quit,
    /// List the notebooks of the application directory again
    /// (`LiteApp::files_listed`).
    RefreshFiles,
    /// Read the notebook at this path (`LiteApp::open_loaded`).
    OpenFile(String),
    /// Edit cell `index` in the external editor (`LiteApp::edited`).
    EditCell(usize),
    /// Edit cell `index`, just given its language, in the external editor
    /// (`LiteApp::fresh_done`).
    EditFresh(usize),
    /// Send cell `index` to the server (`LiteApp::get_run_request`).
    Run(usize),
    /// Send every cell to the server, one after the other.
    RunAll,
    /// Save the notebook, then list the notebooks again.
    Save,
    /// Save the notebook, then leave.
    SaveQuit,
    /// Export the notebook through the server next to this path.
    Export(String),
}

/// The selected cell, when it exists.
pub open spec fn lite_cur(a: LiteApp) -> Option<int> {
    match a.selected {
        Some(i) => if i < a.cells@.len() {
            Some(i as int)
        } else {
            None
        },
        None => None,
    }
}

/// `n` is `o` with an empty cell of type `k` at `index`, selected, in normal
/// mode with the typed line cleared.
pub open spec fn lite_inserted(o: LiteApp, n: LiteApp, index: int, k: CellType) -> bool {
    &&& n.cells@.len() == o.cells@.len() + 1
    &&& n.cells@ == o.cells@.insert(index, n.cells@[index])
    &&& n.cells@[index].content@.len() == 0
    &&& n.cells@[index].output@.len() == 0
    &&& n.cells@[index].cell_type == k
    &&& n.cells@[index].polling_interval is None
    &&& n.cells@[index].last_run is None
    &&& n.input@.len() == 0
    &&& n == (LiteApp {
        cells: n.cells,
        selected: Some(index as usize),
        input: n.input,
        input_mode: LiteMode::Normal,
        ..o
    })
}

/// `n` is `o` with an empty cell of type `k` appended, selected, and open
/// for typing.
pub open spec fn lite_appended(o: LiteApp, n: LiteApp, k: CellType) -> bool {
    &&& n.cells@.len() == o.cells@.len() + 1
    &&& n.cells@.drop_last() == o.cells@
    &&& n.cells@.last().content@.len() == 0
    &&& n.cells@.last().output@.len() == 0
    &&& n.cells@.last().cell_type == k
    &&& n.cells@.last().polling_interval is None
    &&& n.cells@.last().last_run is None
    &&& n.input@.len() == 0
    &&& n == (LiteApp {
        cells: n.cells,
        selected: Some(o.cells@.len() as usize),
        input: n.input,
        input_mode: LiteMode::Editing,
        ..o
    })
}

/// `n` is `o` after deleting the selected cell; deleting the only cell
/// leaves one fresh shell cell, and deleting the last moves the selection
/// to the new last cell.
pub open spec fn lite_deleted(o: LiteApp, n: LiteApp) -> bool {
    match lite_cur(o) {
        Some(i) => {
            let len = o.cells@.len();
            if len == 1 {
                &&& n.cells@.len() == 1
                &&& n.cells@[0].cell_type == CellType::Shell
                &&& n.cells@[0].content@.len() == 0
                &&& n.cells@[0].output@.len() == 0
                &&& n.cells@[0].polling_interval is None
                &&& n.cells@[0].last_run is None
                &&& n.input@.len() == 0
                &&& n == (LiteApp {
                    cells: n.cells,
                    input: n.input,
                    selected: Some(0usize),
                    input_mode: LiteMode::Editing,
                    ..o
                })
            } else {
                &&& n.cells@ == o.cells@.remove(i)
                &&& n == (LiteApp {
                    cells: n.cells,
                    selected: Some(if i + 1 == len { (len - 2) as usize } else { i as usize }),
                    ..o
                })
            }
        },
        None => n == o,
    }
}

/// The text of the earlier cells: the contents of the first `n` cells of
/// type `k`, each followed by a newline, when `k` runs in a language of its
/// own.
pub open spec fn lite_context(cells: Seq<Cell>, k: CellType, n: int) -> Seq<char>
    decreases n,
{
    if n <= 0 {
        Seq::<char>::empty()
    } else {
        lite_context(cells, k, n - 1) + (if run_lang(k) is Some && cells[n - 1].cell_type == k {
            cells[n - 1].content@ + seq!['\n']
        } else {
            Seq::<char>::empty()
        })
    }
}

/// The notebooks among the entries: the `.newt` files.
pub open spec fn newt_entries(paths: Seq<String>) -> Seq<Entry>
    decreases paths.len(),
{
    if paths.len() == 0 {
        Seq::<Entry>::empty()
    } else {
        newt_entries(paths.drop_last()) + (if extension(paths.last()@) == Some("newt"@) {
            seq![(paths.last(), false)]
        } else {
            Seq::<Entry>::empty()
        })
    }
}

/// The entries a list of paths stands for, none a directory.
pub open spec fn as_files(paths: Seq<String>) -> Seq<Entry> {
    Seq::new(paths.len(), |i: int| (paths[i], false))
}

/// The cell type a word typed into a shell cell names.
pub open spec fn lite_type_word(w: Seq<char>) -> Option<CellType> {
    if w == "rust"@ {
        Some(CellType::Rust)
    } else if w == "py"@ || w == "python"@ {
        Some(CellType::Python)
    } else if w == "js"@ || w == "javascript"@ {
        Some(CellType::JavaScript)
    } else if w == "ts"@ || w == "typescript"@ {
        Some(CellType::TypeScript)
    } else if w == "c"@ {
        Some(CellType::C)
    } else if w == "cpp"@ || w == "c++"@ {
        Some(CellType::Cpp)
    } else if w == "go"@ {
        Some(CellType::Go)
    } else {
        None
    }
}

fn lite_type_word_of(w: &Vec<char>) -> (r: Option<CellType>)
    ensures
        r == lite_type_word(w@),
{
    if equals_str(w, "rust") {
        Some(CellType::Rust)
    } else if equals_str(w, "py") || equals_str(w, "python") {
        Some(CellType::Python)
    } else if equals_str(w, "js") || equals_str(w, "javascript") {
        Some(CellType::JavaScript)
    } else if equals_str(w, "ts") || equals_str(w, "typescript") {
        Some(CellType::TypeScript)
    } else if equals_str(w, "c") {
        Some(CellType::C)
    } else if equals_str(w, "cpp") || equals_str(w, "c++") {
        Some(CellType::Cpp)
    } else if equals_str(w, "go") {
        Some(CellType::Go)
    } else {
        None
    }
}

/// The text a cell shows for a reply of the script server: standard
/// output, then standard error.
pub fn plain_output(r: &CommandResponse) -> (t: String)
    ensures
        t@ == r.stdout@ + r.stderr@,
{
    let mut out = chars_of(r.stdout.as_str());
    push_str(&mut out, r.stderr.as_str());
    string_of(&out)
}

// ---------------------------------------------------------------------------
// Keys
// ---------------------------------------------------------------------------

/// What a key does in the sidebar.
pub open spec fn lite_sidebar_post(o: LiteApp, n: LiteApp, key: Key, e: LiteEffect) -> bool {
    let files = o.available_files@;
    if key == Key::Char('q') {
        n == o && e == LiteEffect::Quit
    } else if key == Key::Char('j') || key == Key::Down {
        e == LiteEffect::Nothing && n == (LiteApp {
            file_selected: match o.file_selected {
                Some(i) => if i < files.len() {
                    Some((i + 1) as usize)
                } else {
                    o.file_selected
                },
                None => None,
            },
            ..o
        })
    } else if key == Key::Char('k') || key == Key::Up {
        e == LiteEffect::Nothing && n == (LiteApp {
            file_selected: match o.file_selected {
                Some(i) => if i > 0 {
                    Some((i - 1) as usize)
                } else {
                    o.file_selected
                },
                None => None,
            },
            ..o
        })
    } else if key == Key::Enter {
        match o.file_selected {
            Some(i) => if i == 0 {
                &&& e == LiteEffect::Nothing
                &&& n.cells@.len() == 1
                &&& n.cells@[0].cell_type == CellType::Shell
                &&& n.cells@[0].content@.len() == 0
                &&& n.cells@[0].output@.len() == 0
                &&& n.cells@[0].polling_interval is None
                &&& n.cells@[0].last_run is None
                &&& n.input@.len() == 0
                &&& n == (LiteApp {
                    cells: n.cells,
                    input: n.input,
                    selected: Some(0usize),
                    file_path: None,
                    input_mode: LiteMode::Normal,
                    focus: Focus::Editor,
                    ..o
                })
            } else {
                &&& n == (LiteApp { focus: Focus::Editor, ..o })
                &&& e == (if i - 1 < files.len() {
                    LiteEffect::OpenFile(files[i - 1])
                } else {
                    LiteEffect::Nothing
                })
            },
            None => n == o && e == LiteEffect::Nothing,
        }
    } else if key == Key::Char('l') || key == Key::Right {
        e == LiteEffect::Nothing && n == (LiteApp { focus: Focus::Editor, ..o })
    } else {
        n == o && e == LiteEffect::Nothing
    }
}

/// What a key does to the cells in normal mode.
pub open spec fn lite_editor_post(o: LiteApp, n: LiteApp, key: Key, e: LiteEffect) -> bool {
    let len = o.cells@.len();
    let cur = lite_cur(o);
    if key == Key::Char(':') {
        e == LiteEffect::Nothing && n.command_input@.len() == 0 && n == (LiteApp {
            input_mode: LiteMode::Command,
            command_input: n.command_input,
            ..o
        })
    } else if key == Key::Char('j') {
        e == LiteEffect::Nothing && n == (LiteApp {
            selected: match o.selected {
                Some(i) => if len > 0 && i < len - 1 {
                    Some((i + 1) as usize)
                } else {
                    o.selected
                },
                None => None,
            },
            ..o
        })
    } else if key == Key::Char('k') {
        e == LiteEffect::Nothing && n == (LiteApp {
            selected: match o.selected {
                Some(i) => if i > 0 {
                    Some((i - 1) as usize)
                } else {
                    o.selected
                },
                None => None,
            },
            ..o
        })
    } else if key == Key::Char('h') || key == Key::Left {
        e == LiteEffect::Nothing && n == (LiteApp {
            focus: if o.show_sidebar {
                Focus::Sidebar
            } else {
                o.focus
            },
            ..o
        })
    } else if key == Key::Char('o') || key == Key::Char('O') {
        e == LiteEffect::Nothing && match cur {
            Some(i) => lite_inserted(
                o,
                n,
                if key == Key::Char('o') {
                    i + 1
                } else {
                    i
                },
                CellType::Shell,
            ),
            None => n == o,
        }
    } else if key == Key::Char('d') {
        e == LiteEffect::Nothing && lite_deleted(LiteApp { pending_delete: false, ..o }, n)
    } else if key == Key::Char('i') {
        let o1 = LiteApp { pending_delete: false, ..o };
        match cur {
            Some(i) => if o.cells@[i].cell_type == CellType::Shell {
                e == LiteEffect::Nothing && n.input@ == o.cells@[i].content@ && n == (LiteApp {
                    input: n.input,
                    input_mode: LiteMode::Editing,
                    ..o1
                })
            } else {
                n == o1 && e == LiteEffect::EditCell(i as usize)
            },
            None => n == o1 && e == LiteEffect::Nothing,
        }
    } else if key == Key::Enter {
        n == (LiteApp { pending_delete: false, ..o }) && e == match cur {
            Some(i) => LiteEffect::Run(i as usize),
            None => LiteEffect::Nothing,
        }
    } else {
        n == (LiteApp { pending_delete: false, ..o }) && e == LiteEffect::Nothing
    }
}

/// Back to normal mode with the command line emptied.
pub open spec fn lite_closed(o: LiteApp, n: LiteApp) -> bool {
    n.command_input@.len() == 0 && n == (LiteApp {
        input_mode: LiteMode::Normal,
        command_input: n.command_input,
        ..o
    })
}

/// What a key does on the command line.
pub open spec fn lite_command_post(o: LiteApp, n: LiteApp, key: Key, e: LiteEffect) -> bool {
    let w = o.command_input@;
    if key == Key::Enter {
        if w == "q"@ {
            n == o && e == LiteEffect::Quit
        } else if w == "wq"@ {
            n == o && e == LiteEffect::SaveQuit
        } else {
            &&& lite_closed(o, n)
            &&& e == (if w == "w"@ {
                LiteEffect::Save
            } else if w == "export"@ {
                match o.file_path {
                    Some(p) => LiteEffect::Export(p),
                    None => LiteEffect::Nothing,
                }
            } else if w == "ra"@ || w == "runall"@ {
                LiteEffect::RunAll
            } else {
                LiteEffect::Nothing
            })
        }
    } else if key is Char {
        e == LiteEffect::Nothing && n.command_input@ == w.push(key->0) && n == (LiteApp {
            command_input: n.command_input,
            ..o
        })
    } else if key == Key::Backspace {
        e == LiteEffect::Nothing && n.command_input@ == (if w.len() > 0 {
            w.drop_last()
        } else {
            w
        }) && n == (LiteApp { command_input: n.command_input, ..o })
    } else if key == Key::Esc {
        e == LiteEffect::Nothing && lite_closed(o, n)
    } else {
        n == o && e == LiteEffect::Nothing
    }
}

/// The cells after Enter on a line that names no language: the line
/// becomes the text of the selected cell when that is a shell cell.
pub open spec fn lite_line_cells(o: LiteApp) -> Seq<Cell> {
    match lite_cur(o) {
        Some(i) => if o.cells@[i].cell_type == CellType::Shell {
            o.cells@.update(i, Cell { content: o.input, ..o.cells@[i] })
        } else {
            o.cells@
        },
        None => o.cells@,
    }
}

/// Enter while typing into a cell: a language word gives the selected cell
/// that language (its text emptied) and opens it in the external editor;
/// any other line becomes the text of a selected shell cell, the selected
/// cell is run, and the selection moves on, adding a shell cell after the
/// last.
pub open spec fn lite_enter_post(o: LiteApp, n: LiteApp, e: LiteEffect) -> bool {
    let len = o.cells@.len();
    match lite_type_word(trim(o.input@)) {
        Some(k) => match lite_cur(o) {
            Some(i) => {
                &&& e == LiteEffect::EditFresh(i as usize)
                &&& n.cells@[i].content@.len() == 0
                &&& n.cells@ == o.cells@.update(
                    i,
                    Cell { cell_type: k, content: n.cells@[i].content, ..o.cells@[i] },
                )
                &&& n == (LiteApp { cells: n.cells, ..o })
            },
            None => n == o && e == LiteEffect::Nothing,
        },
        None => {
            let m = lite_line_cells(o);
            &&& e == (match lite_cur(o) {
                Some(i) => LiteEffect::Run(i as usize),
                None => LiteEffect::Nothing,
            })
            &&& match o.selected {
                Some(i) => if len > 0 && i == len - 1 {
                    &&& n.cells@.len() == len + 1
                    &&& n.cells@.drop_last() == m
                    &&& n.cells@.last().content@.len() == 0
                    &&& n.cells@.last().output@.len() == 0
                    &&& n.cells@.last().cell_type == CellType::Shell
                    &&& n.cells@.last().polling_interval is None
                    &&& n.cells@.last().last_run is None
                    &&& n.input@.len() == 0
                    &&& n == (LiteApp {
                        cells: n.cells,
                        selected: Some(len as usize),
                        input: n.input,
                        input_mode: LiteMode::Editing,
                        ..o
                    })
                } else {
                    &&& n.cells@ == m
                    &&& n == (LiteApp {
                        cells: n.cells,
                        selected: if i < usize::MAX {
                            Some((i + 1) as usize)
                        } else {
                            o.selected
                        },
                        input_mode: LiteMode::Normal,
                        ..o
                    })
                },
                None => n.cells@ == m && n == (LiteApp { cells: n.cells, ..o }),
            }
        },
    }
}

/// What a key does while typing into a cell.
pub open spec fn lite_editing_post(o: LiteApp, n: LiteApp, key: Key, e: LiteEffect) -> bool {
    if key == Key::Enter {
        lite_enter_post(o, n, e)
    } else if key is Char {
        e == LiteEffect::Nothing && n.input@ == o.input@.push(key->0) && n == (LiteApp {
            input: n.input,
            ..o
        })
    } else if key == Key::Backspace {
        e == LiteEffect::Nothing && n.input@ == (if o.input@.len() > 0 {
            o.input@.drop_last()
        } else {
            o.input@
        }) && n == (LiteApp { input: n.input, ..o })
    } else if key == Key::Esc {
        e == LiteEffect::Nothing && n == (LiteApp { input_mode: LiteMode::Normal, ..o })
    } else {
        n == o && e == LiteEffect::Nothing
    }
}

/// What a key does, by mode and focus.
pub open spec fn lite_dispatch_post(o: LiteApp, n: LiteApp, key: Key, e: LiteEffect) -> bool {
    match o.input_mode {
        LiteMode::Normal => if o.focus == Focus::Sidebar {
            lite_sidebar_post(o, n, key, e)
        } else {
            lite_editor_post(o, n, key, e)
        },
        LiteMode::Command => lite_command_post(o, n, key, e),
        LiteMode::Editing => lite_editing_post(o, n, key, e),
    }
}

/// What a key does. In normal mode Space starts a two-key sequence: Space
/// `e` shows or hides the sidebar (reading the notebook list when it
/// shows); a key that ends no sequence is handled as if none were pending.
pub open spec fn lite_key_post(o: LiteApp, n: LiteApp, key: Key, e: LiteEffect) -> bool {
    match o.pending_key {
        Some(p) => if p == ' ' && key == Key::Char('e') {
            let show = !o.show_sidebar;
            &&& e == (if show {
                LiteEffect::RefreshFiles
            } else {
                LiteEffect::Nothing
            })
            &&& n == (LiteApp {
                show_sidebar: show,
                focus: if show {
                    Focus::Sidebar
                } else {
                    Focus::Editor
                },
                pending_key: None,
                ..o
            })
        } else {
            lite_dispatch_post(LiteApp { pending_key: None, ..o }, n, key, e)
        },
        None => if o.input_mode == LiteMode::Normal && key == Key::Char(' ') {
            e == LiteEffect::Nothing && n == (LiteApp { pending_key: Some(' '), ..o })
        } else {
            lite_dispatch_post(o, n, key, e)
        },
    }
}

impl LiteApp {
    /// A fresh light editor: no cells, nothing selected, typing mode.
    pub fn new() -> (a: LiteApp)
        ensures
            a.cells@.len() == 0,
            a.selected is None,
            a.input@.len() == 0,
            a.input_mode == LiteMode::Editing,
            !a.pending_delete,
            a.command_input@.len() == 0,
            a.file_path is None,
            a.file_selected is None,
            a.available_files@.len() == 0,
            a.pending_key is None,
            !a.show_sidebar,
            a.focus == Focus::Editor,
    {
        LiteApp {
            cells: Vec::new(),
            selected: None,
            input: String::new(),
            input_mode: LiteMode::Editing,
            pending_delete: false,
            command_input: String::new(),
            file_path: None,
            file_selected: None,
            available_files: Vec::new(),
            pending_key: None,
            show_sidebar: false,
            focus: Focus::Editor,
        }
    }

    /// Inserts an empty cell of the given type at `index` and selects it.
    pub fn insert_cell(&mut self, index: usize, cell_type: CellType)
        requires
            index <= old(self).cells@.len(),
        ensures
            lite_inserted(*old(self), *final(self), index as int, cell_type),
    {
        let cell = Cell {
            id: new_cell_id(),
            content: String::new(),
            output: String::new(),
            cell_type,
            polling_interval: None,
            last_run: None,
        };
        self.cells.insert(index, cell);
        self.selected = Some(index);
        self.input = String::new();
        self.input_mode = LiteMode::Normal;
    }

    /// Appends an empty cell of the given type, selected and open for
    /// typing.
    pub fn add_cell(&mut self, cell_type: CellType)
        ensures
            lite_appended(*old(self), *final(self), cell_type),
    {
        let n = self.cells.len();
        self.insert_cell(n, cell_type);
        assert(self.cells@.drop_last() =~= old(self).cells@);
        self.input_mode = LiteMode::Editing;
    }

    /// Deletes the selected cell, keeping at least one cell.
    pub fn delete_current_cell(&mut self)
        ensures
            lite_deleted(*old(self), *final(self)),
    {
        if let Some(i) = self.selected {
            if i < self.cells.len() {
                self.cells.remove(i);
                if self.cells.len() == 0 {
                    self.add_cell(CellType::Shell);
                } else if i >= self.cells.len() {
                    self.selected = Some(self.cells.len() - 1);
                }
            }
        }
    }

    /// The request that runs cell `index`, when there is such a cell: its
    /// text, its language (none for a shell cell) and the text of the
    /// earlier cells of its type (none when that is empty).
    pub fn get_run_request(&self, index: usize) -> (r: Option<ScriptRequest>)
        ensures
            r is Some <==> index < self.cells@.len(),
            r matches Some(q) ==> {
                let c = self.cells@[index as int];
                let ctx = lite_context(self.cells@, c.cell_type, index as int);
                &&& q.command@ == c.content@
                &&& crate::api::opt_str(q.language) == run_lang(c.cell_type)
                &&& if ctx.len() == 0 {
                    q.context is None
                } else {
                    q.context matches Some(t) && t@ == ctx
                }
            },
    {
        if index >= self.cells.len() {
            return None;
        }
        let cell = &self.cells[index];
        let k = cell.cell_type;
        let lang: Option<&str> = match k {
            CellType::Rust => Some("rust"),
            CellType::Python => Some("python"),
            CellType::JavaScript => Some("javascript"),
            CellType::TypeScript => Some("typescript"),
            CellType::C => Some("c"),
            CellType::Cpp => Some("cpp"),
            CellType::Go => Some("go"),
            CellType::Shell => None,
            CellType::Markdown => None,
        };
        proof {
            reveal_strlit("rust");
            reveal_strlit("python");
            reveal_strlit("javascript");
            reveal_strlit("typescript");
            reveal_strlit("c");
            reveal_strlit("cpp");
            reveal_strlit("go");
        }
        let mut ctx: Vec<char> = Vec::new();
        if lang.is_some() {
            let mut j: usize = 0;
            while j < index
                invariant
                    j <= index,
                    index < self.cells@.len(),
                    k == self.cells@[index as int].cell_type,
                    run_lang(k) is Some,
                    ctx@ == lite_context(self.cells@, k, j as int),
                decreases index - j,
            {
                if self.cells[j].cell_type == k {
                    push_str(&mut ctx, self.cells[j].content.as_str());
                    ctx.push('\n');
                }
                j = j + 1;
            }
        } else {
            assert(ctx@ =~= lite_context(self.cells@, k, index as int)) by {
                lemma_no_lite_context(self.cells@, k, index as int);
            }
        }
        Some(ScriptRequest {
            command: cell.content.clone(),
            language: match lang {
                Some(n) => Some(n.to_owned()),
                None => None,
            },
            context: if ctx.len() == 0 {
                None
            } else {
                Some(string_of(&ctx))
            },
        })
    }

    /// Replaces the output of cell `index`, when there is such a cell.
    pub fn update_cell_output(&mut self, index: usize, output: String)
        ensures
            index < old(self).cells@.len() ==> final(self).cells@ == old(self).cells@.update(
                index as int,
                Cell { output: output, ..old(self).cells@[index as int] },
            ),
            index >= old(self).cells@.len() ==> final(self).cells == old(self).cells,
            *final(self) == (LiteApp { cells: final(self).cells, ..*old(self) }),
    {
        if index < self.cells.len() {
            let ghost before = self.cells@;
            let mut c = self.cells.remove(index);
            c.output = output;
            self.cells.insert(index, c);
            assert(self.cells@ =~= before.update(index as int, Cell { output: output, ..before[index as int] }));
        }
    }

    /// A notebook was read from `path`: it is shown from its first cell, in
    /// normal mode.
    pub fn open_loaded(&mut self, cells: Vec<Cell>, path: String)
        ensures
            *final(self) == (LiteApp {
                cells: cells,
                file_path: Some(path),
                input_mode: LiteMode::Normal,
                selected: Some(0usize),
                ..*old(self)
            }),
    {
        self.cells = cells;
        self.file_path = Some(path);
        self.input_mode = LiteMode::Normal;
        self.selected = Some(0);
    }

    /// The end of start-up: a notebook that is still empty gets one shell
    /// cell, open for typing.
    pub fn finish_start(&mut self)
        ensures
            old(self).cells@.len() == 0 ==> lite_appended(*old(self), *final(self), CellType::Shell),
            old(self).cells@.len() > 0 ==> *final(self) == *old(self),
    {
        if self.cells.len() == 0 {
            self.add_cell(CellType::Shell);
        }
    }

    /// The notebooks of the application directory were listed: the `.newt`
    /// files among `paths`, sorted, with "new notebook" selected.
    pub fn files_listed(&mut self, paths: Vec<String>)
        ensures
            sorted(as_files(final(self).available_files@)),
            as_files(final(self).available_files@).to_multiset() == newt_entries(paths@).to_multiset(),
            *final(self) == (LiteApp {
                available_files: final(self).available_files,
                file_selected: Some(0usize),
                ..*old(self)
            }),
    {
        let mut kept: Vec<Entry> = Vec::new();
        let mut i: usize = 0;
        while i < paths.len()
            invariant
                i <= paths@.len(),
                kept@ == newt_entries(paths@.take(i as int)),
            decreases paths@.len() - i,
        {
            assert(paths@.take(i + 1).drop_last() =~= paths@.take(i as int));
            assert(paths@.take(i + 1).last() == paths@[i as int]);
            let is_newt = match extension_of(paths[i].as_str()) {
                Some(e) => equals_str(&chars_of(e.as_str()), "newt"),
                None => false,
            };
            let ghost before = kept@;
            if is_newt {
                kept.push((paths[i].clone(), false));
                assert(kept@ =~= before + seq![(paths@[i as int], false)]);
            } else {
                assert(kept@ =~= before + Seq::<Entry>::empty());
            }
            i = i + 1;
        }
        assert(paths@.take(paths@.len() as int) =~= paths@);
        let ghost all = kept@;
        proof {
            lemma_newt_entries_files(paths@);
        }
        let ordered = order_entries(kept);
        let mut names: Vec<String> = Vec::new();
        let mut j: usize = 0;
        while j < ordered.len()
            invariant
                j <= ordered@.len(),
                ordered@.to_multiset() == all.to_multiset(),
                forall|x: Entry| all.contains(x) ==> !x.1,
                names@.len() == j,
                forall|t: int| 0 <= t < j ==> (#[trigger] names@[t], false) == ordered@[t],
            decreases ordered@.len() - j,
        {
            proof {
                let x = ordered@[j as int];
                ordered@.to_multiset_ensures();
                all.to_multiset_ensures();
                assert(ordered@.contains(x));
                assert(ordered@.to_multiset().count(x) > 0);
                assert(all.contains(x));
            }
            names.push(ordered[j].0.clone());
            j = j + 1;
        }
        assert(as_files(names@) =~= ordered@);
        self.available_files = names;
        self.file_selected = Some(0);
    }
}

impl LiteApp {
    fn sidebar_key(&mut self, key: Key) -> (e: LiteEffect)
        ensures
            lite_sidebar_post(*old(self), *final(self), key, e),
    {
        if key == Key::Char('q') {
            return LiteEffect::Quit;
        }
        if key == Key::Char('j') || key == Key::Down {
            if let Some(i) = self.file_selected {
                if i < self.available_files.len() {
                    self.file_selected = Some(i + 1);
                }
            }
            return LiteEffect::Nothing;
        }
        if key == Key::Char('k') || key == Key::Up {
            if let Some(i) = self.file_selected {
                if i > 0 {
                    self.file_selected = Some(i - 1);
                }
            }
            return LiteEffect::Nothing;
        }
        if key == Key::Enter {
            match self.file_selected {
                Some(i) => {
                    if i == 0 {
                        self.cells = Vec::new();
                        self.add_cell(CellType::Shell);
                        self.file_path = None;
                        self.input_mode = LiteMode::Normal;
                        self.selected = Some(0);
                        self.focus = Focus::Editor;
                        return LiteEffect::Nothing;
                    }
                    self.focus = Focus::Editor;
                    if i - 1 < self.available_files.len() {
                        return LiteEffect::OpenFile(self.available_files[i - 1].clone());
                    }
                    return LiteEffect::Nothing;
                },
                None => return LiteEffect::Nothing,
            }
        }
        if key == Key::Char('l') || key == Key::Right {
            self.focus = Focus::Editor;
        }
        LiteEffect::Nothing
    }

    fn editor_key(&mut self, key: Key) -> (e: LiteEffect)
        ensures
            lite_editor_post(*old(self), *final(self), key, e),
    {
        let len = self.cells.len();
        if key == Key::Char(':') {
            self.input_mode = LiteMode::Command;
            self.command_input = String::new();
            return LiteEffect::Nothing;
        }
        if key == Key::Char('j') {
            if let Some(i) = self.selected {
                if len > 0 && i < len - 1 {
                    self.selected = Some(i + 1);
                }
            }
            return LiteEffect::Nothing;
        }
        if key == Key::Char('k') {
            if let Some(i) = self.selected {
                if i > 0 {
                    self.selected = Some(i - 1);
                }
            }
            return LiteEffect::Nothing;
        }
        if key == Key::Char('h') || key == Key::Left {
            if self.show_sidebar {
                self.focus = Focus::Sidebar;
            }
            return LiteEffect::Nothing;
        }
        if key == Key::Char('o') || key == Key::Char('O') {
            if let Some(i) = self.selected {
                if i < len {
                    let at = if key == Key::Char('o') {
                        i + 1
                    } else {
                        i
                    };
                    self.insert_cell(at, CellType::Shell);
                }
            }
            return LiteEffect::Nothing;
        }
        if key == Key::Char('d') {
            self.pending_delete = false;
            self.delete_current_cell();
            return LiteEffect::Nothing;
        }
        self.pending_delete = false;
        if key == Key::Char('i') {
            if let Some(i) = self.selected {
                if i < len {
                    if self.cells[i].cell_type == CellType::Shell {
                        self.input = self.cells[i].content.clone();
                        self.input_mode = LiteMode::Editing;
                        return LiteEffect::Nothing;
                    }
                    return LiteEffect::EditCell(i);
                }
            }
            return LiteEffect::Nothing;
        }
        if key == Key::Enter {
            if let Some(i) = self.selected {
                if i < len {
                    return LiteEffect::Run(i);
                }
            }
        }
        LiteEffect::Nothing
    }

    fn close_command(&mut self)
        ensures
            lite_closed(*old(self), *final(self)),
    {
        self.input_mode = LiteMode::Normal;
        self.command_input = String::new();
    }

    fn command_key(&mut self, key: Key) -> (e: LiteEffect)
        ensures
            lite_command_post(*old(self), *final(self), key, e),
    {
        match key {
            Key::Enter => {
                let w = chars_of(self.command_input.as_str());
                proof {
                    reveal_strlit("q");
                    reveal_strlit("wq");
                }
                if equals_str(&w, "q") {
                    return LiteEffect::Quit;
                }
                if equals_str(&w, "wq") {
                    return LiteEffect::SaveQuit;
                }
                let e = if equals_str(&w, "w") {
                    LiteEffect::Save
                } else if equals_str(&w, "export") {
                    match &self.file_path {
                        Some(p) => LiteEffect::Export(p.clone()),
                        None => LiteEffect::Nothing,
                    }
                } else if equals_str(&w, "ra") || equals_str(&w, "runall") {
                    LiteEffect::RunAll
                } else {
                    LiteEffect::Nothing
                };
                self.close_command();
                e
            },
            Key::Char(c) => {
                self.command_input.push(c);
                LiteEffect::Nothing
            },
            Key::Backspace => {
                self.command_input = without_last(&self.command_input);
                LiteEffect::Nothing
            },
            Key::Esc => {
                self.close_command();
                LiteEffect::Nothing
            },
            _ => LiteEffect::Nothing,
        }
    }

    fn set_content(&mut self, i: usize, t: String)
        requires
            i < old(self).cells@.len(),
        ensures
            final(self).cells@ == old(self).cells@.update(
                i as int,
                Cell { content: t, ..old(self).cells@[i as int] },
            ),
            *final(self) == (LiteApp { cells: final(self).cells, ..*old(self) }),
    {
        let ghost before = self.cells@;
        let mut c = self.cells.remove(i);
        c.content = t;
        self.cells.insert(i, c);
        assert(self.cells@ =~= before.update(i as int, Cell { content: t, ..before[i as int] }));
    }

    fn enter_line(&mut self) -> (e: LiteEffect)
        ensures
            lite_enter_post(*old(self), *final(self), e),
    {
        let word = trimmed(&chars_of(self.input.as_str()));
        let len = self.cells.len();
        match lite_type_word_of(&word) {
            Some(k) => {
                if let Some(i) = self.selected {
                    if i < len {
                        let ghost before = self.cells@;
                        let mut c = self.cells.remove(i);
                        c.cell_type = k;
                        c.content = String::new();
                        self.cells.insert(i, c);
                        assert(self.cells@ =~= before.update(
                            i as int,
                            Cell { cell_type: k, content: self.cells@[i as int].content, ..before[i as int] },
                        ));
                        return LiteEffect::EditFresh(i);
                    }
                }
                LiteEffect::Nothing
            },
            None => {
                let mut e = LiteEffect::Nothing;
                if let Some(i) = self.selected {
                    if i < len {
                        if self.cells[i].cell_type == CellType::Shell {
                            let t = self.input.clone();
                            self.set_content(i, t);
                        }
                        e = LiteEffect::Run(i);
                    }
                }
                let ghost m = self.cells@;
                assert(m == lite_line_cells(*old(self)));
                if let Some(i) = self.selected {
                    if len > 0 && i == len - 1 {
                        self.add_cell(CellType::Shell);
                    } else {
                        if i < usize::MAX {
                            self.selected = Some(i + 1);
                        }
                        self.input_mode = LiteMode::Normal;
                    }
                }
                e
            },
        }
    }

    fn editing_key(&mut self, key: Key) -> (e: LiteEffect)
        ensures
            lite_editing_post(*old(self), *final(self), key, e),
    {
        match key {
            Key::Enter => self.enter_line(),
            Key::Char(c) => {
                self.input.push(c);
                LiteEffect::Nothing
            },
            Key::Backspace => {
                self.input = without_last(&self.input);
                LiteEffect::Nothing
            },
            Key::Esc => {
                self.input_mode = LiteMode::Normal;
                LiteEffect::Nothing
            },
            _ => LiteEffect::Nothing,
        }
    }

    fn dispatch(&mut self, key: Key) -> (e: LiteEffect)
        ensures
            lite_dispatch_post(*old(self), *final(self), key, e),
    {
        match self.input_mode {
            LiteMode::Normal => if self.focus == Focus::Sidebar {
                self.sidebar_key(key)
            } else {
                self.editor_key(key)
            },
            LiteMode::Command => self.command_key(key),
            LiteMode::Editing => self.editing_key(key),
        }
    }

    /// Handles one key press.
    pub fn handle_key(&mut self, key: Key) -> (e: LiteEffect)
        ensures
            lite_key_post(*old(self), *final(self), key, e),
    {
        match self.pending_key {
            Some(p) => {
                self.pending_key = None;
                if p == ' ' && key == Key::Char('e') {
                    self.show_sidebar = !self.show_sidebar;
                    if self.show_sidebar {
                        self.focus = Focus::Sidebar;
                        return LiteEffect::RefreshFiles;
                    } else {
                        self.focus = Focus::Editor;
                        return LiteEffect::Nothing;
                    }
                }
            },
            None => {
                if self.input_mode == LiteMode::Normal && key == Key::Char(' ') {
                    self.pending_key = Some(' ');
                    return LiteEffect::Nothing;
                }
            },
        }
        self.dispatch(key)
    }

    /// The text of cell `index` came back from the external editor.
    pub fn edited(&mut self, index: usize, content: String)
        ensures
            index < old(self).cells@.len() ==> final(self).cells@ == old(self).cells@.update(
                index as int,
                Cell { content: content, ..old(self).cells@[index as int] },
            ),
            index >= old(self).cells@.len() ==> final(self).cells == old(self).cells,
            *final(self) == (LiteApp { cells: final(self).cells, ..*old(self) }),
    {
        if index < self.cells.len() {
            self.set_content(index, content);
        }
    }

    /// The text of cell `index`, just given its language, came back from
    /// the external editor: it becomes the cell's text, in normal mode.
    pub fn fresh_done(&mut self, index: usize, content: String)
        ensures
            index < old(self).cells@.len() ==> final(self).cells@ == old(self).cells@.update(
                index as int,
                Cell { content: content, ..old(self).cells@[index as int] },
            ),
            index >= old(self).cells@.len() ==> final(self).cells == old(self).cells,
            *final(self) == (LiteApp {
                cells: final(self).cells,
                input_mode: LiteMode::Normal,
                ..*old(self)
            }),
    {
        if index < self.cells.len() {
            self.set_content(index, content);
        }
        self.input_mode = LiteMode::Normal;
    }
}

proof fn lemma_no_lite_context(cells: Seq<Cell>, k: CellType, n: int)
    requires
        run_lang(k) is None,
    ensures
        lite_context(cells, k, n) =~= Seq::<char>::empty(),
    decreases n,
{
    if n > 0 {
        lemma_no_lite_context(cells, k, n - 1);
    }
}

proof fn lemma_newt_entries_files(paths: Seq<String>)
    ensures
        forall|x: Entry| newt_entries(paths).contains(x) ==> !x.1,
    decreases paths.len(),
{
    if paths.len() > 0 {
        lemma_newt_entries_files(paths.drop_last());
        let prev = newt_entries(paths.drop_last());
        assert forall|x: Entry| newt_entries(paths).contains(x) implies !x.1 by {
            let s = newt_entries(paths);
            let j = choose|j: int| 0 <= j < s.len() && s[j] == x;
            if j < prev.len() {
                assert(prev[j] == x);
                assert(prev.contains(x));
            }
        }
    }
}

} // verus!
