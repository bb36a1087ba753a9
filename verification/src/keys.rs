//! What each key does to the editor. A key changes the state and may ask
//! for outside work (running a cell, saving, opening the external editor),
//! which is returned as an `Effect` for the caller to perform.
use vstd::prelude::*;
use crate::notebook::{Cell, CellType};
use crate::numparse::{parse_unsigned, parse_u64, parse_u8, parse_usize};
use crate::paths::{file_name, file_name_of, with_md, with_md_of};
use crate::state::Color;
use crate::search::SearchState;
use crate::cursor::{
    boundary_index, byte_offset, lemma_byte_len, lemma_offset_monotonic, on_boundary, total_width,
    utf8_width, utf8_width_of,
};
use crate::ids::new_cell_id;
use crate::state::{
    App, Focus, InputMode, appended, deleted, editor_hits, first_path_from, inserted, num_set,
    searched, sidebar_hits, text_set, run_lang,
};
use crate::text::{
    chars_of, decimal, decimal_of, equals_str, is_blank, push_all, push_str, slice_of, starts_with,
    starts_with_str, string_of, trim, trimmed, without_last,
};

verus! {

/// A key press.
#[derive(Clone, Copy, PartialEq, Eq, Structural, Debug)]
pub enum Key {
    Char(char),
    Enter,
    Esc,
    Backspace,
    Delete,
    Left,
    Right,
    Up,
    Down,
    Home,
    End,
    Other,
}

/// What was put on the clipboard.
#[derive(Clone, Copy, PartialEq, Eq, Structural, Debug)]
pub enum Yank {
    Cell,
    Output,
}

/// Outside work a key asks for.
pub enum Effect {
    Nothing,
    /// Leave the editor.
    Quit,
    /// Read the file tree of the sidebar again.
    RefreshFiles,
    /// Open the file: a notebook is loaded (`App::open_loaded`), any other
    /// file goes to the external editor.
    OpenPath(String),
    /// Copy the yanked file next to itself under the first free copy name.
    PasteFile(String),
    /// Put the text on the system clipboard (`App::report_yank` tells how it
    /// went).
    CopyText(String, Yank),
    /// Edit cell `index` in the external editor; the text that comes back
    /// goes to `App::handle_editor_result`.
    EditCell(usize),
    /// Show the output of cell `index` in the external editor; what comes
    /// back is dropped.
    ViewOutput(usize),
    /// Edit cell `index`, just given its language, in the external editor;
    /// the text that comes back goes to `App::fresh_edit_done`.
    EditFresh(usize),
    /// Send cell `index` to the server.
    Run(usize),
    /// Send these cells to the server, one after the other.
    RunAll(Vec<usize>),
    /// Run the command with the terminal handed over to it.
    Interactive(String),
    /// Start the command in a terminal window of its own.
    SpawnTerminal(String),
    /// Start this python code in a terminal window of its own.
    SpawnPython(String),
    /// Save the notebook where it belongs (or under a fresh name).
    Save,
    /// Save the notebook, then leave.
    SaveQuit,
    /// Save under this name, in the application directory when the flag is
    /// set and in the working directory otherwise; an existing file is only
    /// overwritten after `App::confirm_overwrite`.
    SaveAs(String, bool),
    /// Save in the application directory under this file name.
    SaveToAppDir(String),
    /// Save to this path, which the user agreed to overwrite.
    Overwrite(String),
    /// Store the settings (`App::config_to_save`).
    SaveConfig,
    /// Export the notebook through the server next to this path.
    Export(String),
    /// Give the file at the first path the name in the second.
    Rename(String, String),
    /// Delete the file.
    DeleteFile(String),
    /// Hand this text to the program waiting for input.
    SubmitInput(String),
}

pub open spec fn is_digit_key(c: char) -> bool {
    '0' <= c && c <= '9'
}

/// The count typed before a motion after one more digit, capped at 9999.
pub open spec fn prefix_after(p: Option<usize>, c: char) -> usize {
    let v = (match p {
        Some(x) => x as int,
        None => 0int,
    }) * 10 + ((c as u32) - ('0' as u32));
    if v > 9999 {
        9999usize
    } else {
        v as usize
    }
}

/// The count of a motion: the typed count, 1 when none was typed.
pub open spec fn count_of(p: Option<usize>) -> int {
    match p {
        Some(c) => c as int,
        None => 1,
    }
}

/// The last index of a list of `n` entries (0 for an empty list).
pub open spec fn last_index(n: int) -> int {
    if n == 0 {
        0
    } else {
        n - 1
    }
}

/// The position `count` lines further down, stopping at the last line.
pub open spec fn down(i: usize, count: int, n: int) -> usize {
    if i + count > last_index(n) {
        last_index(n) as usize
    } else {
        (i + count) as usize
    }
}

/// The position `count` lines further up, stopping at the first line.
pub open spec fn up(i: usize, count: int) -> usize {
    if i - count < 0 {
        0usize
    } else {
        (i - count) as usize
    }
}

/// The line a `G` goes to: the counted line, or the last.
pub open spec fn goto_line(p: Option<usize>, n: int) -> usize {
    match p {
        Some(c) => {
            let t = if c == 0 {
                0
            } else {
                c - 1
            };
            if t > last_index(n) {
                last_index(n) as usize
            } else {
                t as usize
            }
        },
        None => last_index(n) as usize,
    }
}

/// A search that was cleared.
pub open spec fn cleared(s0: SearchState, s1: SearchState) -> bool {
    s1.query@.len() == 0 && s1.matches@.len() == 0 && s1.current_match is None && s1.is_smart_case
        == s0.is_smart_case
}

/// The match after the current one, wrapping around.
pub open spec fn next_match(s: SearchState) -> usize {
    ((s.current_match.unwrap() + 1) % (s.matches@.len() as int)) as usize
}

/// The match before the current one, wrapping around.
pub open spec fn prev_match(s: SearchState) -> usize {
    if s.current_match.unwrap() == 0 {
        (s.matches@.len() - 1) as usize
    } else {
        (s.current_match.unwrap() - 1) as usize
    }
}

/// The sidebar line that shows entry `m` (line 0 is "new notebook").
pub open spec fn line_of(m: usize, current: Option<usize>) -> Option<usize> {
    if m < usize::MAX {
        Some((m + 1) as usize)
    } else {
        current
    }
}

/// The selected sidebar entry other than "new notebook", when it exists
/// and is not a header.
pub open spec fn picked(a: App) -> Option<int> {
    match a.file_selected {
        Some(i) => if i > 0 && i - 1 < a.available_files@.len() && !a.available_files@[i
            - 1].is_header {
            Some(i - 1)
        } else {
            None
        },
        None => None,
    }
}

/// The effect of a change to the sidebar's tree: read it again, or nothing.
pub open spec fn refresh_if(b: bool) -> Effect {
    if b {
        Effect::RefreshFiles
    } else {
        Effect::Nothing
    }
}

/// `App::toggle_directory` on entry `idx`.
pub open spec fn toggled(o: App, n: App, idx: int, refresh: bool) -> bool {
    &&& refresh <==> (o.available_files@[idx].is_directory && o.available_files@[idx].path is Some)
    &&& refresh ==> {
        let p = o.available_files@[idx].path.unwrap()@;
        text_set(n.expanded_dirs@) == (if text_set(o.expanded_dirs@).contains(p) {
            text_set(o.expanded_dirs@).remove(p)
        } else {
            text_set(o.expanded_dirs@).insert(p)
        })
    }
    &&& !refresh ==> n == o
    &&& n == (App { expanded_dirs: n.expanded_dirs, ..o })
}

/// `App::collapse_directory` on entry `idx`.
pub open spec fn collapsed(o: App, n: App, idx: int, refresh: bool) -> bool {
    let item = o.available_files@[idx];
    if item.is_directory && item.is_expanded && item.path is Some {
        &&& refresh
        &&& text_set(n.expanded_dirs@) == text_set(o.expanded_dirs@).remove(item.path.unwrap()@)
        &&& n == (App { expanded_dirs: n.expanded_dirs, ..o })
    } else if !item.is_directory && item.depth > 0 && item.parent_path is Some {
        &&& !refresh
        &&& n == (App {
            file_selected: match first_path_from(o.available_files@, item.parent_path.unwrap()@, 0) {
                Some(j) => Some(j as usize),
                None => o.file_selected,
            },
            ..o
        })
    } else {
        !refresh && n == o
    }
}

/// `App::expand_directory` on entry `idx`.
pub open spec fn expanded(o: App, n: App, idx: int, refresh: bool) -> bool {
    &&& refresh <==> (o.available_files@[idx].is_directory && !o.available_files@[idx].is_expanded
        && o.available_files@[idx].path is Some)
    &&& refresh ==> text_set(n.expanded_dirs@) == text_set(o.expanded_dirs@).insert(
        o.available_files@[idx].path.unwrap()@,
    )
    &&& !refresh ==> n == o
    &&& n == (App { expanded_dirs: n.expanded_dirs, ..o })
}

/// What a key does in the sidebar in normal mode.
pub open spec fn sidebar_post(o: App, n: App, key: Key, e: Effect) -> bool {
    let files = o.available_files@;
    let len = files.len() as int;
    if key == Key::Char('q') {
        n == o && e == Effect::Quit
    } else if key is Char && is_digit_key(key->0) {
        e == Effect::Nothing && if key->0 == '0' && o.numeric_prefix is None {
            n == (App { file_selected: Some(0usize), ..o })
        } else {
            n == (App { numeric_prefix: Some(prefix_after(o.numeric_prefix, key->0)), ..o })
        }
    } else if key == Key::Char('j') || key == Key::Down {
        e == Effect::Nothing && n == (App {
            file_selected: match o.file_selected {
                Some(i) => Some(down(i, count_of(o.numeric_prefix), len)),
                None => None,
            },
            numeric_prefix: None,
            ..o
        })
    } else if key == Key::Char('k') || key == Key::Up {
        e == Effect::Nothing && n == (App {
            file_selected: match o.file_selected {
                Some(i) => Some(up(i, count_of(o.numeric_prefix))),
                None => None,
            },
            numeric_prefix: None,
            ..o
        })
    } else if key == Key::Char('G') {
        e == Effect::Nothing && n == (App {
            file_selected: Some(goto_line(o.numeric_prefix, len)),
            numeric_prefix: None,
            ..o
        })
    } else if key == Key::Enter {
        match o.file_selected {
            None => n == o && e == Effect::Nothing,
            Some(i) => if i == 0 {
                &&& e == Effect::Nothing
                &&& n.cells@.len() == 1
                &&& n.cells@[0].cell_type == CellType::Shell
                &&& n.cells@[0].content@.len() == 0
                &&& n.cells@[0].output@.len() == 0
                &&& n.cells@[0].polling_interval is None
                &&& n.cells@[0].last_run is None
                &&& n.input@.len() == 0
                &&& n == (App {
                    cells: n.cells,
                    input: n.input,
                    selected: Some(0usize),
                    shell_cursor: 0,
                    input_mode: InputMode::Normal,
                    dirty: true,
                    file_path: None,
                    focus: Focus::Editor,
                    ..o
                })
            } else if i - 1 >= len {
                n == o && e == Effect::Nothing
            } else if files[i - 1].is_directory {
                exists|r: bool| toggled(o, n, i - 1, r) && e == refresh_if(r)
            } else if files[i - 1].is_header {
                n == o && e == Effect::Nothing
            } else {
                n == o && e == match files[i - 1].path {
                    Some(p) => Effect::OpenPath(p),
                    None => Effect::Nothing,
                }
            },
        }
    } else if key == Key::Char('h') || key == Key::Left {
        match o.file_selected {
            Some(i) => if i > 0 && i - 1 < len {
                exists|r: bool| collapsed(o, n, i - 1, r) && e == refresh_if(r)
            } else {
                n == o && e == Effect::Nothing
            },
            None => n == o && e == Effect::Nothing,
        }
    } else if key == Key::Char('l') || key == Key::Right {
        match o.file_selected {
            Some(i) => if i > 0 && i - 1 < len && files[i - 1].is_directory {
                exists|r: bool| expanded(o, n, i - 1, r) && e == refresh_if(r)
            } else {
                n == o && e == Effect::Nothing
            },
            None => n == o && e == Effect::Nothing,
        }
    } else if key == Key::Char('r') {
        e == Effect::Nothing && match picked(o) {
            Some(j) => match files[j].path {
                Some(p) => n.rename_input@ == file_name(p@) && n == (App {
                    rename_input: n.rename_input,
                    input_mode: InputMode::Renaming,
                    ..o
                }),
                None => n == o,
            },
            None => n == o,
        }
    } else if key == Key::Char('d') {
        e == Effect::Nothing && match picked(o) {
            Some(j) => match files[j].path {
                Some(p) => n.command_input@ == "Remove "@ + p@ + "? y/N: "@ && n == (App {
                    file_to_delete: Some(p),
                    input_mode: InputMode::ConfirmDelete,
                    command_input: n.command_input,
                    ..o
                }),
                None => n == o,
            },
            None => n == o,
        }
    } else if key == Key::Char('y') {
        e == Effect::Nothing && match picked(o) {
            Some(j) => match files[j].path {
                Some(p) => n.status_message matches Some(m) && m@ == "Yanked "@ + p@ && n == (App {
                    clipboard_file: Some(p),
                    status_message: n.status_message,
                    ..o
                }),
                None => n == o,
            },
            None => n == o,
        }
    } else if key == Key::Char('p') {
        n == o && e == match o.clipboard_file {
            Some(p) => Effect::PasteFile(p),
            None => Effect::Nothing,
        }
    } else if key == Key::Char('/') {
        e == Effect::Nothing && cleared(o.sidebar_search, n.sidebar_search) && n == (App {
            input_mode: InputMode::SearchSidebar,
            sidebar_search: n.sidebar_search,
            ..o
        })
    } else if key == Key::Char('n') || key == Key::Char('N') {
        let s = o.sidebar_search;
        e == Effect::Nothing && if s.current_match is Some && s.matches@.len() > 0 {
            let k = if key == Key::Char('n') {
                next_match(s)
            } else {
                prev_match(s)
            };
            n == (App {
                sidebar_search: SearchState { current_match: Some(k), ..s },
                file_selected: if k < s.matches@.len() {
                    line_of(s.matches@[k as int], o.file_selected)
                } else {
                    o.file_selected
                },
                ..o
            })
        } else {
            n == o
        }
    } else if key == Key::Char(':') {
        &&& e == Effect::Nothing
        &&& n.command_input@.len() == 0
        &&& cleared(o.sidebar_search, n.sidebar_search)
        &&& cleared(o.editor_search, n.editor_search)
        &&& n == (App {
            input_mode: InputMode::Command,
            command_input: n.command_input,
            sidebar_search: n.sidebar_search,
            editor_search: n.editor_search,
            ..o
        })
    } else {
        n == o && e == Effect::Nothing
    }
}

impl App {
    fn digit_prefix(&self, c: char) -> (r: usize)
        requires
            is_digit_key(c),
        ensures
            r == prefix_after(self.numeric_prefix, c),
    {
        let d: usize = ((c as u32) - ('0' as u32)) as usize;
        let p: usize = match self.numeric_prefix {
            Some(x) => x,
            None => 0,
        };
        if p > 999 {
            9999
        } else {
            let v = p * 10 + d;
            if v > 9999 {
                9999
            } else {
                v
            }
        }
    }

    fn count(&self) -> (r: usize)
        ensures
            r == count_of(self.numeric_prefix),
    {
        match self.numeric_prefix {
            Some(c) => c,
            None => 1,
        }
    }

    /// What a key does in the sidebar in normal mode.
    pub fn sidebar_key(&mut self, key: Key) -> (e: Effect)
        ensures
            sidebar_post(*old(self), *final(self), key, e),
    {
        match key {
            Key::Char('q') => Effect::Quit,
            Key::Enter => self.sidebar_enter(),
            Key::Char('h') | Key::Left => self.sidebar_collapse(key),
            Key::Char('l') | Key::Right => self.sidebar_expand(key),
            Key::Char('r') | Key::Char('d') | Key::Char('y') => self.sidebar_entry_key(key),
            Key::Char('n') | Key::Char('N') => self.sidebar_next_match(key),
            Key::Char('p') => match &self.clipboard_file {
                Some(p) => Effect::PasteFile(p.clone()),
                None => Effect::Nothing,
            },
            Key::Char('/') => {
                self.input_mode = InputMode::SearchSidebar;
                self.sidebar_search.clear();
                Effect::Nothing
            },
            Key::Char(':') => {
                self.input_mode = InputMode::Command;
                self.command_input = String::new();
                self.sidebar_search.clear();
                self.editor_search.clear();
                Effect::Nothing
            },
            _ => self.sidebar_motion(key),
        }
    }

    fn sidebar_motion(&mut self, key: Key) -> (e: Effect)
        requires
            !(key == Key::Char('q') || key == Key::Enter || key == Key::Char('h') || key == Key::Left
                || key == Key::Char('l') || key == Key::Right || key == Key::Char('r') || key
                == Key::Char('d') || key == Key::Char('y') || key == Key::Char('n') || key
                == Key::Char('N') || key == Key::Char('p') || key == Key::Char('/') || key
                == Key::Char(':')),
        ensures
            sidebar_post(*old(self), *final(self), key, e),
    {
        let len = self.available_files.len();
        let last = if len == 0 {
            0
        } else {
            len - 1
        };
        match key {
            Key::Char(c) if '0' <= c && c <= '9' => {
                if c == '0' && self.numeric_prefix.is_none() {
                    self.file_selected = Some(0);
                } else {
                    self.numeric_prefix = Some(self.digit_prefix(c));
                }
                Effect::Nothing
            },
            Key::Char('j') | Key::Down => {
                let count = self.count();
                if let Some(i) = self.file_selected {
                    let np = if count > last || i > last - count {
                        last
                    } else {
                        i + count
                    };
                    self.file_selected = Some(np);
                }
                self.numeric_prefix = None;
                Effect::Nothing
            },
            Key::Char('k') | Key::Up => {
                let count = self.count();
                if let Some(i) = self.file_selected {
                    self.file_selected = Some(
                        if i < count {
                            0
                        } else {
                            i - count
                        },
                    );
                }
                self.numeric_prefix = None;
                Effect::Nothing
            },
            Key::Char('G') => {
                let target = match self.numeric_prefix {
                    Some(c) => {
                        let t = if c == 0 {
                            0
                        } else {
                            c - 1
                        };
                        if t > last {
                            last
                        } else {
                            t
                        }
                    },
                    None => last,
                };
                self.file_selected = Some(target);
                self.numeric_prefix = None;
                Effect::Nothing
            },
            _ => Effect::Nothing,
        }
    }

    fn sidebar_collapse(&mut self, key: Key) -> (e: Effect)
        requires
            key == Key::Char('h') || key == Key::Left,
        ensures
            sidebar_post(*old(self), *final(self), key, e),
    {
        if let Some(i) = self.file_selected {
            if i > 0 && i - 1 < self.available_files.len() {
                let r = self.collapse_directory(i - 1);
                assert(collapsed(*old(self), *self, i - 1, r));
                let e = if r {
                    Effect::RefreshFiles
                } else {
                    Effect::Nothing
                };
                assert(e == refresh_if(r));
                return e;
            }
        }
        Effect::Nothing
    }

    fn sidebar_expand(&mut self, key: Key) -> (e: Effect)
        requires
            key == Key::Char('l') || key == Key::Right,
        ensures
            sidebar_post(*old(self), *final(self), key, e),
    {
        if let Some(i) = self.file_selected {
            if i > 0 && i - 1 < self.available_files.len() && self.available_files[i - 1].is_directory {
                let r = self.expand_directory(i - 1);
                assert(expanded(*old(self), *self, i - 1, r));
                let e = if r {
                    Effect::RefreshFiles
                } else {
                    Effect::Nothing
                };
                assert(e == refresh_if(r));
                return e;
            }
        }
        Effect::Nothing
    }

    fn sidebar_entry_key(&mut self, key: Key) -> (e: Effect)
        requires
            key == Key::Char('r') || key == Key::Char('d') || key == Key::Char('y'),
        ensures
            sidebar_post(*old(self), *final(self), key, e),
    {
        if let Some(j) = self.picked_entry() {
            if let Some(p) = &self.available_files[j].path {
                let p = p.clone();
                if key == Key::Char('r') {
                    self.rename_input = file_name_of(p.as_str());
                    self.input_mode = InputMode::Renaming;
                } else if key == Key::Char('d') {
                    let mut m = chars_of("Remove ");
                    push_str(&mut m, p.as_str());
                    push_str(&mut m, "? y/N: ");
                    self.command_input = string_of(&m);
                    self.file_to_delete = Some(p);
                    self.input_mode = InputMode::ConfirmDelete;
                } else {
                    let mut m = chars_of("Yanked ");
                    push_str(&mut m, p.as_str());
                    self.status_message = Some(string_of(&m));
                    self.clipboard_file = Some(p);
                }
            }
        }
        Effect::Nothing
    }

    fn sidebar_next_match(&mut self, key: Key) -> (e: Effect)
        requires
            key == Key::Char('n') || key == Key::Char('N'),
        ensures
            sidebar_post(*old(self), *final(self), key, e),
    {
        let forward = key == Key::Char('n');
        if let Some(cur) = self.sidebar_search.current_match {
            let m = self.sidebar_search.matches.len();
            if m > 0 {
                let k = if forward {
                    (cur % m + 1) % m
                } else if cur == 0 {
                    m - 1
                } else {
                    cur - 1
                };
                proof {
                    if forward {
                        assert(((cur as int) % (m as int) + 1) % (m as int) == (cur as int + 1) % (
                        m as int)) by (nonlinear_arith)
                            requires
                                m > 0,
                        ;
                    }
                }
                self.sidebar_search.current_match = Some(k);
                if k < m {
                    let idx = self.sidebar_search.matches[k];
                    if idx < usize::MAX {
                        self.file_selected = Some(idx + 1);
                    }
                }
            }
        }
        Effect::Nothing
    }

    /// The selected sidebar entry other than "new notebook", when it exists
    /// and is not a header.
    fn picked_entry(&self) -> (r: Option<usize>)
        ensures
            match picked(*self) {
                Some(j) => r == Some(j as usize),
                None => r is None,
            },
    {
        match self.file_selected {
            Some(i) => if i > 0 && i - 1 < self.available_files.len()
                && !self.available_files[i - 1].is_header {
                Some(i - 1)
            } else {
                None
            },
            None => None,
        }
    }

    fn sidebar_enter(&mut self) -> (e: Effect)
        ensures
            sidebar_post(*old(self), *final(self), Key::Enter, e),
    {
        match self.file_selected {
            None => Effect::Nothing,
            Some(i) => {
                if i == 0 {
                    self.new_notebook();
                    Effect::Nothing
                } else if i - 1 >= self.available_files.len() {
                    Effect::Nothing
                } else if self.available_files[i - 1].is_directory {
                    let r = self.toggle_directory(i - 1);
                    assert(toggled(*old(self), *self, i - 1, r));
                    let e = if r {
                        Effect::RefreshFiles
                    } else {
                        Effect::Nothing
                    };
                    assert(e == refresh_if(r));
                    e
                } else if self.available_files[i - 1].is_header {
                    Effect::Nothing
                } else {
                    match &self.available_files[i - 1].path {
                        Some(p) => Effect::OpenPath(p.clone()),
                        None => Effect::Nothing,
                    }
                }
            },
        }
    }

    /// "New notebook": one empty shell cell, no file, normal mode, the keys
    /// back in the editor.
    fn new_notebook(&mut self)
        requires
            old(self).file_selected == Some(0usize),
        ensures
            sidebar_post(*old(self), *final(self), Key::Enter, Effect::Nothing),
    {
        self.cells = Vec::new();
        self.add_cell(CellType::Shell);
        assert(self.cells@.len() == 1);
        assert(self.cells@[0] == self.cells@.last());
        self.file_path = None;
        self.input_mode = InputMode::Normal;
        self.selected = Some(0);
        self.focus = Focus::Editor;
    }
}

/// The selected cell, when it exists.
pub open spec fn cur_cell(a: App) -> Option<int> {
    match a.selected {
        Some(i) => if i < a.cells@.len() {
            Some(i as int)
        } else {
            None
        },
        None => None,
    }
}

/// A shell line that starts a full-screen program.
pub open spec fn interactive_cmd(s: Seq<char>) -> bool {
    starts_with(trim(s), "vi"@) || starts_with(trim(s), "vim"@) || starts_with(trim(s), "nano"@)
}

/// The byte length of a text.
pub open spec fn byte_len(s: Seq<char>) -> nat {
    vstd::utf8::encode_utf8(s).len()
}

/// Enter on the selected cell in normal mode.
pub open spec fn editor_enter_post(o: App, n: App, e: Effect) -> bool {
    let o1 = App { pending_delete: false, ..o };
    let len = o.cells@.len();
    match o.selected {
        None => n == o1 && e == Effect::Nothing,
        Some(i) => if i >= len {
            n == o1 && e == Effect::Nothing
        } else {
            let c = o.cells@[i as int];
            if c.cell_type == CellType::Markdown {
                n == o1 && e == Effect::EditCell(i)
            } else if num_set(o.running_cells@).contains(i) {
                &&& num_set(n.running_cells@) == num_set(o.running_cells@).remove(i)
                &&& n == (App { running_cells: n.running_cells, ..o1 })
                &&& e == if c.cell_type == CellType::Python {
                    Effect::SpawnPython(c.content)
                } else {
                    Effect::SpawnTerminal(c.content)
                }
            } else if c.cell_type == CellType::Shell && interactive_cmd(c.content@) {
                n == o1 && e == Effect::Interactive(c.content)
            } else {
                &&& num_set(n.running_cells@) == num_set(o.running_cells@).insert(i)
                &&& n == (App { running_cells: n.running_cells, ..o1 })
                &&& e == Effect::Run(i)
            }
        },
    }
}

/// What a key does to the cells in normal mode.
pub open spec fn editor_post(o: App, n: App, key: Key, e: Effect) -> bool {
    let len = o.cells@.len() as int;
    let cur = cur_cell(o);
    if key == Key::Char('y') || key == Key::Char('Y') {
        match cur {
            Some(i) => if key == Key::Char('y') {
                n == (App { clipboard_cell: Some(o.cells@[i]), ..o }) && e == Effect::CopyText(
                    o.cells@[i].content,
                    Yank::Cell,
                )
            } else {
                n == (App { clipboard_output: Some(o.cells@[i].output), ..o }) && e
                    == Effect::CopyText(o.cells@[i].output, Yank::Output)
            },
            None => n == o && e == Effect::Nothing,
        }
    } else if key == Key::Char('p') || key == Key::Char('P') {
        e == Effect::Nothing && match (o.clipboard_cell, cur) {
            (Some(c), Some(i)) => {
                let at = if key == Key::Char('p') {
                    i + 1
                } else {
                    i
                };
                &&& n.cells@ == o.cells@.insert(at, n.cells@[at])
                &&& n.cells@[at] == (Cell { id: n.cells@[at].id, ..c })
                &&& n.status_message matches Some(m) && m@ == (if key == Key::Char('p') {
                    "Cell pasted"@
                } else {
                    "Cell pasted above"@
                })
                &&& n == (App { cells: n.cells, status_message: n.status_message, dirty: true, ..o })
            },
            _ => n == o,
        }
    } else if key == Key::Char('/') {
        e == Effect::Nothing && cleared(o.editor_search, n.editor_search) && n == (App {
            input_mode: InputMode::SearchEditor,
            editor_search: n.editor_search,
            ..o
        })
    } else if key == Key::Char('n') || key == Key::Char('N') {
        let s = o.editor_search;
        e == Effect::Nothing && if s.current_match is Some && s.matches@.len() > 0 {
            let k = if key == Key::Char('n') {
                next_match(s)
            } else {
                prev_match(s)
            };
            n == (App {
                editor_search: SearchState { current_match: Some(k), ..s },
                selected: if k < s.matches@.len() {
                    Some(s.matches@[k as int])
                } else {
                    o.selected
                },
                ..o
            })
        } else {
            n == o
        }
    } else if key == Key::Char(':') {
        &&& e == Effect::Nothing
        &&& n.command_input@.len() == 0
        &&& cleared(o.sidebar_search, n.sidebar_search)
        &&& cleared(o.editor_search, n.editor_search)
        &&& n == (App {
            input_mode: InputMode::Command,
            command_input: n.command_input,
            sidebar_search: n.sidebar_search,
            editor_search: n.editor_search,
            ..o
        })
    } else if key is Char && is_digit_key(key->0) {
        e == Effect::Nothing && if key->0 == '0' && o.numeric_prefix is None {
            n == (App { selected: Some(0usize), ..o })
        } else {
            n == (App { numeric_prefix: Some(prefix_after(o.numeric_prefix, key->0)), ..o })
        }
    } else if key == Key::Char('j') {
        e == Effect::Nothing && n == (App {
            selected: match o.selected {
                Some(i) => Some(down(i, count_of(o.numeric_prefix), len)),
                None => None,
            },
            numeric_prefix: None,
            ..o
        })
    } else if key == Key::Char('k') {
        e == Effect::Nothing && n == (App {
            selected: match o.selected {
                Some(i) => Some(up(i, count_of(o.numeric_prefix))),
                None => None,
            },
            numeric_prefix: None,
            ..o
        })
    } else if key == Key::Char('G') {
        e == Effect::Nothing && n == (App {
            selected: Some(goto_line(o.numeric_prefix, len)),
            numeric_prefix: None,
            ..o
        })
    } else if key == Key::Char('o') || key == Key::Char('O') {
        e == Effect::Nothing && match cur {
            Some(i) => inserted(
                o,
                n,
                if key == Key::Char('o') {
                    i + 1
                } else {
                    i
                },
                o.cells@[i].cell_type,
            ),
            None => n == o,
        }
    } else if key == Key::Char('d') {
        e == Effect::Nothing && deleted(App { pending_delete: false, ..o }, n)
    } else if key == Key::Char('r') {
        e == Effect::Nothing && n.polling_input@ == seq!['r'] && n == (App {
            input_mode: InputMode::Polling,
            polling_input: n.polling_input,
            ..o
        })
    } else if key == Key::Char('f') {
        n == (App { pending_delete: false, ..o }) && e == match cur {
            Some(i) => Effect::EditCell(i as usize),
            None => Effect::Nothing,
        }
    } else if key == Key::Char('i') {
        let o1 = App { pending_delete: false, ..o };
        match cur {
            Some(i) => if o.cells@[i].cell_type == CellType::Shell {
                e == Effect::Nothing && n == (App {
                    shell_cursor: byte_len(o.cells@[i].content@) as usize,
                    input_mode: InputMode::Editing,
                    ..o1
                })
            } else {
                n == o1 && e == Effect::EditCell(i as usize)
            },
            None => n == o1 && e == Effect::Nothing,
        }
    } else if key == Key::Char('I') {
        let o1 = App { pending_delete: false, ..o };
        match cur {
            Some(i) => {
                &&& e == Effect::ViewOutput(i as usize)
                &&& n.status_message matches Some(m) && m@ == "Output viewed (changes discarded)"@
                &&& n == (App { status_message: n.status_message, ..o1 })
            },
            None => n == o1 && e == Effect::Nothing,
        }
    } else if key == Key::Enter {
        editor_enter_post(o, n, e)
    } else {
        n == (App { pending_delete: false, ..o }) && e == Effect::Nothing
    }
}

impl App {
    /// What a key does to the cells in normal mode.
    pub fn editor_key(&mut self, key: Key) -> (e: Effect)
        ensures
            editor_post(*old(self), *final(self), key, e),
    {
        match key {
            Key::Char('y') | Key::Char('Y') => self.editor_yank(key),
            Key::Char('p') | Key::Char('P') => self.editor_paste(key),
            Key::Char('/') => {
                self.input_mode = InputMode::SearchEditor;
                self.editor_search.clear();
                Effect::Nothing
            },
            Key::Char('n') | Key::Char('N') => self.editor_next_match(key),
            Key::Char(':') => {
                self.input_mode = InputMode::Command;
                self.command_input = String::new();
                self.sidebar_search.clear();
                self.editor_search.clear();
                Effect::Nothing
            },
            Key::Char('o') | Key::Char('O') => {
                if let Some(i) = self.current_cell() {
                    let _n = self.cells.len();
                    let k = self.cells[i].cell_type;
                    let at = if key == Key::Char('o') {
                        i + 1
                    } else {
                        i
                    };
                    self.insert_cell(at, k);
                }
                Effect::Nothing
            },
            Key::Char('d') => {
                self.pending_delete = false;
                self.delete_current_cell();
                Effect::Nothing
            },
            Key::Char('r') => {
                self.input_mode = InputMode::Polling;
                let mut r = String::new();
                r.push('r');
                self.polling_input = r;
                Effect::Nothing
            },
            Key::Char('f') => {
                self.pending_delete = false;
                match self.current_cell() {
                    Some(i) => Effect::EditCell(i),
                    None => Effect::Nothing,
                }
            },
            Key::Char('i') => {
                self.pending_delete = false;
                match self.current_cell() {
                    Some(i) => if self.cells[i].cell_type == CellType::Shell {
                        self.shell_cursor = self.cells[i].content.as_str().len();
                        self.input_mode = InputMode::Editing;
                        Effect::Nothing
                    } else {
                        Effect::EditCell(i)
                    },
                    None => Effect::Nothing,
                }
            },
            Key::Char('I') => {
                self.pending_delete = false;
                match self.current_cell() {
                    Some(i) => {
                        self.status_message = Some("Output viewed (changes discarded)".to_owned());
                        Effect::ViewOutput(i)
                    },
                    None => Effect::Nothing,
                }
            },
            Key::Enter => self.editor_enter(),
            _ => self.editor_motion(key),
        }
    }

    fn editor_yank(&mut self, key: Key) -> (e: Effect)
        requires
            key == Key::Char('y') || key == Key::Char('Y'),
        ensures
            editor_post(*old(self), *final(self), key, e),
    {
        match self.current_cell() {
            Some(i) => if key == Key::Char('y') {
                let c = self.cells[i].duplicate();
                let text = self.cells[i].content.clone();
                self.clipboard_cell = Some(c);
                Effect::CopyText(text, Yank::Cell)
            } else {
                let text = self.cells[i].output.clone();
                self.clipboard_output = Some(self.cells[i].output.clone());
                Effect::CopyText(text, Yank::Output)
            },
            None => Effect::Nothing,
        }
    }

    fn editor_paste(&mut self, key: Key) -> (e: Effect)
        requires
            key == Key::Char('p') || key == Key::Char('P'),
        ensures
            editor_post(*old(self), *final(self), key, e),
    {
        let cur = self.current_cell();
        match (&self.clipboard_cell, cur) {
            (Some(c), Some(i)) => {
                let _n = self.cells.len();
                let mut nc = c.duplicate();
                nc.id = new_cell_id();
                let at = if key == Key::Char('p') {
                    i + 1
                } else {
                    i
                };
                self.cells.insert(at, nc);
                self.status_message = Some(
                    if key == Key::Char('p') {
                        "Cell pasted".to_owned()
                    } else {
                        "Cell pasted above".to_owned()
                    },
                );
                self.dirty = true;
                Effect::Nothing
            },
            _ => Effect::Nothing,
        }
    }

    fn editor_next_match(&mut self, key: Key) -> (e: Effect)
        requires
            key == Key::Char('n') || key == Key::Char('N'),
        ensures
            editor_post(*old(self), *final(self), key, e),
    {
        let forward = key == Key::Char('n');
        if let Some(cur) = self.editor_search.current_match {
            let m = self.editor_search.matches.len();
            if m > 0 {
                let k = if forward {
                    (cur % m + 1) % m
                } else if cur == 0 {
                    m - 1
                } else {
                    cur - 1
                };
                proof {
                    if forward {
                        assert(((cur as int) % (m as int) + 1) % (m as int) == (cur as int + 1) % (
                        m as int)) by (nonlinear_arith)
                            requires
                                m > 0,
                        ;
                    }
                }
                self.editor_search.current_match = Some(k);
                if k < m {
                    self.selected = Some(self.editor_search.matches[k]);
                }
            }
        }
        Effect::Nothing
    }

    fn editor_motion(&mut self, key: Key) -> (e: Effect)
        requires
            !(key == Key::Char('y') || key == Key::Char('Y') || key == Key::Char('p') || key
                == Key::Char('P') || key == Key::Char('/') || key == Key::Char('n') || key
                == Key::Char('N') || key == Key::Char(':') || key == Key::Char('o') || key
                == Key::Char('O') || key == Key::Char('d') || key == Key::Char('r') || key
                == Key::Char('f') || key == Key::Char('i') || key == Key::Char('I') || key
                == Key::Enter),
        ensures
            editor_post(*old(self), *final(self), key, e),
    {
        let len = self.cells.len();
        let last = if len == 0 {
            0
        } else {
            len - 1
        };
        match key {
            Key::Char(c) if '0' <= c && c <= '9' => {
                if c == '0' && self.numeric_prefix.is_none() {
                    self.selected = Some(0);
                } else {
                    self.numeric_prefix = Some(self.digit_prefix(c));
                }
                Effect::Nothing
            },
            Key::Char('j') => {
                let count = self.count();
                if let Some(i) = self.selected {
                    let np = if count > last || i > last - count {
                        last
                    } else {
                        i + count
                    };
                    self.selected = Some(np);
                }
                self.numeric_prefix = None;
                Effect::Nothing
            },
            Key::Char('k') => {
                let count = self.count();
                if let Some(i) = self.selected {
                    self.selected = Some(
                        if i < count {
                            0
                        } else {
                            i - count
                        },
                    );
                }
                self.numeric_prefix = None;
                Effect::Nothing
            },
            Key::Char('G') => {
                let target = match self.numeric_prefix {
                    Some(c) => {
                        let t = if c == 0 {
                            0
                        } else {
                            c - 1
                        };
                        if t > last {
                            last
                        } else {
                            t
                        }
                    },
                    None => last,
                };
                self.selected = Some(target);
                self.numeric_prefix = None;
                Effect::Nothing
            },
            _ => {
                self.pending_delete = false;
                Effect::Nothing
            },
        }
    }

    fn editor_enter(&mut self) -> (e: Effect)
        ensures
            editor_post(*old(self), *final(self), Key::Enter, e),
    {
        self.pending_delete = false;
        let i = match self.selected {
            Some(i) => i,
            None => return Effect::Nothing,
        };
        if i >= self.cells.len() {
            return Effect::Nothing;
        }
        let kind = self.cells[i].cell_type;
        if kind == CellType::Markdown {
            return Effect::EditCell(i);
        }
        if self.is_running(i) {
            self.unmark_running(i);
            let text = self.cells[i].content.clone();
            return if kind == CellType::Python {
                Effect::SpawnPython(text)
            } else {
                Effect::SpawnTerminal(text)
            };
        }
        if kind == CellType::Shell && is_interactive(&self.cells[i].content) {
            return Effect::Interactive(self.cells[i].content.clone());
        }
        self.mark_running(i);
        Effect::Run(i)
    }
}

/// Whether a shell line starts a full-screen program (`vi`, `vim`, `nano`).
pub fn is_interactive(s: &String) -> (b: bool)
    ensures
        b == interactive_cmd(s@),
{
    let t = trimmed(&chars_of(s.as_str()));
    starts_with_str(&t, "vi") || starts_with_str(&t, "vim") || starts_with_str(&t, "nano")
}

// ---------------------------------------------------------------------------
// Command line
// ---------------------------------------------------------------------------

/// Which kind of command line `cmd` is: save as (application directory,
/// then working directory), editor, colour, display mode, colorscheme, cell
/// number, or a word.
pub open spec fn cmd_branch(cmd: Seq<char>) -> int {
    if starts_with(cmd, "ww "@) {
        0
    } else if starts_with(cmd, "w "@) {
        1
    } else if starts_with(cmd, "editor "@) {
        2
    } else if starts_with(cmd, "color "@) {
        3
    } else if cmd == "compact"@ || cmd == "cozy"@ {
        4
    } else if starts_with(cmd, "colorscheme "@) {
        5
    } else if parse_unsigned(cmd, usize::MAX as nat) is Some {
        6
    } else {
        7
    }
}

/// Back to normal mode with the command line emptied.
pub open spec fn closed(o: App, n: App) -> bool {
    n.input_mode == InputMode::Normal && n.command_input@.len() == 0
}

/// The cell type a language command gives a cell.
pub open spec fn lang_command(w: Seq<char>) -> Option<CellType> {
    if w == "rust"@ {
        Some(CellType::Rust)
    } else if w == "cpp"@ {
        Some(CellType::Cpp)
    } else if w == "c"@ {
        Some(CellType::C)
    } else if w == "py"@ {
        Some(CellType::Python)
    } else if w == "ts"@ {
        Some(CellType::TypeScript)
    } else if w == "js"@ {
        Some(CellType::JavaScript)
    } else if w == "md"@ || w == "markdown"@ {
        Some(CellType::Markdown)
    } else if w == "sh"@ || w == "shell"@ {
        Some(CellType::Shell)
    } else {
        None
    }
}

/// The indices of the first `k` cells that can be run (all but markdown).
pub open spec fn runnable(cells: Seq<Cell>, k: int) -> Seq<usize>
    decreases k,
{
    if k <= 0 {
        Seq::<usize>::empty()
    } else {
        runnable(cells, k - 1) + (if cells[k - 1].cell_type != CellType::Markdown {
            seq![(k - 1) as usize]
        } else {
            Seq::<usize>::empty()
        })
    }
}

/// A notebook that was never saved and holds only blank cells.
pub open spec fn untitled_empty(a: App) -> bool {
    a.file_path is None && forall|j: int|
        0 <= j < a.cells@.len() ==> trim(#[trigger] a.cells@[j].content@).len() == 0
}

/// Enter on a command line that is a word.
pub open spec fn word_post(o: App, n: App, e: Effect) -> bool {
    let w = o.command_input@;
    if w == "q"@ {
        if o.dirty && !untitled_empty(o) {
            &&& e == Effect::Nothing
            &&& closed(o, n)
            &&& n.status_message matches Some(m) && m@ == "E37: No write since last change (add ! to override)"@
            &&& n == (App {
                input_mode: n.input_mode,
                command_input: n.command_input,
                status_message: n.status_message,
                ..o
            })
        } else {
            n == o && e == Effect::Quit
        }
    } else if w == "q!"@ {
        n == o && e == Effect::Quit
    } else if w == "wq"@ {
        n == o && e == Effect::SaveQuit
    } else {
        &&& closed(o, n)
        &&& if w == "w"@ {
            e == Effect::Save && n == (App {
                input_mode: n.input_mode,
                command_input: n.command_input,
                ..o
            })
        } else if w == "ww"@ {
            &&& e matches Effect::SaveToAppDir(name) && name@ == match o.file_path {
                Some(p) => file_name(p@),
                None => "notebook.md"@,
            }
            &&& n == (App { input_mode: n.input_mode, command_input: n.command_input, ..o })
        } else if w == "export"@ {
            &&& e == match o.file_path {
                Some(p) => Effect::Export(p),
                None => Effect::Nothing,
            }
            &&& n == (App { input_mode: n.input_mode, command_input: n.command_input, ..o })
        } else if w == "ra"@ || w == "runall"@ {
            &&& e matches Effect::RunAll(v) && v@ == runnable(o.cells@, o.cells@.len() as int)
            &&& num_set(n.running_cells@) == num_set(o.running_cells@).union(
                runnable(o.cells@, o.cells@.len() as int).to_set(),
            )
            &&& n == (App {
                input_mode: n.input_mode,
                command_input: n.command_input,
                running_cells: n.running_cells,
                ..o
            })
        } else if lang_command(w) is Some {
            &&& e == Effect::Nothing
            &&& match cur_cell(o) {
                Some(i) => n.cells@ == o.cells@.update(
                    i,
                    Cell { cell_type: lang_command(w).unwrap(), ..o.cells@[i] },
                ) && n == (App {
                    cells: n.cells,
                    dirty: true,
                    input_mode: n.input_mode,
                    command_input: n.command_input,
                    ..o
                }),
                None => n == (App {
                    input_mode: n.input_mode,
                    command_input: n.command_input,
                    ..o
                }),
            }
        } else {
            e == Effect::Nothing && n == (App {
                input_mode: n.input_mode,
                command_input: n.command_input,
                ..o
            })
        }
    }
}

/// A status message that reads `m`.
pub open spec fn says(n: App, m: Seq<char>) -> bool {
    n.status_message matches Some(s) && s@ == m
}

/// Enter on the command line.
pub open spec fn command_enter_post(o: App, n: App, e: Effect) -> bool {
    let cmd = o.command_input@;
    let b = cmd_branch(cmd);
    if b == 0 || b == 1 {
        let rest = trim(cmd.skip(if b == 0 { 3 } else { 2 }));
        if rest.len() > 0 {
            n == o && (e matches Effect::SaveAs(name, app_dir) && name@ == with_md(rest) && app_dir
                == (b == 0))
        } else {
            e == Effect::Nothing && closed(o, n) && n == (App {
                input_mode: n.input_mode,
                command_input: n.command_input,
                ..o
            })
        }
    } else if b == 2 {
        let ed = trim(cmd.skip(7));
        &&& closed(o, n)
        &&& if ed.len() > 0 {
            &&& e == Effect::SaveConfig
            &&& n.editor@ == ed
            &&& says(n, "Editor set to "@ + ed)
            &&& n == (App {
                editor: n.editor,
                status_message: n.status_message,
                input_mode: n.input_mode,
                command_input: n.command_input,
                ..o
            })
        } else {
            e == Effect::Nothing && n == (App {
                input_mode: n.input_mode,
                command_input: n.command_input,
                ..o
            })
        }
    } else if b == 3 {
        let arg = trim(cmd.skip(6));
        &&& closed(o, n)
        &&& match parse_unsigned(arg, 255) {
            Some(v) => {
                &&& e == Effect::SaveConfig
                &&& says(n, "Accent color set to "@ + decimal(v))
                &&& n == (App {
                    accent_color: Color::Indexed(v as u8),
                    status_message: n.status_message,
                    input_mode: n.input_mode,
                    command_input: n.command_input,
                    ..o
                })
            },
            None => {
                &&& e == Effect::Nothing
                &&& says(n, "Invalid color index"@)
                &&& n == (App {
                    status_message: n.status_message,
                    input_mode: n.input_mode,
                    command_input: n.command_input,
                    ..o
                })
            },
        }
    } else if b == 4 {
        &&& closed(o, n)
        &&& e == Effect::SaveConfig
        &&& n.display_mode@ == cmd
        &&& says(n, "Display mode set to "@ + cmd)
        &&& n == (App {
            display_mode: n.display_mode,
            status_message: n.status_message,
            input_mode: n.input_mode,
            command_input: n.command_input,
            ..o
        })
    } else if b == 5 {
        let scheme = trim(cmd.skip(12));
        &&& closed(o, n)
        &&& if scheme == "ansi"@ || scheme == "pastel"@ {
            &&& e == Effect::SaveConfig
            &&& n.colorscheme@ == scheme
            &&& says(n, "Colorscheme set to "@ + scheme)
            &&& n == (App {
                colorscheme: n.colorscheme,
                status_message: n.status_message,
                input_mode: n.input_mode,
                command_input: n.command_input,
                ..o
            })
        } else {
            &&& e == Effect::Nothing
            &&& says(n, "Invalid colorscheme. Use 'ansi' or 'pastel'"@)
            &&& n == (App {
                status_message: n.status_message,
                input_mode: n.input_mode,
                command_input: n.command_input,
                ..o
            })
        }
    } else if b == 6 {
        let k = parse_unsigned(cmd, usize::MAX as nat).unwrap();
        let len = o.cells@.len();
        &&& e == Effect::Nothing
        &&& closed(o, n)
        &&& if 0 < k <= len {
            says(n, "Jumped to cell "@ + decimal(k)) && n == (App {
                selected: Some((k - 1) as usize),
                status_message: n.status_message,
                input_mode: n.input_mode,
                command_input: n.command_input,
                ..o
            })
        } else {
            &&& says(
                n,
                if k == 0 {
                    "Invalid line number: must be >= 1"@
                } else {
                    "Invalid line number: only "@ + decimal(len) + " cells"@
                },
            )
            &&& n == (App {
                status_message: n.status_message,
                input_mode: n.input_mode,
                command_input: n.command_input,
                ..o
            })
        }
    } else {
        word_post(o, n, e)
    }
}

/// What a key does on the command line.
pub open spec fn command_post(o: App, n: App, key: Key, e: Effect) -> bool {
    if key == Key::Enter {
        command_enter_post(o, n, e)
    } else if key is Char {
        e == Effect::Nothing && n.command_input@ == o.command_input@.push(key->0) && n == (App {
            command_input: n.command_input,
            ..o
        })
    } else if key == Key::Backspace {
        e == Effect::Nothing && n.command_input@ == (if o.command_input@.len() > 0 {
            o.command_input@.drop_last()
        } else {
            o.command_input@
        }) && n == (App { command_input: n.command_input, ..o })
    } else if key == Key::Esc {
        e == Effect::Nothing && closed(o, n) && n == (App {
            input_mode: n.input_mode,
            command_input: n.command_input,
            ..o
        })
    } else {
        n == o && e == Effect::Nothing
    }
}

fn command_branch(cmd: &Vec<char>) -> (b: u8)
    ensures
        b == cmd_branch(cmd@),
{
    if starts_with_str(cmd, "ww ") {
        0
    } else if starts_with_str(cmd, "w ") {
        1
    } else if starts_with_str(cmd, "editor ") {
        2
    } else if starts_with_str(cmd, "color ") {
        3
    } else if equals_str(cmd, "compact") || equals_str(cmd, "cozy") {
        4
    } else if starts_with_str(cmd, "colorscheme ") {
        5
    } else if parse_usize(string_of(cmd).as_str()).is_some() {
        6
    } else {
        7
    }
}

impl App {
    fn close_command(&mut self)
        ensures
            closed(*old(self), *final(self)),
            *final(self) == (App {
                input_mode: final(self).input_mode,
                command_input: final(self).command_input,
                ..*old(self)
            }),
    {
        self.input_mode = InputMode::Normal;
        self.command_input = String::new();
    }

    /// What a key does on the command line.
    pub fn command_key(&mut self, key: Key) -> (e: Effect)
        ensures
            command_post(*old(self), *final(self), key, e),
    {
        match key {
            Key::Enter => self.command_enter(),
            Key::Char(c) => {
                self.command_input.push(c);
                Effect::Nothing
            },
            Key::Backspace => {
                self.command_input = without_last(&self.command_input);
                Effect::Nothing
            },
            Key::Esc => {
                self.close_command();
                Effect::Nothing
            },
            _ => Effect::Nothing,
        }
    }

    fn command_enter(&mut self) -> (e: Effect)
        ensures
            command_enter_post(*old(self), *final(self), e),
    {
        let cmd = chars_of(self.command_input.as_str());
        let b = command_branch(&cmd);
        proof {
            reveal_strlit("ww ");
            reveal_strlit("w ");
            reveal_strlit("editor ");
            reveal_strlit("color ");
            reveal_strlit("colorscheme ");
        }
        if b == 0 || b == 1 {
            let skip: usize = if b == 0 {
                3
            } else {
                2
            };
            let rest = trimmed(&slice_of(&cmd, skip, cmd.len()));
            assert(cmd@.subrange(skip as int, cmd@.len() as int) =~= cmd@.skip(skip as int));
            if rest.len() > 0 {
                let name = with_md_of(&rest);
                Effect::SaveAs(string_of(&name), b == 0)
            } else {
                self.close_command();
                Effect::Nothing
            }
        } else if b == 2 {
            let ed = trimmed(&slice_of(&cmd, 7, cmd.len()));
            assert(cmd@.subrange(7, cmd@.len() as int) =~= cmd@.skip(7));
            self.close_command();
            if ed.len() > 0 {
                self.editor = string_of(&ed);
                let mut m = chars_of("Editor set to ");
                push_all(&mut m, &ed);
                self.status_message = Some(string_of(&m));
                Effect::SaveConfig
            } else {
                Effect::Nothing
            }
        } else if b == 3 {
            let arg = trimmed(&slice_of(&cmd, 6, cmd.len()));
            assert(cmd@.subrange(6, cmd@.len() as int) =~= cmd@.skip(6));
            self.close_command();
            match parse_u8(string_of(&arg).as_str()) {
                Some(v) => {
                    self.accent_color = Color::Indexed(v);
                    let mut m = chars_of("Accent color set to ");
                    push_all(&mut m, &decimal_of(v as usize));
                    self.status_message = Some(string_of(&m));
                    Effect::SaveConfig
                },
                None => {
                    self.status_message = Some("Invalid color index".to_owned());
                    Effect::Nothing
                },
            }
        } else if b == 4 {
            self.close_command();
            self.display_mode = string_of(&cmd);
            let mut m = chars_of("Display mode set to ");
            push_all(&mut m, &cmd);
            self.status_message = Some(string_of(&m));
            Effect::SaveConfig
        } else if b == 5 {
            let scheme = trimmed(&slice_of(&cmd, 12, cmd.len()));
            assert(cmd@.subrange(12, cmd@.len() as int) =~= cmd@.skip(12));
            self.close_command();
            if equals_str(&scheme, "ansi") || equals_str(&scheme, "pastel") {
                self.colorscheme = string_of(&scheme);
                let mut m = chars_of("Colorscheme set to ");
                push_all(&mut m, &scheme);
                self.status_message = Some(string_of(&m));
                Effect::SaveConfig
            } else {
                self.status_message = Some(
                    "Invalid colorscheme. Use 'ansi' or 'pastel'".to_owned(),
                );
                Effect::Nothing
            }
        } else if b == 6 {
            let k = parse_usize(string_of(&cmd).as_str()).unwrap();
            let len = self.cells.len();
            self.close_command();
            if 0 < k && k <= len {
                self.selected = Some(k - 1);
                let mut m = chars_of("Jumped to cell ");
                push_all(&mut m, &decimal_of(k));
                self.status_message = Some(string_of(&m));
            } else if k == 0 {
                self.status_message = Some("Invalid line number: must be >= 1".to_owned());
            } else {
                let mut m = chars_of("Invalid line number: only ");
                push_all(&mut m, &decimal_of(len));
                push_str(&mut m, " cells");
                self.status_message = Some(string_of(&m));
            }
            Effect::Nothing
        } else {
            self.command_word(&cmd)
        }
    }

    fn command_word(&mut self, cmd: &Vec<char>) -> (e: Effect)
        requires
            cmd@ == old(self).command_input@,
            cmd_branch(cmd@) == 7,
        ensures
            word_post(*old(self), *final(self), e),
    {
        if equals_str(cmd, "q") {
            if self.dirty && !self.untitled_empty() {
                self.close_command();
                self.status_message = Some(
                    "E37: No write since last change (add ! to override)".to_owned(),
                );
                Effect::Nothing
            } else {
                Effect::Quit
            }
        } else if equals_str(cmd, "q!") {
            Effect::Quit
        } else if equals_str(cmd, "wq") {
            Effect::SaveQuit
        } else if equals_str(cmd, "w") {
            self.close_command();
            Effect::Save
        } else if equals_str(cmd, "ww") {
            self.close_command();
            let name = match &self.file_path {
                Some(p) => file_name_of(p.as_str()),
                None => "notebook.md".to_owned(),
            };
            Effect::SaveToAppDir(name)
        } else if equals_str(cmd, "export") {
            self.close_command();
            match &self.file_path {
                Some(p) => Effect::Export(p.clone()),
                None => Effect::Nothing,
            }
        } else if equals_str(cmd, "ra") || equals_str(cmd, "runall") {
            self.close_command();
            let v = self.mark_all_runnable();
            Effect::RunAll(v)
        } else {
            let k = lang_command_of(cmd);
            self.close_command();
            match k {
                Some(t) => {
                    if let Some(i) = self.current_cell() {
                        self.cells[i].cell_type = t;
                        self.dirty = true;
                    }
                },
                None => {},
            }
            Effect::Nothing
        }
    }

    fn untitled_empty(&self) -> (b: bool)
        ensures
            b == untitled_empty(*self),
    {
        if self.file_path.is_some() {
            return false;
        }
        let mut i: usize = 0;
        while i < self.cells.len()
            invariant
                i <= self.cells@.len(),
                forall|j: int| 0 <= j < i ==> trim(#[trigger] self.cells@[j].content@).len() == 0,
            decreases self.cells@.len() - i,
        {
            if !is_blank(&chars_of(self.cells[i].content.as_str())) {
                return false;
            }
            i = i + 1;
        }
        true
    }

    /// Marks every runnable cell as running and returns their indices.
    fn mark_all_runnable(&mut self) -> (v: Vec<usize>)
        ensures
            v@ == runnable(old(self).cells@, old(self).cells@.len() as int),
            num_set(final(self).running_cells@) == num_set(old(self).running_cells@).union(
                v@.to_set(),
            ),
            *final(self) == (App { running_cells: final(self).running_cells, ..*old(self) }),
    {
        let mut v: Vec<usize> = Vec::new();
        let mut i: usize = 0;
        while i < self.cells.len()
            invariant
                i <= self.cells@.len(),
                self.cells == old(self).cells,
                v@ == runnable(self.cells@, i as int),
                num_set(self.running_cells@) == num_set(old(self).running_cells@).union(v@.to_set()),
                *self == (App { running_cells: self.running_cells, ..*old(self) }),
            decreases self.cells@.len() - i,
        {
            if self.cells[i].cell_type != CellType::Markdown {
                let ghost before = v@;
                self.mark_running(i);
                v.push(i);
                assert(v@.to_set() =~= before.to_set().insert(i)) by {
                    assert forall|x: usize| v@.to_set().contains(x) <==> before.to_set().insert(i).contains(x) by {
                        if v@.contains(x) {
                            let j = choose|j: int| 0 <= j < v@.len() && v@[j] == x;
                            if j < before.len() {
                                assert(before[j] == x);
                            }
                        }
                        if before.contains(x) {
                            let j = choose|j: int| 0 <= j < before.len() && before[j] == x;
                            assert(v@[j] == x);
                        }
                        if x == i {
                            assert(v@[before.len() as int] == x);
                        }
                    }
                }
                assert(num_set(self.running_cells@) =~= num_set(old(self).running_cells@).union(v@.to_set()));
            } else {
                assert(v@ =~= runnable(self.cells@, i + 1));
            }
            i = i + 1;
        }
        v
    }
}

fn lang_command_of(w: &Vec<char>) -> (r: Option<CellType>)
    ensures
        r == lang_command(w@),
{
    if equals_str(w, "rust") {
        Some(CellType::Rust)
    } else if equals_str(w, "cpp") {
        Some(CellType::Cpp)
    } else if equals_str(w, "c") {
        Some(CellType::C)
    } else if equals_str(w, "py") {
        Some(CellType::Python)
    } else if equals_str(w, "ts") {
        Some(CellType::TypeScript)
    } else if equals_str(w, "js") {
        Some(CellType::JavaScript)
    } else if equals_str(w, "md") || equals_str(w, "markdown") {
        Some(CellType::Markdown)
    } else if equals_str(w, "sh") || equals_str(w, "shell") {
        Some(CellType::Shell)
    } else {
        None
    }
}

// ---------------------------------------------------------------------------
// Typing into a shell cell
// ---------------------------------------------------------------------------

/// The cell type a word typed into a shell cell turns it into.
pub open spec fn type_word(w: Seq<char>) -> Option<CellType> {
    if w == "rust"@ {
        Some(CellType::Rust)
    } else if w == "py"@ || w == "python"@ {
        Some(CellType::Python)
    } else if w == "js"@ || w == "javascript"@ {
        Some(CellType::JavaScript)
    } else if w == "ts"@ || w == "typescript"@ {
        Some(CellType::TypeScript)
    } else if w == "c"@ {
        Some(CellType::C)
    } else if w == "cpp"@ || w == "c++"@ {
        Some(CellType::Cpp)
    } else if w == "go"@ {
        Some(CellType::Go)
    } else if w == "md"@ || w == "markdown"@ {
        Some(CellType::Markdown)
    } else {
        None
    }
}

/// The selected cell when it is a shell cell.
pub open spec fn shell_cell(a: App) -> Option<int> {
    match cur_cell(a) {
        Some(i) => if a.cells@[i].cell_type == CellType::Shell {
            Some(i)
        } else {
            None
        },
        None => None,
    }
}

/// `n` is `o` with the text of cell `i` replaced by `t`, the cursor at
/// `cursor`, and the notebook changed.
pub open spec fn retyped(o: App, n: App, i: int, t: Seq<char>, cursor: usize) -> bool {
    &&& n.cells@[i].content@ == t
    &&& n.cells@ == o.cells@.update(i, Cell { content: n.cells@[i].content, ..o.cells@[i] })
    &&& n == (App { cells: n.cells, shell_cursor: cursor, dirty: true, ..o })
}

/// The type of the cell a new cell after the last one gets.
pub open spec fn last_type(a: App) -> CellType {
    if a.cells@.len() > 0 {
        a.cells@.last().cell_type
    } else {
        CellType::Shell
    }
}

/// The cell type named by the word typed into the selected cell.
pub open spec fn typed(a: App) -> Option<CellType> {
    match cur_cell(a) {
        Some(i) => type_word(trim(a.cells@[i].content@)),
        None => None,
    }
}

/// Enter while typing into a shell cell: a language word makes the cell a
/// cell of that language and opens it in the external editor; any other
/// line is run (a full-screen program with the terminal handed over), and
/// the selection moves on, adding a cell after a notebook's only cell.
pub open spec fn editing_enter_post(o: App, n: App, e: Effect) -> bool {
    let len = o.cells@.len();
    match typed(o) {
        Some(k) => {
            let i = cur_cell(o).unwrap();
            &&& e == Effect::EditFresh(i as usize)
            &&& n.cells@[i].content@.len() == 0
            &&& n.cells@ == o.cells@.update(
                i,
                Cell { cell_type: k, content: n.cells@[i].content, ..o.cells@[i] },
            )
            &&& n == (App { cells: n.cells, input_mode: InputMode::Normal, ..o })
        },
        None => {
            let interactive = shell_cell(o) is Some && interactive_cmd(
                o.cells@[shell_cell(o).unwrap()].content@,
            );
            let run_it = !interactive && cur_cell(o) is Some && o.cells@[cur_cell(
                o,
            ).unwrap()].cell_type != CellType::Markdown;
            &&& e == (if interactive {
                Effect::Interactive(o.cells@[cur_cell(o).unwrap()].content)
            } else if run_it {
                Effect::Run(cur_cell(o).unwrap() as usize)
            } else {
                Effect::Nothing
            })
            &&& num_set(n.running_cells@) == (if run_it {
                num_set(o.running_cells@).insert(cur_cell(o).unwrap() as usize)
            } else {
                num_set(o.running_cells@)
            })
            &&& match o.selected {
                Some(i) => if len >= 1 && i == 2 * len - 2 {
                    appended(App { running_cells: n.running_cells, ..o }, n, last_type(o))
                } else {
                    n == (App {
                        running_cells: n.running_cells,
                        selected: if i < usize::MAX {
                            Some((i + 1) as usize)
                        } else {
                            o.selected
                        },
                        input_mode: InputMode::Normal,
                        ..o
                    })
                },
                None => n == o,
            }
        },
    }
}

/// A character typed at byte `pos` of `s` in cell `i`.
pub open spec fn insert_post(o: App, n: App, i: int, s: Seq<char>, pos: int, ch: char) -> bool {
    if on_boundary(s, pos) && pos + utf8_width(ch) <= usize::MAX {
        exists|k: int|
            0 <= k <= s.len() && #[trigger] byte_offset(s, k) == pos && retyped(
                o,
                n,
                i,
                s.insert(k, ch),
                (pos + utf8_width(ch)) as usize,
            )
    } else {
        n == o
    }
}

/// Backspace with the cursor at byte `cur` of `s` in cell `i`.
pub open spec fn backspace_post(o: App, n: App, i: int, s: Seq<char>, cur: int, blen: int) -> bool {
    if cur > 0 && cur <= blen && on_boundary(s, cur) {
        exists|k: int|
            0 < k <= s.len() && #[trigger] byte_offset(s, k) == cur && retyped(
                o,
                n,
                i,
                s.remove(k - 1),
                byte_offset(s, k - 1) as usize,
            )
    } else {
        n == o
    }
}

/// Delete with the cursor at byte `cur` of `s` in cell `i`.
pub open spec fn delete_post(o: App, n: App, i: int, s: Seq<char>, cur: int, blen: int) -> bool {
    if cur < blen && on_boundary(s, cur) {
        exists|k: int|
            0 <= k < s.len() && #[trigger] byte_offset(s, k) == cur && retyped(
                o,
                n,
                i,
                s.remove(k),
                cur as usize,
            )
    } else {
        n == o
    }
}

/// Left with the cursor at byte `pos` of `s`.
pub open spec fn left_post(o: App, n: App, s: Seq<char>, pos: int) -> bool {
    if pos == 0 {
        n == (App { shell_cursor: 0, ..o })
    } else if on_boundary(s, pos) {
        exists|k: int|
            0 < k <= s.len() && #[trigger] byte_offset(s, k) == pos && n == (App {
                shell_cursor: byte_offset(s, k - 1) as usize,
                ..o
            })
    } else {
        n == o
    }
}

/// Right with the cursor at byte `pos` of `s`.
pub open spec fn right_post(o: App, n: App, s: Seq<char>, pos: int, blen: int) -> bool {
    if pos >= blen {
        n == (App { shell_cursor: blen as usize, ..o })
    } else if on_boundary(s, pos) {
        exists|k: int|
            0 <= k < s.len() && #[trigger] byte_offset(s, k) == pos && n == (App {
                shell_cursor: byte_offset(s, k + 1) as usize,
                ..o
            })
    } else {
        n == o
    }
}

/// What a key other than Enter and Esc does to the line of shell cell `i`.
pub open spec fn line_post(o: App, n: App, key: Key, i: int) -> bool {
    let s = o.cells@[i].content@;
    let blen = byte_len(s) as int;
    let cur = o.shell_cursor as int;
    let pos = if cur < blen {
        cur
    } else {
        blen
    };
    if blen > usize::MAX {
        n == o
    } else if key is Char {
        insert_post(o, n, i, s, pos, key->0)
    } else if key == Key::Backspace {
        backspace_post(o, n, i, s, cur, blen)
    } else if key == Key::Delete {
        delete_post(o, n, i, s, cur, blen)
    } else if key == Key::Left {
        left_post(o, n, s, pos)
    } else if key == Key::Right {
        right_post(o, n, s, pos, blen)
    } else if key == Key::Home {
        n == (App { shell_cursor: 0, ..o })
    } else if key == Key::End {
        n == (App { shell_cursor: blen as usize, ..o })
    } else {
        n == o
    }
}

/// What a key does while typing into a shell cell. Keys act on the
/// selected cell only when it is a shell cell; the cursor is a byte offset,
/// and an edit at an offset that is not a character boundary does nothing.
pub open spec fn editing_post(o: App, n: App, key: Key, e: Effect) -> bool {
    if key == Key::Enter {
        editing_enter_post(o, n, e)
    } else if key == Key::Esc {
        e == Effect::Nothing && n == (App { input_mode: InputMode::Normal, ..o })
    } else {
        e == Effect::Nothing && match shell_cell(o) {
            Some(i) => line_post(o, n, key, i),
            None => n == o,
        }
    }
}

impl App {
    /// What a key does while typing into a shell cell.
    pub fn editing_key(&mut self, key: Key) -> (e: Effect)
        ensures
            editing_post(*old(self), *final(self), key, e),
    {
        match key {
            Key::Enter => self.editing_enter(),
            Key::Esc => {
                self.input_mode = InputMode::Normal;
                Effect::Nothing
            },
            _ => {
                self.edit_shell_line(key);
                Effect::Nothing
            },
        }
    }

    /// The selected cell when it is a shell cell.
    fn shell_index(&self) -> (r: Option<usize>)
        ensures
            match shell_cell(*self) {
                Some(i) => r == Some(i as usize),
                None => r is None,
            },
    {
        match self.current_cell() {
            Some(i) => if self.cells[i].cell_type == CellType::Shell {
                Some(i)
            } else {
                None
            },
            None => None,
        }
    }

    fn edit_shell_line(&mut self, key: Key)
        requires
            key != Key::Enter && key != Key::Esc,
        ensures
            editing_post(*old(self), *final(self), key, Effect::Nothing),
    {
        let i = match self.shell_index() {
            Some(i) => i,
            None => return ,
        };
        let cs = chars_of(self.cells[i].content.as_str());
        proof { lemma_byte_len(cs@); }
        let blen = match total_width(&cs) {
            Some(t) => t,
            None => return ,
        };
        match key {
            Key::Char(ch) => self.shell_insert(i, &cs, blen, ch),
            Key::Backspace => self.shell_backspace(i, &cs, blen),
            Key::Delete => self.shell_delete(i, &cs, blen),
            Key::Left | Key::Right => self.shell_move(i, &cs, blen, key),
            Key::Home => {
                self.shell_cursor = 0;
            },
            Key::End => {
                self.shell_cursor = blen;
            },
            _ => {},
        }
    }

    fn shell_insert(&mut self, i: usize, cs: &Vec<char>, blen: usize, ch: char)
        requires
            shell_cell(*old(self)) == Some(i as int),
            cs@ == old(self).cells@[i as int].content@,
            blen == byte_len(cs@),
        ensures
            line_post(*old(self), *final(self), Key::Char(ch), i as int),
    {
        proof { lemma_byte_len(cs@); }
        let cur = self.shell_cursor;
        let pos = if cur < blen {
            cur
        } else {
            blen
        };
        if let Some(k) = boundary_index(cs, pos) {
            let w = utf8_width_of(ch);
            if pos <= usize::MAX - w {
                let mut t = slice_of(cs, 0, k);
                t.push(ch);
                push_all(&mut t, &slice_of(cs, k, cs.len()));
                assert(t@ =~= cs@.insert(k as int, ch));
                self.cells[i].content = string_of(&t);
                self.shell_cursor = pos + w;
                self.dirty = true;
                assert(retyped(*old(self), *self, i as int, cs@.insert(k as int, ch), (pos + w) as usize));
            }
        }
    }

    fn shell_backspace(&mut self, i: usize, cs: &Vec<char>, blen: usize)
        requires
            shell_cell(*old(self)) == Some(i as int),
            cs@ == old(self).cells@[i as int].content@,
            blen == byte_len(cs@),
        ensures
            line_post(*old(self), *final(self), Key::Backspace, i as int),
    {
        proof { lemma_byte_len(cs@); }
        let cur = self.shell_cursor;
        if cur > 0 && cur <= blen {
            if let Some(k) = boundary_index(cs, cur) {
                if k > 0 {
                    let mut t = slice_of(cs, 0, k - 1);
                    push_all(&mut t, &slice_of(cs, k, cs.len()));
                    assert(t@ =~= cs@.remove(k - 1));
                    let prev = cur - utf8_width_of(cs[k - 1]);
                    self.cells[i].content = string_of(&t);
                    self.shell_cursor = prev;
                    self.dirty = true;
                    assert(retyped(*old(self), *self, i as int, cs@.remove(k - 1), prev));
                }
            }
        }
    }

    fn shell_delete(&mut self, i: usize, cs: &Vec<char>, blen: usize)
        requires
            shell_cell(*old(self)) == Some(i as int),
            cs@ == old(self).cells@[i as int].content@,
            blen == byte_len(cs@),
        ensures
            line_post(*old(self), *final(self), Key::Delete, i as int),
    {
        proof { lemma_byte_len(cs@); }
        let cur = self.shell_cursor;
        if cur < blen {
            if let Some(k) = boundary_index(cs, cur) {
                if k < cs.len() {
                    let mut t = slice_of(cs, 0, k);
                    push_all(&mut t, &slice_of(cs, k + 1, cs.len()));
                    assert(t@ =~= cs@.remove(k as int));
                    self.cells[i].content = string_of(&t);
                    self.dirty = true;
                    assert(retyped(*old(self), *self, i as int, cs@.remove(k as int), cur));
                }
            }
        }
    }

    fn shell_move(&mut self, i: usize, cs: &Vec<char>, blen: usize, key: Key)
        requires
            shell_cell(*old(self)) == Some(i as int),
            cs@ == old(self).cells@[i as int].content@,
            blen == byte_len(cs@),
            key == Key::Left || key == Key::Right,
        ensures
            line_post(*old(self), *final(self), key, i as int),
    {
        if key == Key::Left {
            self.shell_left(i, cs, blen);
        } else {
            self.shell_right(i, cs, blen);
        }
    }

    #[verifier::spinoff_prover]
    #[verifier::rlimit(40)]
    fn shell_left(&mut self, i: usize, cs: &Vec<char>, blen: usize)
        requires
            shell_cell(*old(self)) == Some(i as int),
            cs@ == old(self).cells@[i as int].content@,
            blen == byte_len(cs@),
        ensures
            left_post(*old(self), *final(self), cs@, if old(self).shell_cursor < blen { old(self).shell_cursor as int } else { blen as int }),
    {
        proof { lemma_byte_len(cs@); }
        let cur = self.shell_cursor;
        let pos = if cur < blen {
            cur
        } else {
            blen
        };
        if pos == 0 {
            self.shell_cursor = 0;
        } else if let Some(k) = boundary_index(cs, pos) {
            if k > 0 {
                self.shell_cursor = pos - utf8_width_of(cs[k - 1]);
                assert(byte_offset(cs@, k as int) == pos);
                assert(self.shell_cursor == byte_offset(cs@, k - 1));
                assert(*self == (App { shell_cursor: byte_offset(cs@, k - 1) as usize, ..*old(self) }));
            }
        }
    }

    #[verifier::spinoff_prover]
    #[verifier::rlimit(80)]
    fn shell_right(&mut self, i: usize, cs: &Vec<char>, blen: usize)
        requires
            shell_cell(*old(self)) == Some(i as int),
            cs@ == old(self).cells@[i as int].content@,
            blen == byte_len(cs@),
        ensures
            right_post(*old(self), *final(self), cs@, if old(self).shell_cursor < blen { old(self).shell_cursor as int } else { blen as int }, blen as int),
    {
        proof { lemma_byte_len(cs@); }
        let cur = self.shell_cursor;
        let pos = if cur < blen {
            cur
        } else {
            blen
        };
        if pos >= blen {
            self.shell_cursor = blen;
            assert(*self == (App { shell_cursor: blen, ..*old(self) }));
        } else if let Some(k) = boundary_index(cs, pos) {
            if k < cs.len() {
                proof {
                    if k + 1 < cs.len() {
                        lemma_offset_monotonic(cs@, k + 1, cs@.len() as int);
                    }
                }
                self.shell_cursor = pos + utf8_width_of(cs[k]);
                assert(byte_offset(cs@, k as int) == pos);
                assert(self.shell_cursor == byte_offset(cs@, k + 1));
                assert(*self == (App { shell_cursor: byte_offset(cs@, k + 1) as usize, ..*old(self) }));
            }
        }
    }

    fn editing_enter(&mut self) -> (e: Effect)
        ensures
            editing_enter_post(*old(self), *final(self), e),
    {
        let cur = self.current_cell();
        if let Some(i) = cur {
            let word = trimmed(&chars_of(self.cells[i].content.as_str()));
            if let Some(k) = type_word_of(&word) {
                self.cells[i].cell_type = k;
                self.cells[i].content = String::new();
                self.input_mode = InputMode::Normal;
                assert(self.cells@ =~= old(self).cells@.update(
                    i as int,
                    Cell { cell_type: k, content: self.cells@[i as int].content, ..old(self).cells@[i as int] },
                ));
                return Effect::EditFresh(i);
            }
        }
        let mut e = Effect::Nothing;
        let shell = self.shell_index();
        let interactive = match shell {
            Some(i) => is_interactive(&self.cells[i].content),
            None => false,
        };
        if interactive {
            e = Effect::Interactive(self.cells[shell.unwrap()].content.clone());
            self.input_mode = InputMode::Normal;
        } else if let Some(i) = cur {
            if self.cells[i].cell_type != CellType::Markdown {
                self.mark_running(i);
                e = Effect::Run(i);
            }
        }
        let ghost mid = *self;
        match self.selected {
            Some(i) => {
                let len = self.cells.len();
                if len >= 1 && i % 2 == 0 && i / 2 == len - 1 {
                    let k = self.cells[len - 1].cell_type;
                    self.add_cell(k);
                } else {
                    if i < usize::MAX {
                        self.selected = Some(i + 1);
                    }
                    self.input_mode = InputMode::Normal;
                }
            },
            None => {},
        }
        e
    }
}

fn type_word_of(w: &Vec<char>) -> (r: Option<CellType>)
    ensures
        r == type_word(w@),
{
    if equals_str(w, "rust") {
        Some(CellType::Rust)
    } else if equals_str(w, "py") || equals_str(w, "python") {
        Some(CellType::Python)
    } else if equals_str(w, "js") || equals_str(w, "javascript") {
        Some(CellType::JavaScript)
    } else if equals_str(w, "ts") || equals_str(w, "typescript") {
        Some(CellType::TypeScript)
    } else if equals_str(w, "c") {
        Some(CellType::C)
    } else if equals_str(w, "cpp") || equals_str(w, "c++") {
        Some(CellType::Cpp)
    } else if equals_str(w, "go") {
        Some(CellType::Go)
    } else if equals_str(w, "md") || equals_str(w, "markdown") {
        Some(CellType::Markdown)
    } else {
        None
    }
}

// ---------------------------------------------------------------------------
// Prompts: polling, renaming, program input, confirmations, searches
// ---------------------------------------------------------------------------

/// A text typed into a prompt after one more key: a character is added,
/// Backspace takes the last one away.
pub open spec fn typed_into(t: Seq<char>, key: Key) -> Seq<char> {
    if key is Char {
        t.push(key->0)
    } else if key == Key::Backspace && t.len() > 0 {
        t.drop_last()
    } else {
        t
    }
}

/// What a polling line sets: `r/` stops polling, `rmN` polls every `N`
/// minutes, `rhN` every `N` hours and `rN` every `N` seconds, with the
/// message to show; `None` when the line sets nothing.
pub open spec fn polling_change(t: Seq<char>) -> Option<(Option<u64>, Seq<char>)> {
    if t == "r/"@ {
        Some((None, "Polling disabled"@))
    } else if starts_with(t, "rm"@) || starts_with(t, "rh"@) {
        let unit: nat = if starts_with(t, "rm"@) {
            60
        } else {
            3600
        };
        match parse_unsigned(t.skip(2), u64::MAX as nat) {
            Some(v) => if v * unit <= u64::MAX {
                Some((Some((v * unit) as u64), "Polling set to "@ + decimal(v * unit) + "s"@))
            } else {
                None
            },
            None => None,
        }
    } else if starts_with(t, "r"@) {
        match parse_unsigned(t.skip(1), u64::MAX as nat) {
            Some(v) => Some((Some(v as u64), "Polling set to "@ + decimal(v) + "s"@)),
            None => None,
        }
    } else {
        None
    }
}

/// What a key does on the polling line. Enter applies the line to the cell
/// at half the selected index (the selection counts two lines per cell).
pub open spec fn polling_post(o: App, n: App, key: Key, e: Effect) -> bool {
    &&& e == Effect::Nothing
    &&& if key == Key::Enter {
        let target = match o.selected {
            Some(i) => if i / 2 < o.cells@.len() {
                Some((i / 2) as int)
            } else {
                None
            },
            None => None,
        };
        match (target, polling_change(o.polling_input@)) {
            (Some(ci), Some(ch)) => {
                &&& n.cells@ == o.cells@.update(
                    ci,
                    Cell { polling_interval: ch.0, ..o.cells@[ci] },
                )
                &&& says(n, ch.1)
                &&& n == (App {
                    cells: n.cells,
                    status_message: n.status_message,
                    dirty: true,
                    input_mode: InputMode::Normal,
                    ..o
                })
            },
            _ => n == (App { input_mode: InputMode::Normal, ..o }),
        }
    } else if key == Key::Esc {
        n.polling_input@.len() == 0 && n == (App {
            input_mode: InputMode::Normal,
            polling_input: n.polling_input,
            ..o
        })
    } else if key is Char || key == Key::Backspace {
        n.polling_input@ == typed_into(o.polling_input@, key) && n == (App {
            polling_input: n.polling_input,
            ..o
        })
    } else {
        n == o
    }
}

/// What a key does while a file is being renamed.
pub open spec fn renaming_post(o: App, n: App, key: Key, e: Effect) -> bool {
    if key == Key::Enter {
        let files = o.available_files@;
        &&& n == (App { input_mode: InputMode::Normal, ..o })
        &&& e == match o.file_selected {
            Some(i) => if i > 0 && i - 1 < files.len() && files[i - 1].path is Some {
                Effect::Rename(files[i - 1].path.unwrap(), o.rename_input)
            } else {
                Effect::Nothing
            },
            None => Effect::Nothing,
        }
    } else if key == Key::Esc {
        e == Effect::Nothing && n == (App { input_mode: InputMode::Normal, ..o })
    } else if key is Char || key == Key::Backspace {
        e == Effect::Nothing && n.rename_input@ == typed_into(o.rename_input@, key) && n == (App {
            rename_input: n.rename_input,
            ..o
        })
    } else {
        e == Effect::Nothing && n == o
    }
}

/// What a key does while a program waits for input.
pub open spec fn popup_post(o: App, n: App, key: Key, e: Effect) -> bool {
    if key == Key::Enter {
        n == o && e == Effect::SubmitInput(o.popup_input)
    } else if key is Char || key == Key::Backspace {
        e == Effect::Nothing && n.popup_input@ == typed_into(o.popup_input@, key) && n == (App {
            popup_input: n.popup_input,
            ..o
        })
    } else {
        e == Effect::Nothing && n == o
    }
}

/// What a key does when asked to confirm a deletion (`y` confirms, any
/// other key cancels).
pub open spec fn confirm_delete_post(o: App, n: App, key: Key, e: Effect) -> bool {
    &&& n.command_input@.len() == 0
    &&& if key == Key::Char('y') || key == Key::Char('Y') {
        &&& e == match o.file_to_delete {
            Some(p) => Effect::DeleteFile(p),
            None => Effect::Nothing,
        }
        &&& n == (App {
            input_mode: InputMode::Normal,
            command_input: n.command_input,
            file_to_delete: None,
            ..o
        })
    } else {
        &&& e == Effect::Nothing
        &&& says(n, "Delete cancelled"@)
        &&& n == (App {
            status_message: n.status_message,
            input_mode: InputMode::Normal,
            command_input: n.command_input,
            file_to_delete: None,
            ..o
        })
    }
}

/// What a key does when asked to confirm overwriting a file.
pub open spec fn confirm_overwrite_post(o: App, n: App, key: Key, e: Effect) -> bool {
    &&& n.command_input@.len() == 0
    &&& if key == Key::Char('y') || key == Key::Char('Y') {
        &&& e == match o.overwrite_path {
            Some(p) => Effect::Overwrite(p),
            None => Effect::Nothing,
        }
        &&& n == (App {
            input_mode: InputMode::Normal,
            command_input: n.command_input,
            overwrite_path: None,
            ..o
        })
    } else {
        &&& e == Effect::Nothing
        &&& says(n, "Save cancelled"@)
        &&& n == (App {
            status_message: n.status_message,
            input_mode: InputMode::Normal,
            command_input: n.command_input,
            overwrite_path: None,
            ..o
        })
    }
}

/// What a key does while a sidebar search is typed: each change reruns
/// the search; Enter jumps to the first match.
pub open spec fn search_sidebar_post(o: App, n: App, key: Key, e: Effect) -> bool {
    let s = o.sidebar_search;
    &&& e == Effect::Nothing
    &&& if key == Key::Enter {
        let hits = sidebar_hits(o.available_files@, s, o.available_files@.len() as int);
        &&& searched(s, n.sidebar_search, hits)
        &&& n == (App {
            sidebar_search: n.sidebar_search,
            file_selected: if n.sidebar_search.current_match == Some(0usize)
                && n.sidebar_search.matches@.len() > 0 {
                line_of(n.sidebar_search.matches@[0], o.file_selected)
            } else {
                o.file_selected
            },
            input_mode: InputMode::Normal,
            ..o
        })
    } else if key == Key::Esc {
        cleared(s, n.sidebar_search) && n == (App {
            sidebar_search: n.sidebar_search,
            input_mode: InputMode::Normal,
            ..o
        })
    } else if key is Char || key == Key::Backspace {
        let s1 = SearchState { query: n.sidebar_search.query, ..s };
        &&& n.sidebar_search.query@ == typed_into(s.query@, key)
        &&& searched(
            s1,
            n.sidebar_search,
            sidebar_hits(o.available_files@, s1, o.available_files@.len() as int),
        )
        &&& n == (App { sidebar_search: n.sidebar_search, ..o })
    } else {
        n == o
    }
}

/// What a key does while an editor search is typed.
pub open spec fn search_editor_post(o: App, n: App, key: Key, e: Effect) -> bool {
    let s = o.editor_search;
    &&& e == Effect::Nothing
    &&& if key == Key::Enter {
        let hits = editor_hits(o.cells@, s, o.cells@.len() as int);
        &&& searched(s, n.editor_search, hits)
        &&& n == (App {
            editor_search: n.editor_search,
            selected: if n.editor_search.current_match == Some(0usize)
                && n.editor_search.matches@.len() > 0 {
                Some(n.editor_search.matches@[0])
            } else {
                o.selected
            },
            input_mode: InputMode::Normal,
            ..o
        })
    } else if key == Key::Esc {
        cleared(s, n.editor_search) && n == (App {
            editor_search: n.editor_search,
            input_mode: InputMode::Normal,
            ..o
        })
    } else if key is Char || key == Key::Backspace {
        let s1 = SearchState { query: n.editor_search.query, ..s };
        &&& n.editor_search.query@ == typed_into(s.query@, key)
        &&& searched(s1, n.editor_search, editor_hits(o.cells@, s1, o.cells@.len() as int))
        &&& n == (App { editor_search: n.editor_search, ..o })
    } else {
        n == o
    }
}

/// A prompt's text after a key.
fn retype(t: &String, key: Key) -> (r: String)
    requires
        key is Char || key == Key::Backspace,
    ensures
        r@ == typed_into(t@, key),
{
    match key {
        Key::Char(c) => {
            let mut r = t.clone();
            r.push(c);
            r
        },
        _ => without_last(t),
    }
}

/// The polling interval and message a polling line sets.
fn polling_change_of(t: &String) -> (r: Option<(Option<u64>, String)>)
    ensures
        match r {
            Some((iv, m)) => polling_change(t@) == Some((iv, m@)),
            None => polling_change(t@) is None,
        },
{
    let v = chars_of(t.as_str());
    if equals_str(&v, "r/") {
        return Some((None, "Polling disabled".to_owned()));
    }
    proof {
        reveal_strlit("r/");
        reveal_strlit("rm");
        reveal_strlit("rh");
        reveal_strlit("r");
    }
    if starts_with_str(&v, "rm") || starts_with_str(&v, "rh") {
        let unit: u64 = if starts_with_str(&v, "rm") {
            60
        } else {
            3600
        };
        let rest = slice_of(&v, 2, v.len());
        assert(rest@ =~= t@.skip(2));
        match parse_u64(string_of(&rest).as_str()) {
            Some(n) => match n.checked_mul(unit) {
                Some(secs) => {
                    let mut m = chars_of("Polling set to ");
                    push_all(&mut m, &crate::text::decimal_u64(secs));
                    push_str(&mut m, "s");
                    Some((Some(secs), string_of(&m)))
                },
                None => None,
            },
            None => None,
        }
    } else if starts_with_str(&v, "r") {
        let rest = slice_of(&v, 1, v.len());
        assert(rest@ =~= t@.skip(1));
        match parse_u64(string_of(&rest).as_str()) {
            Some(n) => {
                let mut m = chars_of("Polling set to ");
                push_all(&mut m, &crate::text::decimal_u64(n));
                push_str(&mut m, "s");
                Some((Some(n), string_of(&m)))
            },
            None => None,
        }
    } else {
        None
    }
}

impl App {
    /// What a key does on the polling line.
    pub fn polling_key(&mut self, key: Key) -> (e: Effect)
        ensures
            polling_post(*old(self), *final(self), key, e),
    {
        match key {
            Key::Enter => {
                let target = match self.selected {
                    Some(i) => if i / 2 < self.cells.len() {
                        Some(i / 2)
                    } else {
                        None
                    },
                    None => None,
                };
                match (target, polling_change_of(&self.polling_input)) {
                    (Some(ci), Some((iv, msg))) => {
                        self.cells[ci].polling_interval = iv;
                        self.status_message = Some(msg);
                        self.dirty = true;
                    },
                    _ => {},
                }
                self.input_mode = InputMode::Normal;
            },
            Key::Esc => {
                self.input_mode = InputMode::Normal;
                self.polling_input = String::new();
            },
            Key::Char(_) | Key::Backspace => {
                self.polling_input = retype(&self.polling_input, key);
            },
            _ => {},
        }
        Effect::Nothing
    }

    /// What a key does while a file is being renamed.
    pub fn renaming_key(&mut self, key: Key) -> (e: Effect)
        ensures
            renaming_post(*old(self), *final(self), key, e),
    {
        match key {
            Key::Enter => {
                let mut e = Effect::Nothing;
                if let Some(i) = self.file_selected {
                    if i > 0 && i - 1 < self.available_files.len() {
                        if let Some(p) = &self.available_files[i - 1].path {
                            e = Effect::Rename(p.clone(), self.rename_input.clone());
                        }
                    }
                }
                self.input_mode = InputMode::Normal;
                e
            },
            Key::Esc => {
                self.input_mode = InputMode::Normal;
                Effect::Nothing
            },
            Key::Char(_) | Key::Backspace => {
                self.rename_input = retype(&self.rename_input, key);
                Effect::Nothing
            },
            _ => Effect::Nothing,
        }
    }

    /// What a key does while a program waits for input.
    pub fn popup_key(&mut self, key: Key) -> (e: Effect)
        ensures
            popup_post(*old(self), *final(self), key, e),
    {
        match key {
            Key::Enter => Effect::SubmitInput(self.popup_input.clone()),
            Key::Char(_) | Key::Backspace => {
                self.popup_input = retype(&self.popup_input, key);
                Effect::Nothing
            },
            _ => Effect::Nothing,
        }
    }

    /// What a key does when asked to confirm a deletion.
    pub fn confirm_delete_key(&mut self, key: Key) -> (e: Effect)
        ensures
            confirm_delete_post(*old(self), *final(self), key, e),
    {
        let e = if key == Key::Char('y') || key == Key::Char('Y') {
            match &self.file_to_delete {
                Some(p) => Effect::DeleteFile(p.clone()),
                None => Effect::Nothing,
            }
        } else {
            self.status_message = Some("Delete cancelled".to_owned());
            Effect::Nothing
        };
        self.input_mode = InputMode::Normal;
        self.command_input = String::new();
        self.file_to_delete = None;
        e
    }

    /// What a key does when asked to confirm overwriting a file.
    pub fn confirm_overwrite_key(&mut self, key: Key) -> (e: Effect)
        ensures
            confirm_overwrite_post(*old(self), *final(self), key, e),
    {
        let e = if key == Key::Char('y') || key == Key::Char('Y') {
            match &self.overwrite_path {
                Some(p) => Effect::Overwrite(p.clone()),
                None => Effect::Nothing,
            }
        } else {
            self.status_message = Some("Save cancelled".to_owned());
            Effect::Nothing
        };
        self.input_mode = InputMode::Normal;
        self.command_input = String::new();
        self.overwrite_path = None;
        e
    }

    /// What a key does while a sidebar search is typed.
    pub fn search_sidebar_key(&mut self, key: Key) -> (e: Effect)
        ensures
            search_sidebar_post(*old(self), *final(self), key, e),
    {
        match key {
            Key::Enter => {
                self.perform_sidebar_search();
                if self.sidebar_search.current_match == Some(0) && self.sidebar_search.matches.len() > 0 {
                    let idx = self.sidebar_search.matches[0];
                    if idx < usize::MAX {
                        self.file_selected = Some(idx + 1);
                    }
                }
                self.input_mode = InputMode::Normal;
            },
            Key::Esc => {
                self.sidebar_search.clear();
                self.input_mode = InputMode::Normal;
            },
            Key::Char(_) | Key::Backspace => {
                self.sidebar_search.query = retype(&self.sidebar_search.query, key);
                self.perform_sidebar_search();
            },
            _ => {},
        }
        Effect::Nothing
    }

    /// What a key does while an editor search is typed.
    pub fn search_editor_key(&mut self, key: Key) -> (e: Effect)
        ensures
            search_editor_post(*old(self), *final(self), key, e),
    {
        match key {
            Key::Enter => {
                self.perform_editor_search();
                if self.editor_search.current_match == Some(0) && self.editor_search.matches.len() > 0 {
                    self.selected = Some(self.editor_search.matches[0]);
                }
                self.input_mode = InputMode::Normal;
            },
            Key::Esc => {
                self.editor_search.clear();
                self.input_mode = InputMode::Normal;
            },
            Key::Char(_) | Key::Backspace => {
                self.editor_search.query = retype(&self.editor_search.query, key);
                self.perform_editor_search();
            },
            _ => {},
        }
        Effect::Nothing
    }
}

// ---------------------------------------------------------------------------
// Any key
// ---------------------------------------------------------------------------

/// What a key does in the current mode, with no key sequence pending.
pub open spec fn dispatch_post(o: App, n: App, key: Key, e: Effect) -> bool {
    match o.input_mode {
        InputMode::Normal => if o.focus == Focus::Sidebar {
            sidebar_post(o, n, key, e)
        } else {
            editor_post(o, n, key, e)
        },
        InputMode::Editing => editing_post(o, n, key, e),
        InputMode::Command => command_post(o, n, key, e),
        InputMode::Renaming => renaming_post(o, n, key, e),
        InputMode::Polling => polling_post(o, n, key, e),
        InputMode::ConfirmDelete => confirm_delete_post(o, n, key, e),
        InputMode::ConfirmOverwrite => confirm_overwrite_post(o, n, key, e),
        InputMode::InputPopup => popup_post(o, n, key, e),
        InputMode::SearchSidebar => search_sidebar_post(o, n, key, e),
        InputMode::SearchEditor => search_editor_post(o, n, key, e),
    }
}

/// What a key does. In normal mode Space and `g` start a two-key sequence:
/// Space `e` shows or hides the sidebar, Space `h` and Space `l` move the
/// keys to the sidebar and to the cells, `g g` goes to the top; a key that
/// ends no sequence is handled as if none were pending.
pub open spec fn key_post(o: App, n: App, key: Key, e: Effect) -> bool {
    match o.pending_key {
        Some(p) => if p == ' ' && key == Key::Char('e') {
            let show = !o.show_sidebar;
            &&& e == (if show {
                Effect::RefreshFiles
            } else {
                Effect::Nothing
            })
            &&& n == (App {
                show_sidebar: show,
                focus: if show {
                    Focus::Sidebar
                } else {
                    Focus::Editor
                },
                pending_key: None,
                ..o
            })
        } else if p == ' ' && key == Key::Char('h') {
            e == Effect::Nothing && n == (App {
                focus: if o.show_sidebar {
                    Focus::Sidebar
                } else {
                    o.focus
                },
                pending_key: None,
                ..o
            })
        } else if p == ' ' && key == Key::Char('l') {
            e == Effect::Nothing && n == (App { focus: Focus::Editor, pending_key: None, ..o })
        } else if p == 'g' && key == Key::Char('g') {
            e == Effect::Nothing && n == (if o.focus == Focus::Sidebar {
                App { file_selected: Some(0usize), pending_key: None, numeric_prefix: None, ..o }
            } else {
                App { selected: Some(0usize), pending_key: None, numeric_prefix: None, ..o }
            })
        } else {
            dispatch_post(App { pending_key: None, ..o }, n, key, e)
        },
        None => if o.input_mode == InputMode::Normal && (key == Key::Char(' ') || key == Key::Char(
            'g',
        )) {
            e == Effect::Nothing && n == (App { pending_key: Some(key->0), ..o })
        } else {
            dispatch_post(o, n, key, e)
        },
    }
}

impl App {
    /// Handles one key press.
    pub fn handle_key(&mut self, key: Key) -> (e: Effect)
        ensures
            key_post(*old(self), *final(self), key, e),
    {
        match self.pending_key {
            Some(p) => {
                if p == ' ' && key == Key::Char('e') {
                    self.show_sidebar = !self.show_sidebar;
                    self.pending_key = None;
                    if self.show_sidebar {
                        self.focus = Focus::Sidebar;
                        return Effect::RefreshFiles;
                    } else {
                        self.focus = Focus::Editor;
                        return Effect::Nothing;
                    }
                } else if p == ' ' && key == Key::Char('h') {
                    if self.show_sidebar {
                        self.focus = Focus::Sidebar;
                    }
                    self.pending_key = None;
                    return Effect::Nothing;
                } else if p == ' ' && key == Key::Char('l') {
                    self.focus = Focus::Editor;
                    self.pending_key = None;
                    return Effect::Nothing;
                } else if p == 'g' && key == Key::Char('g') {
                    if self.focus == Focus::Sidebar {
                        self.file_selected = Some(0);
                    } else {
                        self.selected = Some(0);
                    }
                    self.pending_key = None;
                    self.numeric_prefix = None;
                    return Effect::Nothing;
                } else {
                    self.pending_key = None;
                }
            },
            None => {
                if self.input_mode == InputMode::Normal {
                    if key == Key::Char(' ') {
                        self.pending_key = Some(' ');
                        return Effect::Nothing;
                    }
                    if key == Key::Char('g') {
                        self.pending_key = Some('g');
                        return Effect::Nothing;
                    }
                }
            },
        }
        self.dispatch(key)
    }

    fn dispatch(&mut self, key: Key) -> (e: Effect)
        ensures
            dispatch_post(*old(self), *final(self), key, e),
    {
        match self.input_mode {
            InputMode::Normal => if self.focus == Focus::Sidebar {
                self.sidebar_key(key)
            } else {
                self.editor_key(key)
            },
            InputMode::Editing => self.editing_key(key),
            InputMode::Command => self.command_key(key),
            InputMode::Renaming => self.renaming_key(key),
            InputMode::Polling => self.polling_key(key),
            InputMode::ConfirmDelete => self.confirm_delete_key(key),
            InputMode::ConfirmOverwrite => self.confirm_overwrite_key(key),
            InputMode::InputPopup => self.popup_key(key),
            InputMode::SearchSidebar => self.search_sidebar_key(key),
            InputMode::SearchEditor => self.search_editor_key(key),
        }
    }
}

// ---------------------------------------------------------------------------
// After the outside work
// ---------------------------------------------------------------------------

/// How putting text on the system clipboard went.
#[derive(Clone, Copy, PartialEq, Eq, Structural, Debug)]
pub enum Clipboard {
    Copied,
    Failed,
    Unavailable,
}

/// The message after a yank.
pub open spec fn yank_message(what: Yank, how: Clipboard) -> Seq<char> {
    (if what == Yank::Cell {
        "Cell yanked"@
    } else {
        "Output yanked"@
    }) + match how {
        Clipboard::Copied => " (copied to system clipboard)"@,
        Clipboard::Failed => " (system clipboard failed)"@,
        Clipboard::Unavailable => " (system clipboard unavailable)"@,
    }
}

/// The extension of the file a cell is edited in.
pub open spec fn extension_for(k: CellType) -> Seq<char> {
    match k {
        CellType::Rust => ".rs"@,
        CellType::Python => ".py"@,
        CellType::JavaScript => ".js"@,
        CellType::TypeScript => ".ts"@,
        CellType::C => ".c"@,
        CellType::Cpp => ".cpp"@,
        CellType::Go => ".go"@,
        CellType::Shell => ".sh"@,
        CellType::Markdown => ".md"@,
    }
}

/// The extension of the file a cell of this type is edited in.
pub fn extension_of(k: CellType) -> (r: &'static str)
    ensures
        r@ == extension_for(k),
{
    match k {
        CellType::Rust => ".rs",
        CellType::Python => ".py",
        CellType::JavaScript => ".js",
        CellType::TypeScript => ".ts",
        CellType::C => ".c",
        CellType::Cpp => ".cpp",
        CellType::Go => ".go",
        CellType::Shell => ".sh",
        CellType::Markdown => ".md",
    }
}

/// Whether the configured editor is VS Code (started with `code`), which
/// is waited for in the background.
pub open spec fn is_code(editor: Seq<char>) -> bool {
    starts_with(trim(editor), "code"@)
}

/// The command that starts the external editor: VS Code is told to wait
/// (`--wait`) unless the command already says so.
pub open spec fn editor_command_spec(editor: Seq<char>) -> Seq<char> {
    if is_code(editor) && !crate::text::contains(editor, "--wait"@) && !crate::text::contains(
        editor,
        "-w"@,
    ) {
        editor + " --wait"@
    } else {
        editor
    }
}

/// The command that starts the external editor, and whether it is VS Code.
pub fn editor_command(editor: &String) -> (r: (String, bool))
    ensures
        r.0@ == editor_command_spec(editor@),
        r.1 == is_code(editor@),
{
    let v = chars_of(editor.as_str());
    let code = starts_with_str(&trimmed(&v), "code");
    if code && !crate::text::contains_str(&v, "--wait") && !crate::text::contains_str(&v, "-w") {
        let mut w = slice_of(&v, 0, v.len());
        push_str(&mut w, " --wait");
        (string_of(&w), code)
    } else {
        (editor.clone(), code)
    }
}

impl App {
    fn set_status(&mut self, m: Vec<char>)
        ensures
            says(*final(self), m@),
            *final(self) == (App { status_message: final(self).status_message, ..*old(self) }),
    {
        self.status_message = Some(string_of(&m));
    }

    /// Reports how putting a yanked cell or output on the system clipboard
    /// went.
    pub fn report_yank(&mut self, what: Yank, how: Clipboard)
        ensures
            says(*final(self), yank_message(what, how)),
            *final(self) == (App { status_message: final(self).status_message, ..*old(self) }),
    {
        let mut m = if what == Yank::Cell {
            chars_of("Cell yanked")
        } else {
            chars_of("Output yanked")
        };
        match how {
            Clipboard::Copied => push_str(&mut m, " (copied to system clipboard)"),
            Clipboard::Failed => push_str(&mut m, " (system clipboard failed)"),
            Clipboard::Unavailable => push_str(&mut m, " (system clipboard unavailable)"),
        }
        self.set_status(m);
    }

    /// The external editor could not be used.
    pub fn editor_failed(&mut self, msg: &String)
        ensures
            says(*final(self), "Editor error: "@ + msg@),
            *final(self) == (App { status_message: final(self).status_message, ..*old(self) }),
    {
        let mut m = chars_of("Editor error: ");
        push_str(&mut m, msg.as_str());
        self.set_status(m);
    }

    /// The text typed into a cell that was just given its language came back
    /// from the external editor (or the editor failed): a changed text
    /// becomes the cell's content.
    pub fn fresh_edit_done(&mut self, index: usize, result: Result<String, String>)
        ensures
            match result {
                Ok(t) => if index < old(self).cells@.len() && old(self).cells@[index as int].content@ != t@ {
                    final(self).cells@ == old(self).cells@.update(
                        index as int,
                        Cell { content: t, ..old(self).cells@[index as int] },
                    ) && *final(self) == (App {
                        cells: final(self).cells,
                        dirty: true,
                        input_mode: InputMode::Normal,
                        ..*old(self)
                    })
                } else {
                    *final(self) == (App { input_mode: InputMode::Normal, ..*old(self) })
                },
                Err(msg) => says(*final(self), "Editor error: "@ + msg@) && *final(self) == (App {
                    status_message: final(self).status_message,
                    input_mode: InputMode::Normal,
                    ..*old(self)
                }),
            },
    {
        match result {
            Ok(t) => {
                if index < self.cells.len() && self.cells[index].content != t {
                    self.cells[index].content = t;
                    self.dirty = true;
                }
            },
            Err(msg) => {
                self.editor_failed(&msg);
            },
        }
        self.input_mode = InputMode::Normal;
    }

    /// Asks whether to overwrite the existing file at `path`.
    pub fn confirm_overwrite(&mut self, path: String)
        ensures
            final(self).command_input@ == "Overwrite "@ + path@ + "? y/N: "@,
            *final(self) == (App {
                overwrite_path: Some(path),
                input_mode: InputMode::ConfirmOverwrite,
                command_input: final(self).command_input,
                ..*old(self)
            }),
    {
        let mut m = chars_of("Overwrite ");
        push_str(&mut m, path.as_str());
        push_str(&mut m, "? y/N: ");
        self.command_input = string_of(&m);
        self.overwrite_path = Some(path);
        self.input_mode = InputMode::ConfirmOverwrite;
    }

    /// The notebook was saved to `path`.
    pub fn saved_to(&mut self, path: &String)
        ensures
            says(*final(self), "Saved to "@ + path@),
            closed(*old(self), *final(self)),
            *final(self) == (App {
                status_message: final(self).status_message,
                input_mode: final(self).input_mode,
                command_input: final(self).command_input,
                ..*old(self)
            }),
    {
        let mut m = chars_of("Saved to ");
        push_str(&mut m, path.as_str());
        self.set_status(m);
        self.input_mode = InputMode::Normal;
        self.command_input = String::new();
    }

    /// The file at `from` was renamed to `to` (new name `name`); the open
    /// notebook follows its file.
    pub fn renamed(&mut self, from: &String, to: String, name: &String)
        ensures
            says(*final(self), "Renamed to "@ + name@),
            *final(self) == (App {
                status_message: final(self).status_message,
                file_path: match old(self).file_path {
                    Some(p) => if p@ == from@ {
                        Some(to)
                    } else {
                        old(self).file_path
                    },
                    None => None,
                },
                ..*old(self)
            }),
    {
        let follows = match &self.file_path {
            Some(p) => *p == *from,
            None => false,
        };
        if follows {
            self.file_path = Some(to);
        }
        let mut m = chars_of("Renamed to ");
        push_str(&mut m, name.as_str());
        self.set_status(m);
    }

    /// A status message for an outcome that changes nothing else: a failed
    /// rename, a paste, a deletion, an export.
    pub fn report(&mut self, what: Report, detail: &String)
        ensures
            says(*final(self), report_message(what, detail@)),
            *final(self) == (App { status_message: final(self).status_message, ..*old(self) }),
    {
        let m = match what {
            Report::RenameFailed => chars_of("Rename failed"),
            Report::Pasted => {
                let mut m = chars_of("Pasted to ");
                push_str(&mut m, detail.as_str());
                m
            },
            Report::Deleted => {
                let mut m = chars_of("Deleted ");
                push_str(&mut m, detail.as_str());
                m
            },
            Report::DeleteFailed => {
                let mut m = chars_of("Error deleting file: ");
                push_str(&mut m, detail.as_str());
                m
            },
            Report::Exported => {
                let mut m = chars_of("Exported to ");
                push_str(&mut m, detail.as_str());
                m
            },
            Report::ExportFailed => chars_of("Export failed"),
        };
        self.set_status(m);
    }

    /// A program asks for input with this prompt (ignored while a prompt
    /// is already shown).
    pub fn input_requested(&mut self, prompt: String)
        ensures
            old(self).input_mode == InputMode::InputPopup ==> *final(self) == *old(self),
            old(self).input_mode != InputMode::InputPopup ==> final(self).popup_input@.len() == 0
                && *final(self) == (App {
                input_mode: InputMode::InputPopup,
                popup_prompt: prompt,
                popup_input: final(self).popup_input,
                ..*old(self)
            }),
    {
        if self.input_mode != InputMode::InputPopup {
            self.input_mode = InputMode::InputPopup;
            self.popup_prompt = prompt;
            self.popup_input = String::new();
        }
    }

    /// The input was handed to the program.
    pub fn input_submitted(&mut self)
        ensures
            final(self).popup_input@.len() == 0,
            *final(self) == (App {
                input_mode: InputMode::Normal,
                popup_input: final(self).popup_input,
                ..*old(self)
            }),
    {
        self.input_mode = InputMode::Normal;
        self.popup_input = String::new();
    }

    /// Of the polled cells `due`, those that can be run, now marked as
    /// running.
    pub fn runs_for(&mut self, due: &Vec<usize>) -> (r: Vec<usize>)
        ensures
            r@ == due_runnable(old(self).cells@, due@, due@.len() as int),
            num_set(final(self).running_cells@) == num_set(old(self).running_cells@).union(
                r@.to_set(),
            ),
            *final(self) == (App { running_cells: final(self).running_cells, ..*old(self) }),
    {
        let mut r: Vec<usize> = Vec::new();
        let mut k: usize = 0;
        while k < due.len()
            invariant
                k <= due@.len(),
                self.cells == old(self).cells,
                r@ == due_runnable(self.cells@, due@, k as int),
                num_set(self.running_cells@) == num_set(old(self).running_cells@).union(r@.to_set()),
                *self == (App { running_cells: self.running_cells, ..*old(self) }),
            decreases due@.len() - k,
        {
            let i = due[k];
            if i < self.cells.len() && self.cells[i].cell_type != CellType::Markdown {
                let ghost before = r@;
                self.mark_running(i);
                r.push(i);
                assert(r@.to_set() =~= before.to_set().insert(i)) by {
                    assert forall|x: usize| r@.to_set().contains(x) <==> before.to_set().insert(i).contains(x) by {
                        if r@.contains(x) {
                            let j = choose|j: int| 0 <= j < r@.len() && r@[j] == x;
                            if j < before.len() {
                                assert(before[j] == x);
                            }
                        }
                        if before.contains(x) {
                            let j = choose|j: int| 0 <= j < before.len() && before[j] == x;
                            assert(r@[j] == x);
                        }
                        if x == i {
                            assert(r@[before.len() as int] == x);
                        }
                    }
                }
                assert(num_set(self.running_cells@) =~= num_set(old(self).running_cells@).union(r@.to_set()));
            }
            k = k + 1;
        }
        r
    }
}

/// Which status message `App::report` shows.
#[derive(Clone, Copy, PartialEq, Eq, Structural, Debug)]
pub enum Report {
    RenameFailed,
    Pasted,
    Deleted,
    DeleteFailed,
    Exported,
    ExportFailed,
}

/// The message of a report, with its detail (a path or an error).
pub open spec fn report_message(what: Report, detail: Seq<char>) -> Seq<char> {
    match what {
        Report::RenameFailed => "Rename failed"@,
        Report::Pasted => "Pasted to "@ + detail,
        Report::Deleted => "Deleted "@ + detail,
        Report::DeleteFailed => "Error deleting file: "@ + detail,
        Report::Exported => "Exported to "@ + detail,
        Report::ExportFailed => "Export failed"@,
    }
}

/// The entries of `due` among the first `k` that name a runnable cell.
pub open spec fn due_runnable(cells: Seq<Cell>, due: Seq<usize>, k: int) -> Seq<usize>
    decreases k,
{
    if k <= 0 {
        Seq::<usize>::empty()
    } else {
        due_runnable(cells, due, k - 1) + (if due[k - 1] < cells.len() && cells[due[k
            - 1] as int].cell_type != CellType::Markdown {
            seq![due[k - 1]]
        } else {
            Seq::<usize>::empty()
        })
    }
}

} // verus!
