use newts::keys::{Effect, Key, Yank};
use newts::notebook::{Cell, CellType};
use newts::state::{App, Focus, InputMode};

fn shell(content: &str) -> Cell {
    Cell {
        id: format!("id-{}", content),
        content: content.to_string(),
        output: String::new(),
        cell_type: CellType::Shell,
        polling_interval: None,
        last_run: None,
    }
}

/// An editor on `n` shell cells `echo 0`, `echo 1`, ... in normal mode with
/// the first cell selected.
fn app_with(n: usize) -> App {
    let mut a = App::new("vi".to_string());
    for i in 0..n {
        a.cells.push(shell(&format!("echo {}", i)));
    }
    a.selected = Some(0);
    a.input_mode = InputMode::Normal;
    a.focus = Focus::Editor;
    a
}

fn press(a: &mut App, keys: &str) {
    for c in keys.chars() {
        a.handle_key(Key::Char(c));
    }
}

#[test]
fn count_g_and_colon_jump_select_the_same_cell() {
    let mut a = app_with(5);
    press(&mut a, "3G");
    assert_eq!(a.selected, Some(2));
    assert_eq!(a.input_mode, InputMode::Normal);

    let mut b = app_with(5);
    press(&mut b, ":3");
    assert_eq!(b.input_mode, InputMode::Command);
    assert_eq!(b.command_input, "3");
    b.handle_key(Key::Enter);
    assert_eq!(b.selected, Some(2));
    assert_eq!(b.input_mode, InputMode::Normal);
    assert_eq!(b.status_message, Some("Jumped to cell 3".to_string()));
}

#[test]
fn colon_jump_out_of_range_is_refused() {
    let mut a = app_with(2);
    press(&mut a, ":9");
    a.handle_key(Key::Enter);
    assert_eq!(a.selected, Some(0));
    assert_eq!(a.status_message, Some("Invalid line number: only 2 cells".to_string()));
    press(&mut a, ":0");
    a.handle_key(Key::Enter);
    assert_eq!(a.status_message, Some("Invalid line number: must be >= 1".to_string()));
}

#[test]
fn count_j_moves_down_and_stops_at_the_end() {
    let mut a = app_with(5);
    press(&mut a, "3j");
    assert_eq!(a.selected, Some(3));
    assert_eq!(a.numeric_prefix, None);
    press(&mut a, "9j");
    assert_eq!(a.selected, Some(4));
    press(&mut a, "2k");
    assert_eq!(a.selected, Some(2));
    press(&mut a, "k");
    assert_eq!(a.selected, Some(1));
    press(&mut a, "G");
    assert_eq!(a.selected, Some(4));
}

#[test]
fn gg_goes_to_the_first_cell() {
    let mut a = app_with(5);
    a.selected = Some(3);
    press(&mut a, "g");
    assert_eq!(a.pending_key, Some('g'));
    press(&mut a, "g");
    assert_eq!(a.selected, Some(0));
    assert_eq!(a.pending_key, None);
}

#[test]
fn yank_then_paste_copies_the_cell_below() {
    let mut a = app_with(3);
    a.selected = Some(1);
    let e = a.handle_key(Key::Char('y'));
    assert!(matches!(e, Effect::CopyText(ref s, Yank::Cell) if s == "echo 1"));
    press(&mut a, "p");
    assert_eq!(a.cells.len(), 4);
    assert_eq!(a.cells[2].content, "echo 1");
    assert_eq!(a.cells[2].cell_type, CellType::Shell);
    assert_ne!(a.cells[2].id, a.cells[1].id);
    assert!(!a.cells[2].id.is_empty());
    assert_eq!(a.cells[3].content, "echo 2");
    assert_eq!(a.status_message, Some("Cell pasted".to_string()));
    assert!(a.dirty);
    press(&mut a, "P");
    assert_eq!(a.cells.len(), 5);
    assert_eq!(a.cells[1].content, "echo 1");
    assert_eq!(a.status_message, Some("Cell pasted above".to_string()));
}

#[test]
fn d_deletes_the_selected_cell() {
    let mut a = app_with(3);
    a.selected = Some(2);
    press(&mut a, "d");
    assert_eq!(a.cells.len(), 2);
    assert_eq!(a.selected, Some(1));
    assert!(!a.pending_delete);
    press(&mut a, "d");
    assert_eq!(a.cells.len(), 1);
    assert_eq!(a.selected, Some(0));
}

#[test]
fn deleting_the_only_cell_leaves_a_fresh_shell_cell() {
    let mut a = app_with(1);
    press(&mut a, "d");
    assert_eq!(a.cells.len(), 1);
    assert_eq!(a.cells[0].content, "");
    assert_eq!(a.cells[0].cell_type, CellType::Shell);
    assert_eq!(a.input_mode, InputMode::Editing);
}

#[test]
fn typing_then_backspace_restores_the_line() {
    let mut a = app_with(1);
    a.cells[0].content = "ls".to_string();
    a.input_mode = InputMode::Editing;
    a.shell_cursor = 2;
    a.handle_key(Key::Char('é'));
    assert_eq!(a.cells[0].content, "lsé");
    assert_eq!(a.shell_cursor, 4);
    a.handle_key(Key::Backspace);
    assert_eq!(a.cells[0].content, "ls");
    assert_eq!(a.shell_cursor, 2);
    a.handle_key(Key::Home);
    a.handle_key(Key::Char('x'));
    assert_eq!(a.cells[0].content, "xls");
    a.handle_key(Key::Delete);
    assert_eq!(a.cells[0].content, "xs");
    a.handle_key(Key::End);
    assert_eq!(a.shell_cursor, 2);
}

#[test]
fn right_then_left_restores_the_cursor() {
    let mut a = app_with(1);
    a.cells[0].content = "aé b".to_string();
    a.input_mode = InputMode::Editing;
    a.shell_cursor = 1;
    a.handle_key(Key::Right);
    assert_eq!(a.shell_cursor, 3);
    a.handle_key(Key::Left);
    assert_eq!(a.shell_cursor, 1);
    a.shell_cursor = 2;
    a.handle_key(Key::Right);
    assert_eq!(a.shell_cursor, 2);
}

#[test]
fn next_then_previous_match_comes_back() {
    let mut a = app_with(4);
    a.editor_search.query = "echo".to_string();
    a.editor_search.matches = vec![1, 3];
    a.editor_search.current_match = Some(1);
    press(&mut a, "n");
    assert_eq!(a.editor_search.current_match, Some(0));
    assert_eq!(a.selected, Some(1));
    press(&mut a, "N");
    assert_eq!(a.editor_search.current_match, Some(1));
    assert_eq!(a.selected, Some(3));
}

#[test]
fn polling_line_sets_the_interval() {
    let mut a = app_with(2);
    press(&mut a, "r");
    assert_eq!(a.input_mode, InputMode::Polling);
    assert_eq!(a.polling_input, "r");
    press(&mut a, "m5");
    a.handle_key(Key::Enter);
    assert_eq!(a.cells[0].polling_interval, Some(300));
    assert_eq!(a.status_message, Some("Polling set to 300s".to_string()));
    assert_eq!(a.input_mode, InputMode::Normal);
    press(&mut a, "r/");
    a.handle_key(Key::Enter);
    assert_eq!(a.cells[0].polling_interval, None);
    assert_eq!(a.status_message, Some("Polling disabled".to_string()));
}

#[test]
fn polled_cells_run_once_per_interval() {
    let mut a = app_with(3);
    a.cells[1].polling_interval = Some(1);
    a.cells[2].polling_interval = Some(10);
    a.cells[2].last_run = Some(995);
    assert_eq!(a.check_polling_at(1000), vec![1]);
    assert_eq!(a.cells[1].last_run, Some(1000));
    assert_eq!(a.check_polling_at(1000), Vec::<usize>::new());
    assert_eq!(a.check_polling_at(1001), vec![1]);
    assert_eq!(a.check_polling_at(1005), vec![1, 2]);
    assert_eq!(a.cells[2].last_run, Some(1005));
}

#[test]
fn command_line_settings() {
    let mut a = app_with(1);
    press(&mut a, ":editor nano");
    let e = a.handle_key(Key::Enter);
    assert!(matches!(e, Effect::SaveConfig));
    assert_eq!(a.editor, "nano");
    assert_eq!(a.status_message, Some("Editor set to nano".to_string()));
    press(&mut a, ":colorscheme ansi");
    a.handle_key(Key::Enter);
    assert_eq!(a.colorscheme, "ansi");
    press(&mut a, ":cozy");
    a.handle_key(Key::Enter);
    assert_eq!(a.display_mode, "cozy");
    press(&mut a, ":color 300");
    a.handle_key(Key::Enter);
    assert_eq!(a.status_message, Some("Invalid color index".to_string()));
}

#[test]
fn save_as_names_a_markdown_file() {
    let mut a = app_with(1);
    press(&mut a, ":w notes");
    let e = a.handle_key(Key::Enter);
    assert!(matches!(e, Effect::SaveAs(ref n, false) if n == "notes.md"));
    let mut b = app_with(1);
    press(&mut b, ":ww notes.md");
    let e = b.handle_key(Key::Enter);
    assert!(matches!(e, Effect::SaveAs(ref n, true) if n == "notes.md"));
}

#[test]
fn settings_saved_and_taken_back() {
    let mut a = App::new("hx".to_string());
    a.display_mode = "cozy".to_string();
    let c = a.config_to_save(None);
    assert_eq!(c.editor, Some("hx".to_string()));
    assert_eq!(c.display_mode, Some("cozy".to_string()));
    assert_eq!(c.colorscheme, Some("pastel".to_string()));
    let mut b = App::new("vi".to_string());
    b.colorscheme = "ansi".to_string();
    b.apply_config(Some(c));
    assert_eq!(b.editor, "hx");
    assert_eq!(b.display_mode, "cozy");
    assert_eq!(b.colorscheme, "pastel");
    assert_eq!(b.accent_color, a.accent_color);
}

#[test]
fn polling_with_the_clock_stamps_due_cells() {
    let mut a = app_with(2);
    a.cells[1].polling_interval = Some(3600);
    let due = a.check_polling();
    assert_eq!(due, vec![1]);
    let stamp = a.cells[1].last_run.unwrap();
    assert!(stamp > 1_600_000_000);
    assert_eq!(a.check_polling(), Vec::<usize>::new());
}

fn file(path: &str, dir: bool) -> newts::state::FileItem {
    newts::state::FileItem {
        path: Some(path.to_string()),
        label: path.rsplit('/').next().unwrap().to_string(),
        is_header: false,
        is_app_file: false,
        is_directory: dir,
        is_expanded: false,
        depth: 0,
        parent_path: Some("/w".to_string()),
    }
}

fn with_sidebar() -> App {
    let mut a = app_with(2);
    a.show_sidebar = true;
    a.focus = Focus::Sidebar;
    a.available_files = vec![
        newts::state::FileItem {
            path: None,
            label: "w".to_string(),
            is_header: true,
            is_app_file: false,
            is_directory: false,
            is_expanded: false,
            depth: 0,
            parent_path: None,
        },
        file("/w/src", true),
        file("/w/a.md", false),
        file("/w/b.txt", false),
    ];
    a.file_selected = Some(0);
    a
}

#[test]
fn sidebar_keys_open_rename_delete_and_yank() {
    let mut a = with_sidebar();
    press(&mut a, "3j");
    assert_eq!(a.file_selected, Some(3));
    let e = a.handle_key(Key::Enter);
    assert!(matches!(e, Effect::OpenPath(ref p) if p == "/w/a.md"));
    press(&mut a, "y");
    assert_eq!(a.clipboard_file, Some("/w/a.md".to_string()));
    assert_eq!(a.status_message, Some("Yanked /w/a.md".to_string()));
    let e = a.handle_key(Key::Char('p'));
    assert!(matches!(e, Effect::PasteFile(ref p) if p == "/w/a.md"));
    press(&mut a, "r");
    assert_eq!(a.input_mode, InputMode::Renaming);
    assert_eq!(a.rename_input, "a.md");
    a.handle_key(Key::Backspace);
    a.handle_key(Key::Backspace);
    press(&mut a, "newt");
    let e = a.handle_key(Key::Enter);
    assert!(matches!(e, Effect::Rename(ref from, ref to) if from == "/w/a.md" && to == "a.newt"));
    assert_eq!(a.input_mode, InputMode::Normal);
    press(&mut a, "d");
    assert_eq!(a.input_mode, InputMode::ConfirmDelete);
    assert_eq!(a.command_input, "Remove /w/a.md? y/N: ");
    let e = a.handle_key(Key::Char('n'));
    assert!(matches!(e, Effect::Nothing));
    assert_eq!(a.status_message, Some("Delete cancelled".to_string()));
    press(&mut a, "d");
    let e = a.handle_key(Key::Char('y'));
    assert!(matches!(e, Effect::DeleteFile(ref p) if p == "/w/a.md"));
    a.report(newts::keys::Report::Deleted, &"/w/a.md".to_string());
    assert_eq!(a.status_message, Some("Deleted /w/a.md".to_string()));
}

#[test]
fn sidebar_folders_open_and_close() {
    let mut a = with_sidebar();
    press(&mut a, "2j");
    let e = a.handle_key(Key::Char('l'));
    assert!(matches!(e, Effect::RefreshFiles));
    assert_eq!(a.expanded_dirs, vec!["/w/src".to_string()]);
    a.available_files[1].is_expanded = true;
    let e = a.handle_key(Key::Char('h'));
    assert!(matches!(e, Effect::RefreshFiles));
    assert!(a.expanded_dirs.is_empty());
    press(&mut a, "gg");
    assert_eq!(a.file_selected, Some(0));
    a.handle_key(Key::Enter);
    assert_eq!(a.cells.len(), 1);
    assert_eq!(a.cells[0].content, "");
    assert_eq!(a.file_path, None);
    assert_eq!(a.focus, Focus::Editor);
}

#[test]
fn language_commands_and_run_all() {
    let mut a = app_with(3);
    a.selected = Some(1);
    press(&mut a, ":py");
    a.handle_key(Key::Enter);
    assert_eq!(a.cells[1].cell_type, CellType::Python);
    press(&mut a, ":color 42");
    a.handle_key(Key::Enter);
    assert_eq!(a.accent_color, newts::state::Color::Indexed(42));
    assert_eq!(a.status_message, Some("Accent color set to 42".to_string()));
    press(&mut a, ":ra");
    let e = a.handle_key(Key::Enter);
    assert!(matches!(e, Effect::RunAll(ref v) if *v == vec![0, 1, 2]));
    assert!(a.is_running(1));
    a.task_finished(1, "done".to_string());
    assert!(!a.is_running(1));
    assert_eq!(a.cells[1].output, "done");
}

#[test]
fn quitting_a_changed_notebook_asks_for_a_save() {
    let mut a = app_with(1);
    a.file_path = Some("/w/n.md".to_string());
    a.dirty = true;
    press(&mut a, ":q");
    let e = a.handle_key(Key::Enter);
    assert!(matches!(e, Effect::Nothing));
    assert_eq!(
        a.status_message,
        Some("E37: No write since last change (add ! to override)".to_string())
    );
    press(&mut a, ":q!");
    assert!(matches!(a.handle_key(Key::Enter), Effect::Quit));
    let mut b = app_with(1);
    b.dirty = true;
    b.cells[0].content = "  ".to_string();
    press(&mut b, ":q");
    assert!(matches!(b.handle_key(Key::Enter), Effect::Quit));
    let mut c = app_with(1);
    c.file_path = Some("/w/n.md".to_string());
    press(&mut c, ":export");
    assert!(matches!(c.handle_key(Key::Enter), Effect::Export(ref p) if p == "/w/n.md"));
    press(&mut c, ":wq");
    assert!(matches!(c.handle_key(Key::Enter), Effect::SaveQuit));
}

#[test]
fn output_view_and_full_editor_keys() {
    let mut a = app_with(2);
    let e = a.handle_key(Key::Char('I'));
    assert!(matches!(e, Effect::ViewOutput(0)));
    assert_eq!(a.status_message, Some("Output viewed (changes discarded)".to_string()));
    let e = a.handle_key(Key::Char('f'));
    assert!(matches!(e, Effect::EditCell(0)));
    let e = a.handle_key(Key::Char('Y'));
    assert!(matches!(e, Effect::CopyText(ref s, Yank::Output) if s.is_empty()));
    a.report_yank(Yank::Output, newts::keys::Clipboard::Unavailable);
    assert_eq!(a.status_message, Some("Output yanked (system clipboard unavailable)".to_string()));
}

#[test]
fn a_named_notebook_that_does_not_exist_keeps_its_path() {
    let mut a = App::new("vi".to_string());
    a.start_named("plans.md".to_string(), None, None);
    assert_eq!(a.file_path, Some("plans.md".to_string()));
    assert_eq!(a.cells.len(), 1);
    assert_eq!(a.cells[0].cell_type, CellType::Shell);
    assert_eq!(a.cells[0].content, "");
    assert_eq!(a.selected, Some(0));
    assert_eq!(a.input_mode, InputMode::Editing);
    assert!(!a.dirty);
}

#[test]
fn a_named_markdown_notebook_opens_at_its_first_cell() {
    let mut a = App::new("vi".to_string());
    let text = "```py\nx = 1\n```\n```sh\nls\n```\n".to_string();
    a.start_named("work.md".to_string(), Some(text), None);
    assert_eq!(a.file_path, Some("work.md".to_string()));
    assert_eq!(a.cells.len(), 2);
    assert_eq!(a.cells[0].cell_type, CellType::Python);
    assert_eq!(a.cells[0].content, "x = 1");
    assert_eq!(a.selected, Some(0));
    assert_eq!(a.input_mode, InputMode::Normal);
    assert!(!a.dirty);
}

#[test]
fn a_named_json_notebook_opens_from_its_cells() {
    let mut a = App::new("vi".to_string());
    a.start_named("work.newt".to_string(), Some("[]".to_string()), Some(vec![shell("pwd")]));
    assert_eq!(a.cells.len(), 1);
    assert_eq!(a.cells[0].content, "pwd");
    assert_eq!(a.input_mode, InputMode::Editing);
    assert_eq!(a.shell_cursor, 3);
}

#[test]
fn an_empty_name_opens_nothing() {
    let mut a = App::new("vi".to_string());
    a.start_named(String::new(), None, None);
    assert_eq!(a.file_path, None);
    assert_eq!(a.cells.len(), 1);
}

#[test]
fn start_candidates_open_by_extension() {
    let mut a = App::new("vi".to_string());
    assert!(!a.try_start_candidate("a.md".to_string(), None, None));
    assert!(!a.try_start_candidate("b.newt".to_string(), Some("not json".to_string()), None));
    assert_eq!(a.cells.len(), 0);
    assert_eq!(a.file_path, None);
    assert!(a.try_start_candidate("c.md".to_string(), Some("Notes".to_string()), None));
    assert_eq!(a.file_path, Some("c.md".to_string()));
    assert_eq!(a.cells.len(), 1);
    assert_eq!(a.cells[0].cell_type, CellType::Markdown);
    assert_eq!(a.input_mode, InputMode::Normal);
    let mut b = App::new("vi".to_string());
    assert!(b.try_start_candidate("d.newt".to_string(), Some("[]".to_string()), Some(vec![shell("ls")])));
    assert_eq!(b.cells[0].content, "ls");
}

#[test]
fn notebook_cells_prefer_json() {
    let cells = newts::state::notebook_cells("Heading", Some(vec![shell("ls")]));
    assert_eq!(cells[0].content, "ls");
    let cells = newts::state::notebook_cells("Heading", None);
    assert_eq!(cells[0].cell_type, CellType::Markdown);
    assert_eq!(cells[0].content, "Heading");
}
