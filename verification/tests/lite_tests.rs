use newts::api::CommandResponse;
use newts::keys::Key;
use newts::lite::{plain_output, LiteApp, LiteEffect, LiteMode};
use newts::notebook::{Cell, CellType};
use newts::state::Focus;

fn started() -> LiteApp {
    let mut a = LiteApp::new();
    a.finish_start();
    a
}

fn cell(content: &str, t: CellType) -> Cell {
    Cell {
        id: "x".to_string(),
        content: content.to_string(),
        output: String::new(),
        cell_type: t,
        polling_interval: None,
        last_run: None,
    }
}

fn type_line(a: &mut LiteApp, s: &str) -> LiteEffect {
    for c in s.chars() {
        a.handle_key(Key::Char(c));
    }
    a.handle_key(Key::Enter)
}

#[test]
fn start_gives_one_shell_cell_open_for_typing() {
    let a = started();
    assert_eq!(a.cells.len(), 1);
    assert_eq!(a.cells[0].cell_type, CellType::Shell);
    assert_eq!(a.selected, Some(0));
    assert_eq!(a.input_mode, LiteMode::Editing);
}

#[test]
fn a_typed_line_runs_and_adds_the_next_cell() {
    let mut a = started();
    let e = type_line(&mut a, "ls");
    assert!(matches!(e, LiteEffect::Run(0)));
    assert_eq!(a.cells[0].content, "ls");
    assert_eq!(a.cells.len(), 2);
    assert_eq!(a.selected, Some(1));
    assert_eq!(a.input_mode, LiteMode::Editing);
    assert_eq!(a.input, "");
    let r = a.get_run_request(0).unwrap();
    assert_eq!(r.command, "ls");
    assert_eq!(r.language, None);
    assert_eq!(r.context, None);
}

#[test]
fn a_language_word_opens_the_editor() {
    let mut a = started();
    let e = type_line(&mut a, " py ");
    assert!(matches!(e, LiteEffect::EditFresh(0)));
    assert_eq!(a.cells[0].cell_type, CellType::Python);
    assert_eq!(a.cells[0].content, "");
    a.fresh_done(0, "print(1)\n".to_string());
    assert_eq!(a.cells[0].content, "print(1)\n");
    assert_eq!(a.input_mode, LiteMode::Normal);
}

#[test]
fn run_requests_carry_earlier_cells_of_the_language() {
    let mut a = LiteApp::new();
    a.open_loaded(
        vec![
            cell("x = 1", CellType::Python),
            cell("echo a", CellType::Shell),
            cell("y = 2", CellType::Python),
            cell("print(x + y)", CellType::Python),
        ],
        "/app/n.newt".to_string(),
    );
    let r = a.get_run_request(3).unwrap();
    assert_eq!(r.command, "print(x + y)");
    assert_eq!(r.language, Some("python".to_string()));
    assert_eq!(r.context, Some("x = 1\ny = 2\n".to_string()));
    assert_eq!(a.get_run_request(0).unwrap().context, None);
    assert!(a.get_run_request(4).is_none());
}

#[test]
fn normal_mode_keys() {
    let mut a = LiteApp::new();
    a.open_loaded(vec![cell("a", CellType::Shell), cell("fn f() {}", CellType::Rust)], "n.newt".to_string());
    assert_eq!(a.input_mode, LiteMode::Normal);
    a.handle_key(Key::Char('j'));
    assert_eq!(a.selected, Some(1));
    a.handle_key(Key::Char('j'));
    assert_eq!(a.selected, Some(1));
    assert!(matches!(a.handle_key(Key::Char('i')), LiteEffect::EditCell(1)));
    a.edited(1, "fn g() {}".to_string());
    assert_eq!(a.cells[1].content, "fn g() {}");
    assert!(matches!(a.handle_key(Key::Enter), LiteEffect::Run(1)));
    a.handle_key(Key::Char('k'));
    a.handle_key(Key::Char('i'));
    assert_eq!(a.input_mode, LiteMode::Editing);
    assert_eq!(a.input, "a");
    a.handle_key(Key::Esc);
    a.handle_key(Key::Char('o'));
    assert_eq!(a.cells.len(), 3);
    assert_eq!(a.selected, Some(1));
    a.handle_key(Key::Char('d'));
    assert_eq!(a.cells.len(), 2);
    assert_eq!(a.cells[1].content, "fn g() {}");
}

#[test]
fn deleting_the_only_cell_keeps_one() {
    let mut a = started();
    a.handle_key(Key::Esc);
    a.handle_key(Key::Char('d'));
    assert_eq!(a.cells.len(), 1);
    assert_eq!(a.input_mode, LiteMode::Editing);
}

#[test]
fn command_line_words() {
    let mut a = started();
    a.handle_key(Key::Esc);
    a.handle_key(Key::Char(':'));
    assert!(matches!(type_line(&mut a, "w"), LiteEffect::Save));
    assert_eq!(a.input_mode, LiteMode::Normal);
    a.handle_key(Key::Char(':'));
    assert!(matches!(type_line(&mut a, "export"), LiteEffect::Nothing));
    a.file_path = Some("/app/n.newt".to_string());
    a.handle_key(Key::Char(':'));
    assert!(matches!(type_line(&mut a, "export"), LiteEffect::Export(ref p) if p == "/app/n.newt"));
    a.handle_key(Key::Char(':'));
    assert!(matches!(type_line(&mut a, "ra"), LiteEffect::RunAll));
    a.handle_key(Key::Char(':'));
    assert!(matches!(type_line(&mut a, "wq"), LiteEffect::SaveQuit));
    a.handle_key(Key::Esc);
    a.handle_key(Key::Char(':'));
    assert!(matches!(type_line(&mut a, "q"), LiteEffect::Quit));
}

#[test]
fn sidebar_lists_notebooks_and_opens_them() {
    let mut a = started();
    a.handle_key(Key::Esc);
    a.handle_key(Key::Char(' '));
    assert!(matches!(a.handle_key(Key::Char('e')), LiteEffect::RefreshFiles));
    assert_eq!(a.focus, Focus::Sidebar);
    a.files_listed(vec![
        "/app/b.newt".to_string(),
        "/app/notes.md".to_string(),
        "/app/a.newt".to_string(),
    ]);
    assert_eq!(a.available_files, vec!["/app/a.newt".to_string(), "/app/b.newt".to_string()]);
    assert_eq!(a.file_selected, Some(0));
    a.handle_key(Key::Char('j'));
    a.handle_key(Key::Char('j'));
    a.handle_key(Key::Char('j'));
    assert_eq!(a.file_selected, Some(2));
    assert!(matches!(a.handle_key(Key::Enter), LiteEffect::OpenFile(ref p) if p == "/app/b.newt"));
    assert_eq!(a.focus, Focus::Editor);
    a.handle_key(Key::Char('h'));
    assert_eq!(a.focus, Focus::Sidebar);
    a.handle_key(Key::Char('k'));
    a.handle_key(Key::Char('k'));
    a.handle_key(Key::Enter);
    assert_eq!(a.cells.len(), 1);
    assert_eq!(a.file_path, None);
    assert_eq!(a.input_mode, LiteMode::Normal);
    assert_eq!(a.focus, Focus::Editor);
}

#[test]
fn replies_show_output_then_errors() {
    let r = CommandResponse {
        stdout: "out\n".to_string(),
        stderr: "err".to_string(),
        status: Some(1),
        display_data: None,
    };
    assert_eq!(plain_output(&r), "out\nerr");
}
