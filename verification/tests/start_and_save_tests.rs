use newts::api::{shell_first_run, shell_is_blank, shell_retry, ShellOutcome};
use newts::go_kernel::go_cell_code_with;
use newts::ids::new_cell_id;
use newts::notebook::{Cell, CellType};
use newts::kernel::{c_block_with, deps_from_captures};
use newts::paths::{
    default_notebook_name_of, is_newt_path, save_needs_md_extension, saves_as_markdown,
};

#[test]
fn blank_shell_commands_run_nothing() {
    assert!(shell_is_blank(&"  \t\n".to_string()));
    assert!(shell_is_blank(&String::new()));
    assert!(!shell_is_blank(&" ls ".to_string()));
}

#[test]
fn a_failed_shell_run_is_retried_once() {
    match shell_first_run(Ok(("out".to_string(), 3))) {
        Ok(ShellOutcome::Ran(o, s)) => {
            assert_eq!(o, "out");
            assert_eq!(s, 3);
        }
        _ => panic!("a successful run ends the request"),
    }
    match shell_first_run(Err("broken pipe".to_string())) {
        Err(e) => assert_eq!(e, "broken pipe"),
        _ => panic!("a failed run is retried"),
    }
    match shell_retry("broken pipe".to_string(), Ok(("ok".to_string(), 0))) {
        ShellOutcome::Ran(o, s) => {
            assert_eq!(o, "ok");
            assert_eq!(s, 0);
        }
        _ => panic!("the retry's output is the reply"),
    }
    match shell_retry("broken pipe".to_string(), Err("no shell".to_string())) {
        ShellOutcome::Failed(a, b) => {
            assert_eq!(a, "broken pipe");
            assert_eq!(b, "no shell");
        }
        _ => panic!("both errors are reported"),
    }
}

#[test]
fn save_names_and_formats() {
    assert_eq!(default_notebook_name_of(1), "notebook.md");
    assert_eq!(default_notebook_name_of(2), "notebook2.md");
    assert_eq!(default_notebook_name_of(12), "notebook12.md");
    assert!(save_needs_md_extension(true, "/home/u/notes"));
    assert!(save_needs_md_extension(true, "/home/u/notes.txt"));
    assert!(!save_needs_md_extension(true, "/home/u/notes.newt"));
    assert!(!save_needs_md_extension(false, "/home/u/notes.txt"));
    assert!(saves_as_markdown("/home/u/notes.md"));
    assert!(!saves_as_markdown("/home/u/notes.newt"));
    assert!(is_newt_path("/home/u/notes.newt"));
    assert!(!is_newt_path("/home/u/notes.md"));
}

#[test]
fn c_blocks_from_the_main_pattern() {
    assert_eq!(c_block_with("int main() { return 1; }", true, true, "unused"), "int main() { return 1; }");
    assert_eq!(c_block_with("int main() {}", false, true, "int main_ignored_0() {}"), "int main_ignored_0() {}");
    assert_eq!(c_block_with("printf(\"x\");", true, false, ""), "\nint main() {\nprintf(\"x\");\nreturn 0;\n}");
    assert_eq!(c_block_with("int x = 1;", false, false, ""), "int x = 1;");
}

#[test]
fn go_cells_from_the_main_pattern() {
    let mut decls = Vec::new();
    let mut body = Vec::new();
    go_cell_code_with(
        &"func main() {\n\tx := 1\n}".to_string(),
        0,
        false,
        true,
        &"func main_ignored_0() {\n\tx := 1\n}".to_string(),
        &mut decls,
        &mut body,
    );
    assert_eq!(decls.iter().collect::<String>(), "func main_ignored_0() {\n\tx := 1\n}\n");
    assert!(body.is_empty());
    go_cell_code_with(&"fmt.Println(1)".to_string(), 1, true, false, &String::new(), &mut decls, &mut body);
    assert_eq!(body.iter().collect::<String>(), "fmt.Println(1)\n");
}

#[test]
fn rust_dependencies_from_captures() {
    let uses = vec![
        Some("serde".to_string()),
        Some("std".to_string()),
        None,
        Some("serde".to_string()),
        Some("rand".to_string()),
    ];
    let decls = vec![Some("regex".to_string()), Some("rand".to_string())];
    assert_eq!(deps_from_captures(&uses, &decls), vec!["serde", "rand", "regex"]);
}

#[test]
fn cell_ids_are_hyphenated_uuids() {
    let id = new_cell_id();
    assert_eq!(id.len(), 36);
    for (i, c) in id.chars().enumerate() {
        if i == 8 || i == 13 || i == 18 || i == 23 {
            assert_eq!(c, '-');
        } else {
            assert!(c.is_ascii_hexdigit() && !c.is_ascii_uppercase());
        }
    }
    assert_ne!(new_cell_id(), id);
}

#[test]
fn boundaries_step_back_and_forth() {
    let text = "aé€b";
    let ends = [0usize, 1, 3, 6, 7];
    for w in ends.windows(2) {
        let (a, b) = (w[0], w[1]);
        assert_eq!(newts::cursor::next_char_boundary(text, a), b);
        assert_eq!(newts::cursor::prev_char_boundary(text, b), a);
        assert_eq!(newts::cursor::next_char_boundary(text, newts::cursor::prev_char_boundary(text, b)), b);
        assert_eq!(newts::cursor::prev_char_boundary(text, newts::cursor::next_char_boundary(text, a)), a);
    }
}

#[test]
fn a_cell_polled_every_second_is_due_at_each_poll() {
    let mut a = newts::state::App::new("vi".to_string());
    for (i, iv) in [None, Some(1u64), None].iter().enumerate() {
        a.cells.push(Cell {
            id: format!("{}", i),
            content: "echo line".to_string(),
            output: String::new(),
            cell_type: CellType::Shell,
            polling_interval: *iv,
            last_run: None,
        });
    }
    for t in [1000u64, 1001, 1002, 1003, 1004] {
        assert_eq!(a.check_polling_at(t), vec![1]);
    }
}

#[test]
fn an_empty_json_notebook_stays_empty() {
    let mut a = newts::state::App::new("vi".to_string());
    a.start_named("empty.newt".to_string(), Some("[]".to_string()), Some(Vec::new()));
    assert_eq!(a.cells.len(), 0);
    assert_eq!(a.file_path, Some("empty.newt".to_string()));
    assert_eq!(a.selected, Some(0));
    let mut b = newts::state::App::new("vi".to_string());
    assert!(b.try_start_candidate("e.newt".to_string(), Some("[]".to_string()), Some(Vec::new())));
    assert_eq!(b.cells.len(), 0);
}

#[test]
fn parsed_cells_get_fresh_ids() {
    let cells = newts::markdown::parse_markdown("Intro\n```py\nx = 1\n```\n");
    assert_eq!(cells.len(), 2);
    for c in &cells {
        assert_eq!(c.id.len(), 36);
        assert_eq!(c.id.chars().filter(|&ch| ch == '-').count(), 4);
    }
    assert_ne!(cells[0].id, cells[1].id);
}

#[test]
fn lower_case_queries_ignore_ascii_case() {
    let mut s = newts::search::SearchState::new();
    s.query = "readme".to_string();
    assert!(!s.has_uppercase());
    assert!(s.matches_pattern("README.md"));
    s.query = "ReadMe".to_string();
    assert!(s.has_uppercase());
    assert!(!s.matches_pattern("README.md"));
    assert!(s.matches_pattern("ReadMe.md"));
    s.is_smart_case = false;
    assert!(s.matches_pattern("README.md"));
}

#[test]
fn cell_bodies_and_padding() {
    assert_eq!(newts::view::body_lines(&String::new(), "     "), vec!["     (empty)"]);
    assert_eq!(newts::view::body_lines(&"a\nb\r\n".to_string(), "> "), vec!["> a", "> b"]);
    assert_eq!(newts::view::pad_width(40, 10, 8), 20);
    assert_eq!(newts::view::pad_width(12, 5, 5), 0);
    assert_eq!(newts::view::pad_width(12, 5, 6), 0);
}

#[test]
fn the_shell_line_splits_at_the_cursor() {
    let line = "héllo".to_string();
    let (a, b, c) = newts::view::cursor_split(&line, 1);
    assert_eq!((a.as_str(), b.as_str(), c.as_str()), ("h", "é", "llo"));
    let (a, b, c) = newts::view::cursor_split(&line, 2);
    assert_eq!((a.as_str(), b.as_str(), c.as_str()), ("héllo", " ", ""));
    let (a, b, c) = newts::view::cursor_split(&line, 99);
    assert_eq!((a.as_str(), b.as_str(), c.as_str()), ("héllo", " ", ""));
    let (a, b, c) = newts::view::cursor_split(&line, 0);
    assert_eq!((a.as_str(), b.as_str(), c.as_str()), ("", "h", "éllo"));
}
