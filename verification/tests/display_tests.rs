use newts::colors::{rgb_to_ansi_color, rgb_to_pastel_color, span_color, syntax_name};
use newts::cursor::{next_char_boundary, prev_char_boundary, utf8_width_of};
use newts::notebook::{Cell, CellType};
use newts::scripts::{
    cpp_script, joined_source, python_packages, python_source, python_wrapper, rust_script,
    split_display, split_words, uv_packages, DISPLAY_END, DISPLAY_START,
};
use newts::search::SearchState;
use newts::state::{App, Color, FileItem, Focus, InputMode};
use newts::view::{
    cell_header, list_offset, output_lines, preview_line, search_prompt, sidebar_label,
    status_bar,
};

#[test]
fn ansi_colors_by_grey_level_and_hue() {
    assert_eq!(rgb_to_ansi_color(0, 0, 0), Color::DarkGray);
    assert_eq!(rgb_to_ansi_color(128, 128, 128), Color::Gray);
    assert_eq!(rgb_to_ansi_color(250, 250, 250), Color::White);
    assert_eq!(rgb_to_ansi_color(200, 30, 30), Color::Red);
    assert_eq!(rgb_to_ansi_color(255, 150, 150), Color::LightRed);
    assert_eq!(rgb_to_ansi_color(20, 180, 20), Color::Green);
    assert_eq!(rgb_to_ansi_color(30, 30, 200), Color::Blue);
    assert_eq!(rgb_to_ansi_color(150, 150, 30), Color::Yellow);
    assert_eq!(rgb_to_ansi_color(200, 200, 30), Color::LightYellow);
    assert_eq!(rgb_to_ansi_color(150, 30, 150), Color::Magenta);
    assert_eq!(rgb_to_ansi_color(30, 150, 150), Color::Cyan);
    assert_eq!(rgb_to_ansi_color(150, 255, 255), Color::LightCyan);
}

#[test]
fn pastel_colors_by_grey_level_and_hue() {
    assert_eq!(rgb_to_pastel_color(10, 10, 10), Color::Indexed(244));
    assert_eq!(rgb_to_pastel_color(128, 128, 128), Color::Indexed(250));
    assert_eq!(rgb_to_pastel_color(240, 240, 240), Color::Indexed(253));
    assert_eq!(rgb_to_pastel_color(200, 30, 30), Color::Indexed(211));
    assert_eq!(rgb_to_pastel_color(255, 150, 150), Color::Indexed(217));
    assert_eq!(rgb_to_pastel_color(30, 30, 200), Color::Indexed(117));
    assert_eq!(span_color(200, 30, 30, true), Color::Indexed(211));
    assert_eq!(span_color(200, 30, 30, false), Color::Red);
}

#[test]
fn highlighter_syntax_names() {
    assert_eq!(syntax_name(CellType::Rust), Some("Rust"));
    assert_eq!(syntax_name(CellType::Python), Some("Python"));
    assert_eq!(syntax_name(CellType::Markdown), None);
}

#[test]
fn utf8_widths_and_boundaries() {
    assert_eq!(utf8_width_of('a'), 1);
    assert_eq!(utf8_width_of('é'), 2);
    assert_eq!(utf8_width_of('€'), 3);
    assert_eq!(utf8_width_of('😀'), 4);
    let t = "aé€";
    assert_eq!(next_char_boundary(t, 0), 1);
    assert_eq!(next_char_boundary(t, 1), 3);
    assert_eq!(next_char_boundary(t, 3), 6);
    assert_eq!(next_char_boundary(t, 9), 6);
    assert_eq!(prev_char_boundary(t, 6), 3);
    assert_eq!(prev_char_boundary(t, 3), 1);
    assert_eq!(prev_char_boundary(t, 1), 0);
    assert_eq!(prev_char_boundary(t, 0), 0);
    assert_eq!(prev_char_boundary(t, 40), 3);
}

#[test]
fn search_is_smart_case() {
    let mut s = SearchState::new();
    s.query = "echo".to_string();
    assert!(!s.has_uppercase());
    assert!(s.matches_pattern("ECHO hi"));
    s.query = "Echo".to_string();
    assert!(s.has_uppercase());
    assert!(!s.matches_pattern("echo hi"));
    assert!(s.matches_pattern("say Echo"));
    s.clear();
    assert_eq!(s.query, "");
    assert!(s.matches.is_empty());
    assert_eq!(s.current_match, None);
}

fn cell(t: CellType, interval: Option<u64>, last: Option<u64>) -> Cell {
    Cell {
        id: "i".to_string(),
        content: String::new(),
        output: String::new(),
        cell_type: t,
        polling_interval: interval,
        last_run: last,
    }
}

#[test]
fn cell_headers_show_the_countdown() {
    assert_eq!(cell_header(&cell(CellType::Cpp, None, None), 100), "[C++]");
    assert_eq!(cell_header(&cell(CellType::Shell, Some(60), Some(100)), 130), "[Shell] Executing in 30s...");
    assert_eq!(cell_header(&cell(CellType::Shell, Some(60), Some(100)), 160), "[Shell] Executing...");
    assert_eq!(cell_header(&cell(CellType::Go, Some(5), None), 0), "[Go] Executing...");
}

#[test]
fn markdown_preview_lines() {
    assert_eq!(preview_line(&"# Title".to_string()), (1, "# Title".to_string()));
    assert_eq!(preview_line(&"## Sub".to_string()), (2, "## Sub".to_string()));
    assert_eq!(preview_line(&"### S".to_string()), (3, "### S".to_string()));
    assert_eq!(preview_line(&"- item".to_string()), (4, "  • item".to_string()));
    assert_eq!(preview_line(&"* item".to_string()), (4, "  • item".to_string()));
    assert_eq!(preview_line(&"plain".to_string()), (0, "plain".to_string()));
}

#[test]
fn output_excerpt_keeps_ten_lines() {
    let short = output_lines(&"a\nb".to_string(), true);
    assert_eq!(short, vec![">>  a".to_string(), ">>  b".to_string()]);
    let cozy = output_lines(&"a".to_string(), false);
    assert_eq!(cozy, vec!["     a".to_string()]);
    let long: Vec<String> = (0..12).map(|i| i.to_string()).collect();
    let shown = output_lines(&long.join("\n"), true);
    assert_eq!(shown.len(), 11);
    assert_eq!(shown[9], ">>  9");
    assert_eq!(shown[10], ">>  .....");
}

fn item(path: &str, label: &str, header: bool, dir: bool, open: bool, depth: usize) -> FileItem {
    FileItem {
        path: if path.is_empty() { None } else { Some(path.to_string()) },
        label: label.to_string(),
        is_header: header,
        is_app_file: false,
        is_directory: dir,
        is_expanded: open,
        depth,
        parent_path: None,
    }
}

#[test]
fn sidebar_labels() {
    assert_eq!(sidebar_label(&item("", "Notebooks", true, false, false, 0)), "--- Notebooks ---");
    assert_eq!(sidebar_label(&item("/w/src", "src", false, true, true, 1)), "  ▾ src");
    assert_eq!(sidebar_label(&item("/w/src", "src", false, true, false, 0)), "▸ src");
    assert_eq!(sidebar_label(&item("/w/a/b.md", "b.md", false, false, false, 2)), "      b.md");
}

#[test]
fn search_prompt_counts_matches() {
    let mut s = SearchState::new();
    s.query = "ls".to_string();
    assert_eq!(search_prompt(&s), "/ls (no matches)");
    s.matches = vec![2, 5, 7];
    s.current_match = Some(1);
    assert_eq!(search_prompt(&s), "/ls (2/3)");
    s.current_match = None;
    assert_eq!(search_prompt(&s), "/ls (0/3)");
    s.query = String::new();
    s.matches = vec![];
    assert_eq!(search_prompt(&s), "/");
}

#[test]
fn status_bar_puts_position_at_the_right() {
    let mut a = App::new("vi".to_string());
    a.input_mode = InputMode::Normal;
    a.focus = Focus::Editor;
    for _ in 0..4 {
        a.cells.push(cell(CellType::Shell, None, None));
    }
    a.selected = Some(1);
    a.file_path = Some("/w/notes.md".to_string());
    assert_eq!(status_bar(&a, 20), "notes.md     50% < 2");
    a.file_path = None;
    a.status_message = Some("Saved".to_string());
    assert_eq!(status_bar(&a, 5), "Saved 50% < 2");
    a.focus = Focus::Sidebar;
    assert_eq!(status_bar(&a, 8), "Saved   ");
    assert_eq!(list_offset(0), 0);
    assert_eq!(list_offset(5), 4);
}

#[test]
fn display_block_is_cut_out_of_the_output() {
    let raw = format!("hello\n{}{{\"a\":1}}{}\nbye", DISPLAY_START, DISPLAY_END);
    let (out, json) = split_display(&raw);
    assert_eq!(out, "hello\n\nbye");
    assert_eq!(json, Some("{\"a\":1}".to_string()));
    let (plain, none) = split_display(&"just text".to_string());
    assert_eq!(plain, "just text");
    assert_eq!(none, None);
}

#[test]
fn words_and_packages() {
    assert_eq!(
        split_words(&"  pip  install\tnumpy \n".to_string()),
        vec!["pip".to_string(), "install".to_string(), "numpy".to_string()]
    );
    assert_eq!(
        uv_packages(&vec!["numpy".to_string(), "sklearn".to_string(), "os".to_string()]),
        vec!["numpy".to_string(), "sklearn".to_string()]
    );
}

#[test]
fn joined_and_python_sources() {
    assert_eq!(joined_source(&"b".to_string(), &Some("a".to_string())), "a\nb");
    assert_eq!(joined_source(&"b".to_string(), &None), "b");
    let p = python_source(&"print(x)".to_string(), &Some("x = 1".to_string()));
    assert!(p.contains("x = 1"));
    assert!(p.contains("print(x)"));
}

#[test]
fn rust_scripts_rename_an_earlier_main() {
    let p = rust_script(
        &"println!(\"hi\");".to_string(),
        &Some("fn main() { println!(\"a\"); }\nfn  main2() {}".to_string()),
    )
    .unwrap();
    assert_eq!(
        p,
        "fn main_ignored() { println!(\"a\"); }\nfn main_ignored2() {}\nfn main() {\nprintln!(\"hi\");\n}"
    );
    let q = rust_script(&"let x = 1;".to_string(), &None).unwrap();
    assert_eq!(q, "fn main() {\n\nlet x = 1;\n}");
    let r = rust_script(&"fn main() {}".to_string(), &Some("use std::io;".to_string())).unwrap();
    assert_eq!(r, "use std::io;\nfn main() {}");
}

#[test]
fn cpp_scripts_rename_every_earlier_main() {
    let p = cpp_script(
        &"std::cout << 1;".to_string(),
        &Some("int main() { return 1; }\nint main (){}".to_string()),
    )
    .unwrap();
    assert_eq!(
        p,
        "#include <iostream>\nint main_ignored() { return 1; }\nint main_ignored(){}\nint main() {\nstd::cout << 1;\nreturn 0;\n}"
    );
}

#[test]
fn python_imports_and_wrapper() {
    let src = "import numpy as np\nfrom os import path\nimport numpy\nx = 1\nfrom sklearn.linear_model import A\n".to_string();
    assert_eq!(
        python_packages(&src),
        Some(vec!["numpy".to_string(), "os".to_string(), "sklearn".to_string()])
    );
    let w = python_wrapper(&"C:\\out".to_string(), &"print(1)".to_string());
    assert!(w.contains("_newt_output_dir = \"C:\\\\out\""));
    assert!(w.contains("print(1)"));
}
