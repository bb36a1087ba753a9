use newts::files::{order_entries, restore_selection, server_entry, sidebar_entry};
use newts::markdown::{lang_name, parse_markdown, to_markdown};
use newts::notebook::{Cell, CellType};
use newts::numparse::{parse_i32, parse_u64, parse_u8, parse_usize};
use newts::paths::{copy_name_of, extension_of, file_name_of, is_notebook_path, with_md_of};
use newts::runner::{cells_to_run, cli_request};
use newts::terminal::{
    convert_terminal_to_markdown, detect_terminal_prompt, extract_command, markdown_path,
};

fn cell(content: &str, output: &str, t: CellType) -> Cell {
    Cell {
        id: "x".to_string(),
        content: content.to_string(),
        output: output.to_string(),
        cell_type: t,
        polling_interval: None,
        last_run: None,
    }
}

#[test]
fn markdown_written_then_read_gives_the_cells_back() {
    let cells = vec![
        cell("# Title\nSome text", "", CellType::Markdown),
        cell("echo hi", "hi\nthere", CellType::Shell),
        cell("Closing words", "", CellType::Markdown),
        cell("fn f() {}", "", CellType::Rust),
        cell("print(1)", "1", CellType::Python),
    ];
    let md = to_markdown(&cells);
    assert_eq!(
        md,
        "# Title\nSome text\n\n```bash\necho hi\n```\n>> hi\n>> there\n\nClosing words\n\n```rust\nfn f() {}\n```\n\n```python\nprint(1)\n```\n>> 1\n"
    );
    let back = parse_markdown(&md);
    assert_eq!(back.len(), cells.len());
    for (a, b) in back.iter().zip(cells.iter()) {
        assert_eq!(a.content, b.content);
        assert_eq!(a.output, b.output);
        assert_eq!(a.cell_type, b.cell_type);
    }
}

#[test]
fn markdown_after_two_code_cells_keeps_a_blank_line() {
    let cells = vec![
        cell("echo hi", "", CellType::Shell),
        cell("print(1)", "", CellType::Python),
        cell("Closing words", "", CellType::Markdown),
    ];
    let back = parse_markdown(&to_markdown(&cells));
    assert_eq!(back.len(), 3);
    assert_eq!(back[2].content, "\nClosing words");
}

#[test]
fn reading_fence_tags_and_outputs() {
    let cells = parse_markdown("Intro\n```py\nx = 1\n```\n>> 1\n```c++\nint y;\n```\n```weird\nls\n```\n");
    assert_eq!(cells.len(), 4);
    assert_eq!(cells[0].cell_type, CellType::Markdown);
    assert_eq!(cells[0].content, "Intro");
    assert_eq!(cells[1].cell_type, CellType::Python);
    assert_eq!(cells[1].content, "x = 1");
    assert_eq!(cells[1].output, "1");
    assert_eq!(cells[2].cell_type, CellType::Cpp);
    assert_eq!(cells[3].cell_type, CellType::Shell);
}

#[test]
fn reading_nothing_gives_one_empty_shell_cell() {
    let cells = parse_markdown("");
    assert_eq!(cells.len(), 1);
    assert_eq!(cells[0].cell_type, CellType::Shell);
    assert_eq!(cells[0].content, "");
}

#[test]
fn language_names() {
    assert_eq!(lang_name(CellType::Shell), "bash");
    assert_eq!(lang_name(CellType::Cpp), "cpp");
    assert_eq!(lang_name(CellType::TypeScript), "typescript");
    assert_eq!(lang_name(CellType::Markdown), "markdown");
}

#[test]
fn run_picks_code_cells_under_a_heading() {
    let cells = vec![
        cell("# Setup\nintro", "", CellType::Markdown),
        cell("echo a", "", CellType::Shell),
        cell("## Build", "", CellType::Markdown),
        cell("cargo build", "", CellType::Shell),
        cell("# Deploy", "", CellType::Markdown),
        cell("print(2)", "", CellType::Python),
    ];
    assert_eq!(cells_to_run(&cells, &None), vec![1, 3, 5]);
    assert_eq!(cells_to_run(&cells, &Some("setup".to_string())), vec![1, 3]);
    assert_eq!(cells_to_run(&cells, &Some("Build".to_string())), vec![3]);
    assert_eq!(cells_to_run(&cells, &Some("deploy".to_string())), vec![5]);
    assert_eq!(cells_to_run(&cells, &Some("missing".to_string())), Vec::<usize>::new());
}

#[test]
fn cli_requests_name_the_language() {
    let r = cli_request(&cell("print(1)", "", CellType::Python), &"nb.md".to_string()).unwrap();
    assert_eq!(r.command, "print(1)");
    assert_eq!(r.language, Some("python".to_string()));
    assert_eq!(r.client_type, Some("cli".to_string()));
    assert_eq!(r.notebook_path, Some("nb.md".to_string()));
    assert!(r.context.is_none());
    let s = cli_request(&cell("ls", "", CellType::Shell), &"nb.md".to_string()).unwrap();
    assert_eq!(s.language, None);
    assert!(cli_request(&cell("# x", "", CellType::Markdown), &"nb.md".to_string()).is_none());
}

#[test]
fn entries_directories_first_then_by_name() {
    let entries = vec![
        ("b.md".to_string(), false),
        ("zdir".to_string(), true),
        ("a.md".to_string(), false),
        ("adir".to_string(), true),
        ("B.md".to_string(), false),
    ];
    let sorted = order_entries(entries);
    let names: Vec<&str> = sorted.iter().map(|e| e.0.as_str()).collect();
    assert_eq!(names, vec!["adir", "zdir", "B.md", "a.md", "b.md"]);
}

#[test]
fn sidebar_hides_dotfiles_and_non_notebooks_of_the_app_dir() {
    let expanded = vec!["/w/src".to_string()];
    let dir = "/w".to_string();
    assert!(sidebar_entry(&("/w/.git".to_string(), true), &dir, 0, false, &expanded).is_none());
    assert!(sidebar_entry(&("/w/a.txt".to_string(), false), &dir, 0, true, &expanded).is_none());
    let item = sidebar_entry(&("/w/src".to_string(), true), &dir, 1, false, &expanded).unwrap();
    assert_eq!(item.label, "src");
    assert!(item.is_directory);
    assert!(item.is_expanded);
    assert_eq!(item.depth, 1);
    assert_eq!(item.parent_path, Some("/w".to_string()));
    let nb = server_entry(&("/w/n.newt".to_string(), false), 0, true, false, true, false, &expanded);
    assert!(nb.is_some());
    assert!(server_entry(&("/w/.newt".to_string(), true), 0, false, false, true, true, &expanded).is_some());
    assert!(server_entry(&("/w/.env".to_string(), false), 0, false, false, true, false, &expanded).is_none());
    assert!(server_entry(&("/w/.env".to_string(), false), 0, false, true, true, false, &expanded).is_some());
    assert!(server_entry(&("/w/target".to_string(), true), 0, false, false, true, true, &expanded).is_none());
}

#[test]
fn selection_is_kept_inside_the_list() {
    assert_eq!(restore_selection(Some(7), 3), Some(2));
    assert_eq!(restore_selection(Some(1), 3), Some(1));
    assert_eq!(restore_selection(None, 3), Some(0));
    assert_eq!(restore_selection(Some(4), 0), Some(0));
}

#[test]
fn paths_names_and_extensions() {
    assert_eq!(file_name_of("/a/b/c.md"), "c.md");
    assert_eq!(file_name_of("c.md"), "c.md");
    assert_eq!(extension_of("/a/b/c.tar.gz"), Some("gz".to_string()));
    assert_eq!(extension_of("/a/.bashrc"), None);
    assert_eq!(extension_of("/a/b"), None);
    assert!(is_notebook_path("/a/n.newt"));
    assert!(is_notebook_path("n.md"));
    assert!(!is_notebook_path("n.txt"));
    assert_eq!(with_md_of(&"notes".chars().collect()), "notes.md".chars().collect::<Vec<char>>());
    assert_eq!(with_md_of(&"n.newt".chars().collect()), "n.newt".chars().collect::<Vec<char>>());
    assert_eq!(copy_name_of("report", "md", 2), "report_copy2.md");
    assert_eq!(copy_name_of("Makefile", "", 1), "Makefile_copy1");
}

#[test]
fn numbers_read_like_std_parse() {
    assert_eq!(parse_u64("+42"), Some(42));
    assert_eq!(parse_u64("18446744073709551615"), Some(u64::MAX));
    assert_eq!(parse_u64("18446744073709551616"), None);
    assert_eq!(parse_u8("255"), Some(255));
    assert_eq!(parse_u8("256"), None);
    assert_eq!(parse_u8(" 1"), None);
    assert_eq!(parse_i32("-5"), Some(-5));
    assert_eq!(parse_i32("-2147483648"), Some(i32::MIN));
    assert_eq!(parse_i32("2147483648"), None);
    assert_eq!(parse_usize(""), None);
    assert_eq!(parse_usize("12a"), None);
}

#[test]
fn terminal_session_becomes_shell_cells() {
    let session = "rohan@mac ~ % ls\na.txt\nb.txt\n\nrohan@mac ~ % echo hi\nhi\n";
    let prompt = detect_terminal_prompt(session).unwrap();
    assert_eq!(prompt, "rohan");
    assert_eq!(extract_command("rohan@mac ~ % ls", &prompt), Some("ls".to_string()));
    assert_eq!(extract_command("a.txt", &prompt), None);
    assert_eq!(
        convert_terminal_to_markdown(session, &prompt),
        "```sh\nls\n```\n>> a.txt\n>> b.txt\n\n```sh\necho hi\n```\n>> hi\n\n"
    );
    assert_eq!(detect_terminal_prompt("\n\n"), None);
    assert_eq!(detect_terminal_prompt("$ ls\nx\n$ pwd\n"), Some("$ ".to_string()));
    assert_eq!(extract_command("$ pwd", "$ "), Some("pwd".to_string()));
    assert_eq!(markdown_path("session.txt"), "session.md");
    assert_eq!(markdown_path("log"), "log.md");
}
