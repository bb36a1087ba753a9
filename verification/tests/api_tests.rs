use newts::api::{
    deserialize_context, export_notebook, input_status, kernel_reply, marker_command,
    merge_config, output_text, read_marker, route_language, shell_reply, status_marker,
    task_failed, CommandResponse, Config, ContextValue, DisplayData, JsonValue, KernelOutcome,
    KernelResponse, Language, ShellOutcome,
};
use newts::notebook::{Cell, CellType, Notebook};

/// The `context` field of a request body, read the way the server reads it.
fn context_of_json(json: &str) -> Option<Vec<String>> {
    let v: serde_json::Value = serde_json::from_str(json).unwrap();
    let raw = match v.get("context") {
        Some(serde_json::Value::String(s)) => Some(ContextValue::Text(s.clone())),
        Some(serde_json::Value::Array(items)) => Some(ContextValue::List(
            items.iter().map(|i| i.as_str().unwrap().to_string()).collect(),
        )),
        _ => None,
    };
    deserialize_context(raw)
}

#[test]
fn test_command_request_deserialization() {
    // Case 1: Context is a list of strings (Normal case)
    let json = r#"{"command": "print(1)", "language": "python", "context": ["a=1"]}"#;
    assert_eq!(context_of_json(json), Some(vec!["a=1".to_string()]));

    // Case 2: Context is an empty string
    let json = r#"{"command": "print(1)", "language": "python", "context": ""}"#;
    assert_eq!(context_of_json(json), None);

    // Case 3: Context is a non-empty string (Backward compatibility)
    let json = r#"{"command": "print(1)", "language": "python", "context": "a=1"}"#;
    assert_eq!(context_of_json(json), Some(vec!["a=1".to_string()]));

    // Case 4: Context is null/missing
    let json = r#"{"command": "print(1)", "language": "python"}"#;
    assert_eq!(context_of_json(json), None);
}

#[test]
fn routes_each_language_name() {
    assert_eq!(route_language(&Some("rust".to_string())), Language::Rust);
    assert_eq!(route_language(&Some("python".to_string())), Language::Python);
    assert_eq!(route_language(&Some("javascript".to_string())), Language::JavaScript);
    assert_eq!(route_language(&Some("typescript".to_string())), Language::TypeScript);
    assert_eq!(route_language(&Some("c".to_string())), Language::C);
    assert_eq!(route_language(&Some("cpp".to_string())), Language::Cpp);
    assert_eq!(route_language(&Some("go".to_string())), Language::Go);
    assert_eq!(route_language(&Some("Rust".to_string())), Language::Shell);
    assert_eq!(route_language(&Some("bash".to_string())), Language::Shell);
    assert_eq!(route_language(&None), Language::Shell);
}

#[test]
fn kernel_replies_carry_report_or_error() {
    let ok = kernel_reply(KernelOutcome::Ran(Ok(KernelResponse {
        stdout: "42\n".to_string(),
        stderr: String::new(),
        status: Some(0),
        display_data: None,
    })));
    assert_eq!(ok.stdout, "42\n");
    assert_eq!(ok.status, Some(0));

    let failed = kernel_reply(KernelOutcome::Ran(Err("boom".to_string())));
    assert_eq!(failed.stderr, "Kernel execution failed: boom");
    assert_eq!(failed.stdout, "");
    assert_eq!(failed.status, Some(1));

    let missing = kernel_reply(KernelOutcome::Missing);
    assert_eq!(missing.stderr, "Kernel not initialized");
    assert_eq!(missing.status, Some(1));

    let locked = kernel_reply(KernelOutcome::Unavailable("poisoned".to_string()));
    assert_eq!(locked.stderr, "Failed to access kernel: poisoned");

    let join = task_failed(&"cancelled".to_string());
    assert_eq!(join.stderr, "Task join error: cancelled");
    assert_eq!(join.status, Some(1));
}

#[test]
fn shell_replies_for_each_outcome() {
    let blank = shell_reply(ShellOutcome::Blank);
    assert_eq!(blank.stdout, "");
    assert_eq!(blank.status, Some(0));

    let ran = shell_reply(ShellOutcome::Ran("hello\n".to_string(), 0));
    assert_eq!(ran.stdout, "hello\n");
    assert_eq!(ran.stderr, "");
    assert_eq!(ran.status, Some(0));

    let locked = shell_reply(ShellOutcome::Locked);
    assert_eq!(locked.stderr, "Failed to lock shell session mutex");
    assert_eq!(locked.status, Some(1));

    let none = shell_reply(ShellOutcome::NoSession("no bash".to_string()));
    assert_eq!(none.stderr, "no bash");

    let failed = shell_reply(ShellOutcome::Failed("eof".to_string(), "again".to_string()));
    assert_eq!(failed.stderr, "Shell session error: eof. Retry failed: again");

    let task = shell_reply(ShellOutcome::Task("join".to_string()));
    assert_eq!(task.stderr, "Shell task failed: join");
}

fn cell(content: &str, output: &str, t: CellType) -> Cell {
    Cell {
        id: "x".to_string(),
        content: content.to_string(),
        output: output.to_string(),
        cell_type: t,
        polling_interval: None,
        last_run: None,
    }
}

#[test]
fn export_numbers_code_cells_and_keeps_markdown() {
    let nb = Notebook {
        cells: vec![
            cell("# Title", "", CellType::Markdown),
            cell("echo hi", "hi", CellType::Shell),
            cell("print(1)", "", CellType::Python),
        ],
    };
    let r = export_notebook(&nb);
    assert_eq!(
        r.markdown,
        "# Newt Notebook Export\n\n# Title\n\n## Cell 2 (bash)\n```bash\necho hi\n```\n### Output\n```\nhi\n```\n\n## Cell 3 (python)\n```python\nprint(1)\n```\n\n"
    );
}

fn config(editor: Option<&str>, theme: Option<&str>, hidden: Option<bool>) -> Config {
    Config {
        theme: theme.map(|s| s.to_string()),
        editor: editor.map(|s| s.to_string()),
        display_mode: None,
        colorscheme: None,
        show_hidden_files: hidden,
        respect_gitignore: None,
        savequit: None,
    }
}

#[test]
fn merge_keeps_stored_settings_the_update_leaves_unset() {
    let stored = config(Some("vim"), Some("dark"), Some(true));
    let update = config(Some("nano"), None, None);
    let merged = merge_config(update, Some(stored));
    assert_eq!(merged.editor, Some("nano".to_string()));
    assert_eq!(merged.theme, Some("dark".to_string()));
    assert_eq!(merged.show_hidden_files, Some(true));

    let alone = merge_config(config(None, Some("light"), None), None);
    assert_eq!(alone.theme, Some("light".to_string()));
    assert_eq!(alone.editor, None);
}

#[test]
fn default_config_sets_nothing() {
    let c = Config::default();
    assert!(c.theme.is_none() && c.editor.is_none() && c.display_mode.is_none());
    assert!(c.colorscheme.is_none() && c.show_hidden_files.is_none());
    assert!(c.respect_gitignore.is_none() && c.savequit.is_none());
}

#[test]
fn output_text_adds_image_paths() {
    let r = CommandResponse {
        stdout: "out\n".to_string(),
        stderr: "err".to_string(),
        status: Some(0),
        display_data: Some(vec![
            DisplayData {
                data: vec![("image/png".to_string(), JsonValue::Str("/tmp/a.png".to_string()))],
                metadata: vec![],
            },
            DisplayData {
                data: vec![("text/plain".to_string(), JsonValue::Str("x".to_string()))],
                metadata: vec![],
            },
            DisplayData {
                data: vec![(
                    "image/svg+xml".to_string(),
                    JsonValue::Str("/tmp/b.svg".to_string()),
                )],
                metadata: vec![],
            },
            DisplayData {
                data: vec![("image/png".to_string(), JsonValue::Other("{}".to_string()))],
                metadata: vec![],
            },
        ]),
    };
    assert_eq!(output_text(&r), "out\nerr\n[Image: /tmp/a.png]\n[Image: /tmp/b.svg]");
}

#[test]
fn input_is_required_only_while_unanswered() {
    let waiting = input_status(true, false, "Enter: ".to_string());
    assert!(waiting.required);
    assert_eq!(waiting.prompt, "Enter: ");
    let answered = input_status(true, true, "Enter: ".to_string());
    assert!(!answered.required);
    assert_eq!(answered.prompt, "");
    let idle = input_status(false, false, "Enter: ".to_string());
    assert!(!idle.required);
}

#[test]
fn status_marker_lines_are_recognised() {
    let m = status_marker(7);
    assert_eq!(m, "__NEWT_STATUS_MARKER_7__");
    assert_eq!(marker_command(&m), "printf '\n__NEWT_STATUS_MARKER_7__%s\n' \"$?\"\n");
    assert_eq!(read_marker(&"__NEWT_STATUS_MARKER_7__0\n".to_string(), &m), Some(0));
    assert_eq!(read_marker(&"__NEWT_STATUS_MARKER_7__127\r\n".to_string(), &m), Some(127));
    assert_eq!(read_marker(&"__NEWT_STATUS_MARKER_7__-2".to_string(), &m), Some(-2));
    assert_eq!(read_marker(&"__NEWT_STATUS_MARKER_7__x\n".to_string(), &m), Some(1));
    assert_eq!(read_marker(&"hello\n".to_string(), &m), None);
}
