//! The notebook server's requests, replies and the decisions behind its
//! endpoints: which executor a request goes to, how kernel outcomes become
//! replies, how a notebook is exported, how a configuration update merges.
use vstd::prelude::*;
use crate::markdown::{lang_name, lang_of};
use crate::notebook::{Cell, CellText, CellType, Notebook, ExportResponse, texts};
use crate::text::{chars_of, decimal, decimal_of, equals_str, push_all, push_str, string_of};

verus! {

/// The text of an optional string.
pub open spec fn opt_str(o: Option<String>) -> Option<Seq<char>> {
    match o {
        Some(s) => Some(s@),
        None => None,
    }
}

/// The texts of a list of strings.
pub open spec fn strings(v: Seq<String>) -> Seq<Seq<char>> {
    Seq::new(v.len(), |i: int| v[i]@)
}

/// A request to run a cell.
pub struct CommandRequest {
    pub command: String,
    pub language: Option<String>,
    pub context: Option<Vec<String>>,
    pub client_type: Option<String>,
    pub notebook_path: Option<String>,
}

/// A JSON value as the replies carry it: a string, or any other value in
/// its JSON text.
pub enum JsonValue {
    Str(String),
    Other(String),
}

/// Rich output of a cell (an image, a table), keyed by MIME type.
pub struct DisplayData {
    pub data: Vec<(String, JsonValue)>,
    pub metadata: Vec<(String, JsonValue)>,
}

/// The reply to a run request.
pub struct CommandResponse {
    pub stdout: String,
    pub stderr: String,
    pub status: Option<i32>,
    pub display_data: Option<Vec<DisplayData>>,
}

/// What a kernel process reports for one run.
pub struct KernelResponse {
    pub stdout: String,
    pub stderr: String,
    pub status: Option<i32>,
    pub display_data: Option<Vec<DisplayData>>,
}

/// The `context` field of a request as it arrives: one string or a list.
pub enum ContextValue {
    Text(String),
    List(Vec<String>),
}

/// The context a request carries: an empty string means none, a single
/// string is a one-cell context.
pub fn deserialize_context(v: Option<ContextValue>) -> (r: Option<Vec<String>>)
    ensures
        match v {
            Some(ContextValue::Text(s)) => if s@.len() == 0 {
                r is None
            } else {
                r matches Some(l) && l@.len() == 1 && l@[0]@ == s@
            },
            Some(ContextValue::List(l)) => r matches Some(m) && m@ == l@,
            None => r is None,
        },
{
    match v {
        Some(ContextValue::Text(s)) => {
            if s.as_str().is_empty() {
                None
            } else {
                let mut l: Vec<String> = Vec::new();
                l.push(s);
                Some(l)
            }
        },
        Some(ContextValue::List(l)) => Some(l),
        None => None,
    }
}

// ---------------------------------------------------------------------------
// Routing and replies
// ---------------------------------------------------------------------------

/// The executor a request goes to.
#[derive(Clone, Copy, PartialEq, Eq, Structural, Debug)]
pub enum Language {
    Rust,
    Python,
    JavaScript,
    TypeScript,
    C,
    Cpp,
    Go,
    Shell,
}

/// Requests name their language in lower case; no name, or any other name,
/// runs in the shell.
pub open spec fn language_of(name: Option<Seq<char>>) -> Language {
    match name {
        Some(n) => if n == "rust"@ {
            Language::Rust
        } else if n == "python"@ {
            Language::Python
        } else if n == "javascript"@ {
            Language::JavaScript
        } else if n == "typescript"@ {
            Language::TypeScript
        } else if n == "c"@ {
            Language::C
        } else if n == "cpp"@ {
            Language::Cpp
        } else if n == "go"@ {
            Language::Go
        } else {
            Language::Shell
        },
        None => Language::Shell,
    }
}

/// The executor for a request's language.
pub fn route_language(language: &Option<String>) -> (l: Language)
    ensures
        l == language_of(opt_str(*language)),
{
    match language {
        Some(n) => {
            let v = chars_of(n.as_str());
            if crate::text::equals_str(&v, "rust") {
                Language::Rust
            } else if crate::text::equals_str(&v, "python") {
                Language::Python
            } else if crate::text::equals_str(&v, "javascript") {
                Language::JavaScript
            } else if crate::text::equals_str(&v, "typescript") {
                Language::TypeScript
            } else if crate::text::equals_str(&v, "c") {
                Language::C
            } else if crate::text::equals_str(&v, "cpp") {
                Language::Cpp
            } else if crate::text::equals_str(&v, "go") {
                Language::Go
            } else {
                Language::Shell
            }
        },
        None => Language::Shell,
    }
}

/// How a request to a kernel went.
pub enum KernelOutcome {
    /// The kernel could not be reached (its lock or its start failed).
    Unavailable(String),
    /// The kernel slot was still empty.
    Missing,
    /// The kernel ran the code, or reported why it could not.
    Ran(Result<KernelResponse, String>),
}

/// A reply that carries only an error text and status 1.
pub open spec fn is_failure(r: CommandResponse, text: Seq<char>) -> bool {
    r.stdout@.len() == 0 && r.stderr@ == text && r.status == Some(1i32) && r.display_data is None
}

/// The reply for a kernel outcome: the kernel's own report when it ran,
/// an error text with status 1 otherwise.
pub fn kernel_reply(outcome: KernelOutcome) -> (r: CommandResponse)
    ensures
        match outcome {
            KernelOutcome::Ran(Ok(k)) => r.stdout == k.stdout && r.stderr == k.stderr && r.status
                == k.status && r.display_data == k.display_data,
            KernelOutcome::Ran(Err(e)) => is_failure(r, "Kernel execution failed: "@ + e@),
            KernelOutcome::Missing => is_failure(r, "Kernel not initialized"@),
            KernelOutcome::Unavailable(e) => is_failure(r, "Failed to access kernel: "@ + e@),
        },
{
    match outcome {
        KernelOutcome::Ran(Ok(k)) => CommandResponse {
            stdout: k.stdout,
            stderr: k.stderr,
            status: k.status,
            display_data: k.display_data,
        },
        KernelOutcome::Ran(Err(e)) => failure_with("Kernel execution failed: ", &e),
        KernelOutcome::Missing => {
            let m = chars_of("Kernel not initialized");
            failure_text(&m)
        },
        KernelOutcome::Unavailable(e) => failure_with("Failed to access kernel: ", &e),
    }
}

fn failure_text(text: &Vec<char>) -> (r: CommandResponse)
    ensures
        is_failure(r, text@),
{
    CommandResponse {
        stdout: String::new(),
        stderr: string_of(text),
        status: Some(1),
        display_data: None,
    }
}

fn failure_with(head: &str, detail: &String) -> (r: CommandResponse)
    ensures
        is_failure(r, head@ + detail@),
{
    let mut m = chars_of(head);
    push_str(&mut m, detail.as_str());
    failure_text(&m)
}

/// The reply when the blocking task that ran a kernel could not be joined.
pub fn task_failed(detail: &String) -> (r: CommandResponse)
    ensures
        is_failure(r, "Task join error: "@ + detail@),
{
    failure_with("Task join error: ", detail)
}

/// How a shell command went.
pub enum ShellOutcome {
    /// Nothing to run: the command is blank.
    Blank,
    /// The session lock failed.
    Locked,
    /// No session could be started.
    NoSession(String),
    /// The command ran (perhaps after a restart) with this output and status.
    Ran(String, i32),
    /// The command failed, and so did the retry in a fresh session.
    Failed(String, String),
    /// The task running the command could not be joined.
    Task(String),
}

/// Whether a shell command is blank (only white space), so that nothing
/// runs and the reply is an empty success.
pub fn shell_is_blank(command: &String) -> (b: bool)
    ensures
        b == (crate::text::trim(command@).len() == 0),
{
    crate::text::is_blank(&chars_of(command.as_str()))
}

/// A shell command's first run in the session: its output and status end
/// the request; its error means the session is dropped and the command is
/// retried once in a fresh one (`Err` with the first error kept).
pub fn shell_first_run(result: Result<(String, i32), String>) -> (r: Result<ShellOutcome, String>)
    ensures
        match result {
            Ok((out, st)) => r == Ok::<ShellOutcome, String>(ShellOutcome::Ran(out, st)),
            Err(e) => r == Err::<ShellOutcome, String>(e),
        },
{
    match result {
        Ok((out, st)) => Ok(ShellOutcome::Ran(out, st)),
        Err(e) => Err(e),
    }
}

/// The retry in a fresh session: its output and status, or both errors.
pub fn shell_retry(first_error: String, result: Result<(String, i32), String>) -> (r: ShellOutcome)
    ensures
        match result {
            Ok((out, st)) => r == ShellOutcome::Ran(out, st),
            Err(e) => r == ShellOutcome::Failed(first_error, e),
        },
{
    match result {
        Ok((out, st)) => ShellOutcome::Ran(out, st),
        Err(e) => ShellOutcome::Failed(first_error, e),
    }
}

/// The reply for a shell outcome.
pub fn shell_reply(outcome: ShellOutcome) -> (r: CommandResponse)
    ensures
        match outcome {
            ShellOutcome::Blank => r.stdout@.len() == 0 && r.stderr@.len() == 0 && r.status
                == Some(0i32) && r.display_data is None,
            ShellOutcome::Locked => is_failure(r, "Failed to lock shell session mutex"@),
            ShellOutcome::NoSession(e) => is_failure(r, e@),
            ShellOutcome::Ran(out, st) => r.stdout == out && r.stderr@.len() == 0 && r.status
                == Some(st) && r.display_data is None,
            ShellOutcome::Failed(a, b) => is_failure(
                r,
                "Shell session error: "@ + a@ + ". Retry failed: "@ + b@,
            ),
            ShellOutcome::Task(e) => is_failure(r, "Shell task failed: "@ + e@),
        },
{
    match outcome {
        ShellOutcome::Blank => CommandResponse {
            stdout: String::new(),
            stderr: String::new(),
            status: Some(0),
            display_data: None,
        },
        ShellOutcome::Locked => {
            let m = chars_of("Failed to lock shell session mutex");
            failure_text(&m)
        },
        ShellOutcome::NoSession(e) => {
            let m = chars_of(e.as_str());
            failure_text(&m)
        },
        ShellOutcome::Ran(out, st) => CommandResponse {
            stdout: out,
            stderr: String::new(),
            status: Some(st),
            display_data: None,
        },
        ShellOutcome::Failed(a, b) => {
            let mut m = chars_of("Shell session error: ");
            push_str(&mut m, a.as_str());
            push_str(&mut m, ". Retry failed: ");
            push_str(&mut m, b.as_str());
            failure_text(&m)
        },
        ShellOutcome::Task(e) => failure_with("Shell task failed: ", &e),
    }
}

// ---------------------------------------------------------------------------
// Export
// ---------------------------------------------------------------------------

/// One cell of an export: markdown as it is; a code cell under a numbered
/// heading, fenced, with its output in a block of its own when it has one.
pub open spec fn export_cell(i: int, c: CellText) -> Seq<char> {
    if c.kind == CellType::Markdown {
        c.content + "\n\n"@
    } else {
        "## Cell "@ + decimal((i + 1) as nat) + " ("@ + lang_of(c.kind) + ")\n```"@ + lang_of(c.kind)
            + "\n"@ + c.content + "\n```\n"@ + (if c.output.len() > 0 {
            "### Output\n```\n"@ + c.output + "\n```\n"@
        } else {
            Seq::<char>::empty()
        }) + "\n"@
    }
}

pub open spec fn export_cells(cs: Seq<CellText>, n: int) -> Seq<char>
    decreases n,
{
    if n <= 0 {
        Seq::<char>::empty()
    } else {
        export_cells(cs, n - 1) + export_cell(n - 1, cs[n - 1])
    }
}

/// The export of a notebook: a title, then every cell.
pub open spec fn export_spec(cs: Seq<CellText>) -> Seq<char> {
    "# Newt Notebook Export\n\n"@ + export_cells(cs, cs.len() as int)
}

fn push_export_cell(out: &mut Vec<char>, i: usize, cell: &Cell)
    requires
        i < usize::MAX,
    ensures
        final(out)@ == old(out)@ + export_cell(i as int, cell.text()),
{
    let ghost before = out@;
    if cell.cell_type == CellType::Markdown {
        push_str(out, cell.content.as_str());
        push_str(out, "\n\n");
    } else {
        let lang = lang_name(cell.cell_type);
        push_str(out, "## Cell ");
        push_all(out, &decimal_of(i + 1));
        push_str(out, " (");
        push_str(out, lang);
        push_str(out, ")\n```");
        push_str(out, lang);
        push_str(out, "\n");
        push_str(out, cell.content.as_str());
        push_str(out, "\n```\n");
        let ghost mid = out@;
        if !cell.output.as_str().is_empty() {
            push_str(out, "### Output\n```\n");
            push_str(out, cell.output.as_str());
            push_str(out, "\n```\n");
        }
        assert(out@ =~= mid + (if cell.output@.len() > 0 {
            "### Output\n```\n"@ + cell.output@ + "\n```\n"@
        } else {
            Seq::<char>::empty()
        }));
        push_str(out, "\n");
    }
    assert(out@ =~= before + export_cell(i as int, cell.text()));
}

/// Renders a notebook as a markdown report.
pub fn export_notebook(notebook: &Notebook) -> (r: ExportResponse)
    ensures
        r.markdown@ == export_spec(texts(notebook.cells@)),
{
    let cells = &notebook.cells;
    let ghost cs = texts(cells@);
    let mut out = chars_of("# Newt Notebook Export\n\n");
    let ghost head = out@;
    let mut i: usize = 0;
    while i < cells.len()
        invariant
            cs == texts(cells@),
            i <= cells.len(),
            out@ == head + export_cells(cs, i as int),
        decreases cells.len() - i,
    {
        let cell = &cells[i];
        assert(cs[i as int] == cell.text());
        push_export_cell(&mut out, i, cell);
        i = i + 1;
    }
    ExportResponse { markdown: string_of(&out) }
}

// ---------------------------------------------------------------------------
// Configuration
// ---------------------------------------------------------------------------

/// The settings kept in `config.json`; an absent field is unset.
pub struct Config {
    pub theme: Option<String>,
    pub editor: Option<String>,
    pub display_mode: Option<String>,
    pub colorscheme: Option<String>,
    pub show_hidden_files: Option<bool>,
    pub respect_gitignore: Option<bool>,
    pub savequit: Option<bool>,
}

impl Default for Config {
    /// Every setting unset.
    fn default() -> (c: Config)
        ensures
            c.theme is None,
            c.editor is None,
            c.display_mode is None,
            c.colorscheme is None,
            c.show_hidden_files is None,
            c.respect_gitignore is None,
            c.savequit is None,
    {
        Config {
            theme: None,
            editor: None,
            display_mode: None,
            colorscheme: None,
            show_hidden_files: None,
            respect_gitignore: None,
            savequit: None,
        }
    }
}

/// An update's value for a setting when it has one, else the stored one.
pub open spec fn keep<T>(new: Option<T>, stored: Option<T>) -> Option<T> {
    match new {
        Some(v) => Some(v),
        None => stored,
    }
}

fn keep_str(new: Option<String>, stored: Option<String>) -> (r: Option<String>)
    ensures
        r == keep(new, stored),
{
    match new {
        Some(v) => Some(v),
        None => stored,
    }
}

fn keep_bool(new: Option<bool>, stored: Option<bool>) -> (r: Option<bool>)
    ensures
        r == keep(new, stored),
{
    match new {
        Some(v) => Some(v),
        None => stored,
    }
}

/// The configuration a settings update stores: each setting the update
/// leaves unset keeps its stored value (when a stored configuration could
/// be read).
pub fn merge_config(update: Config, existing: Option<Config>) -> (c: Config)
    ensures
        match existing {
            Some(e) => {
                &&& c.theme == keep(update.theme, e.theme)
                &&& c.editor == keep(update.editor, e.editor)
                &&& c.display_mode == keep(update.display_mode, e.display_mode)
                &&& c.colorscheme == keep(update.colorscheme, e.colorscheme)
                &&& c.show_hidden_files == keep(update.show_hidden_files, e.show_hidden_files)
                &&& c.respect_gitignore == keep(update.respect_gitignore, e.respect_gitignore)
                &&& c.savequit == keep(update.savequit, e.savequit)
            },
            None => c == update,
        },
{
    match existing {
        Some(e) => Config {
            theme: keep_str(update.theme, e.theme),
            editor: keep_str(update.editor, e.editor),
            display_mode: keep_str(update.display_mode, e.display_mode),
            colorscheme: keep_str(update.colorscheme, e.colorscheme),
            show_hidden_files: keep_bool(update.show_hidden_files, e.show_hidden_files),
            respect_gitignore: keep_bool(update.respect_gitignore, e.respect_gitignore),
            savequit: keep_bool(update.savequit, e.savequit),
        },
        None => update,
    }
}

// ---------------------------------------------------------------------------
// What a cell shows of a reply
// ---------------------------------------------------------------------------

/// The first value stored under `key`.
pub open spec fn lookup(m: Seq<(String, JsonValue)>, key: Seq<char>) -> Option<JsonValue>
    decreases m.len(),
{
    if m.len() == 0 {
        None
    } else if m[0].0@ == key {
        Some(m[0].1)
    } else {
        lookup(m.drop_first(), key)
    }
}

/// The image path a display item names: its PNG entry, else its SVG entry,
/// when that entry is a string.
pub open spec fn image_of(d: DisplayData) -> Option<Seq<char>> {
    let v = match lookup(d.data@, "image/png"@) {
        Some(v) => Some(v),
        None => lookup(d.data@, "image/svg+xml"@),
    };
    match v {
        Some(JsonValue::Str(s)) => Some(s@),
        _ => None,
    }
}

/// An `[Image: ...]` line for every display item that names an image.
pub open spec fn image_lines(ds: Seq<DisplayData>, n: int) -> Seq<char>
    decreases n,
{
    if n <= 0 {
        Seq::<char>::empty()
    } else {
        image_lines(ds, n - 1) + match image_of(ds[n - 1]) {
            Some(p) => "\n[Image: "@ + p + "]"@,
            None => Seq::<char>::empty(),
        }
    }
}

/// The text a cell shows for a reply: standard output, then standard
/// error, then a line for each image.
pub open spec fn output_spec(r: CommandResponse) -> Seq<char> {
    r.stdout@ + r.stderr@ + match r.display_data {
        Some(ds) => image_lines(ds@, ds@.len() as int),
        None => Seq::<char>::empty(),
    }
}

fn lookup_in<'a>(m: &'a Vec<(String, JsonValue)>, key: &str) -> (r: Option<&'a JsonValue>)
    ensures
        match r {
            Some(v) => lookup(m@, key@) == Some(*v),
            None => lookup(m@, key@) is None,
        },
{
    let kv = chars_of(key);
    let mut i: usize = 0;
    assert(m@.skip(0) =~= m@);
    while i < m.len()
        invariant
            i <= m@.len(),
            kv@ == key@,
            lookup(m@, key@) == lookup(m@.skip(i as int), key@),
        decreases m@.len() - i,
    {
        assert(m@.skip(i as int)[0] == m@[i as int]);
        if crate::text::equals_vec(&chars_of(m[i].0.as_str()), &kv) {
            return Some(&m[i].1);
        }
        assert(m@.skip(i as int).drop_first() =~= m@.skip(i + 1));
        i = i + 1;
    }
    None
}

/// The text a cell shows for a reply.
pub fn output_text(r: &CommandResponse) -> (t: String)
    ensures
        t@ == output_spec(*r),
{
    let mut out = chars_of(r.stdout.as_str());
    push_str(&mut out, r.stderr.as_str());
    let ghost head = out@;
    match &r.display_data {
        Some(ds) => {
            let mut i: usize = 0;
            while i < ds.len()
                invariant
                    i <= ds@.len(),
                    out@ == head + image_lines(ds@, i as int),
                decreases ds@.len() - i,
            {
                let d = &ds[i];
                let v = match lookup_in(&d.data, "image/png") {
                    Some(v) => Some(v),
                    None => lookup_in(&d.data, "image/svg+xml"),
                };
                let ghost before = out@;
                match v {
                    Some(JsonValue::Str(p)) => {
                        push_str(&mut out, "\n[Image: ");
                        push_str(&mut out, p.as_str());
                        push_str(&mut out, "]");
                    },
                    _ => {},
                }
                assert(out@ =~= before + match image_of(ds@[i as int]) {
                    Some(p) => "\n[Image: "@ + p + "]"@,
                    None => Seq::<char>::empty(),
                });
                i = i + 1;
            }
        },
        None => {},
    }
    string_of(&out)
}

// ---------------------------------------------------------------------------
// Program input
// ---------------------------------------------------------------------------

/// Whether a program waits for input, and the prompt it shows.
pub struct InputStatusResponse {
    pub required: bool,
    pub prompt: String,
}

/// The text a user typed for a program waiting for input.
pub struct InputSubmitRequest {
    pub value: String,
}

/// A program waits for input while its request file exists and no answer
/// has been written yet; only then is its prompt passed on.
pub fn input_status(request_exists: bool, answer_exists: bool, prompt: String) -> (r: InputStatusResponse)
    ensures
        r.required == (request_exists && !answer_exists),
        r.required ==> r.prompt == prompt,
        !r.required ==> r.prompt@.len() == 0,
{
    if request_exists && !answer_exists {
        InputStatusResponse { required: true, prompt }
    } else {
        InputStatusResponse { required: false, prompt: String::new() }
    }
}

// ---------------------------------------------------------------------------
// The shell session's status marker
// ---------------------------------------------------------------------------

/// The marker that ends the output of the `n`-th command of a session.
pub open spec fn marker_spec(n: u64) -> Seq<char> {
    "__NEWT_STATUS_MARKER_"@ + decimal(n as nat) + "__"@
}

/// The marker that ends the output of the `n`-th command of a session.
pub fn status_marker(n: u64) -> (r: String)
    ensures
        r@ == marker_spec(n),
{
    let mut m = chars_of("__NEWT_STATUS_MARKER_");
    push_all(&mut m, &crate::text::decimal_u64(n));
    push_str(&mut m, "__");
    string_of(&m)
}

/// The shell line sent after a command: it prints a blank line, then the
/// marker followed by the command's exit status.
pub fn marker_command(marker: &String) -> (r: String)
    ensures
        r@ == "printf '\n"@ + marker@ + "%s\n' \"$?\"\n"@,
{
    let mut m = chars_of("printf '\n");
    push_str(&mut m, marker.as_str());
    push_str(&mut m, "%s\n' \"$?\"\n");
    string_of(&m)
}

/// `s` without the line breaks (`\r`, `\n`) at its end.
pub open spec fn strip_line_end(s: Seq<char>) -> Seq<char>
    decreases s.len(),
{
    if s.len() > 0 && (s.last() == '\r' || s.last() == '\n') {
        strip_line_end(s.drop_last())
    } else {
        s
    }
}

/// What a line read from the shell is: `Some(status)` when it is the
/// marker line (an unreadable status counts as 1), `None` for output.
pub open spec fn marker_status(line: Seq<char>, marker: Seq<char>) -> Option<int> {
    let t = strip_line_end(line);
    if crate::text::starts_with(t, marker) {
        match crate::numparse::parse_signed(
            crate::text::trim(t.skip(marker.len() as int)),
            i32::MIN as int,
            i32::MAX as nat,
        ) {
            Some(v) => Some(v),
            None => Some(1),
        }
    } else {
        None
    }
}

/// Reads a line of the shell's output against the marker.
pub fn read_marker(line: &String, marker: &String) -> (r: Option<i32>)
    ensures
        match r {
            Some(v) => marker_status(line@, marker@) == Some(v as int),
            None => marker_status(line@, marker@) is None,
        },
{
    let mut v = chars_of(line.as_str());
    while v.len() > 0 && (v[v.len() - 1] == '\r' || v[v.len() - 1] == '\n')
        invariant
            strip_line_end(v@) == strip_line_end(line@),
        decreases v.len(),
    {
        assert(strip_line_end(v@) == strip_line_end(v@.drop_last()));
        v.pop();
    }
    let m = chars_of(marker.as_str());
    if !crate::text::starts_with_vec(&v, &m) {
        return None;
    }
    let tail = crate::text::slice_of(&v, m.len(), v.len());
    assert(tail@ =~= v@.skip(m@.len() as int));
    let rest = crate::text::trimmed(&tail);
    match crate::numparse::parse_i32(string_of(&rest).as_str()) {
        Some(st) => Some(st),
        None => Some(1),
    }
}

} // verus!
