//! The tools that ask language servers: what they take, which server answers, and
//! how the answer reads.
//!
//! A position is a path, a line and the text of a symbol on that line; the client
//! finds the column.

use crate::json::{lemma_model_of_array, lookup, models, Json, JsonView};
use crate::pathname::{file_name, file_name_of, join_path, joined, last_dot};
use crate::text::{
    ascii_lower, chars_of, contains_str, dec, join, join_strings, lower, opt_str_view, push_dec,
    str_eq, str_trim, string_of_range, strs, trim,
};
use vstd::prelude::*;

verus! {

pub const LSP_STATUS: &'static str = "lsp_status";

pub const LSP_ENSURE: &'static str = "lsp_ensure";

pub const LSP_WAIT_READY: &'static str = "lsp_wait_ready";

pub const GO_TO_DEFINITION: &'static str = "go_to_definition";

pub const FIND_REFERENCES: &'static str = "find_references";

pub const HOVER: &'static str = "hover";

pub const DOCUMENT_SYMBOLS: &'static str = "document_symbols";

pub const WORKSPACE_SYMBOLS: &'static str = "workspace_symbols";

pub const DIAGNOSTICS: &'static str = "diagnostics";

pub const LSP_STATUS_DESCRIPTION: &'static str =
    "Report the status of language servers (rust-analyzer/gopls/pyright/typescript-language-server) for the current project. Returns `not_started` (installed, not spawned yet — the default), `starting`, `ready`, `failed`, or `not_installed` per server. Cheap: does not spawn a server. Optional `language` filters to one. Use this before code-intel tools to decide whether to call lsp_ensure/lsp_wait_ready.";

pub const LSP_ENSURE_DESCRIPTION: &'static str =
    "Ensure a language server is spawned for the current project. Non-blocking: kicks off spawn+initialize in the background and returns `starting` immediately, or `ready`/`failed`/`not_installed`. Idempotent — call repeatedly. Pair with lsp_wait_ready when you need to block until ready. Code-intel tools (go_to_definition etc.) also ensure implicitly, so calling this is optional but lets you warm a server before first use.";

pub const LSP_WAIT_READY_DESCRIPTION: &'static str =
    "Block until a language server is ready (or the timeout elapses). Returns `ready`/`starting`(timed out, still indexing)/`failed`/`not_installed`. This is the explicit 'I decide to wait' entry point — lsp_ensure kicks off spawn non-blocking, then lsp_wait_ready blocks on it. Call before a burst of code-intel calls if you want them to hit a warm server.";

pub const GO_TO_DEFINITION_DESCRIPTION: &'static str =
    "Find where a symbol is defined (LSP textDocument/definition). Input: path + 1-indexed line + the symbol text on that line. Returns `path:line:col` triples (feed straight to read_file). Routes by file extension: .rs→rust-analyzer, .go→gopls, .py→pyright, .ts/.tsx/...→typescript-language-server. The server must be installed and warmed (lsp_ensure/lsp_wait_ready); returns an 'indexing, retry' note if not ready yet.";

pub const FIND_REFERENCES_DESCRIPTION: &'static str =
    "Find all references to a symbol (LSP textDocument/references). Semantically accurate — unlike grep, won't be swamped by same-name identifiers in other scopes. Input: path + 1-indexed line + symbol text. Returns `path:line:col` triples. include_declaration defaults true. Same routing/ready rules as go_to_definition.";

pub const HOVER_DESCRIPTION: &'static str =
    "Get hover info for a symbol (LSP textDocument/hover): type signature, doc comments. Input: path + 1-indexed line + symbol text. Returns markdown/plaintext, or 'no hover' if the server has nothing. Same routing/ready rules as go_to_definition.";

pub const DOCUMENT_SYMBOLS_DESCRIPTION: &'static str =
    "List the symbol tree of a file (LSP textDocument/documentSymbol): functions, structs, methods, etc. with kind and 1-indexed line. Input: path only. Use before go_to_definition/find_references to pick exact symbol names and lines.";

pub const WORKSPACE_SYMBOLS_DESCRIPTION: &'static str =
    "Search symbols across the whole workspace (LSP workspace/symbol). Input: query string. Returns `path:line:col name` triples. Which server answers depends on the servers warmed for the current project — call lsp_ensure for the language(s) you care about first. Note: a server only returns symbols it has indexed; an empty result may mean indexing isn't done.";

pub const DIAGNOSTICS_DESCRIPTION: &'static str =
    "Report LSP diagnostics (errors/warnings) for a file or the whole project. These are what the language server pushes as it indexes; an empty result may mean no problems OR none pushed yet (check lsp_status). Input: optional path. NOTE: diagnostics reflect on-disk state (the server watches files); they may be stale during initial indexing. Re-run after edits settle.";

/// Output cap of an answer, in bytes.
pub const OUTPUT_CAP: usize = 8192;

pub const NOT_INITIALIZED: &'static str = "LSP not initialized";

pub const PARSE_FAILED: &'static str = "input parse failed";

/// An answer.
#[derive(Debug, PartialEq, Eq)]
pub enum LspOutput {
    /// As it is.
    Plain(String),
    /// To be cut to [`OUTPUT_CAP`] bytes; the hint says how to ask for less.
    Capped { body: String, hint: String },
}

/// The mathematical value of an [`LspOutput`].
#[verifier::ext_equal]
pub enum LspOutputView {
    Plain(Seq<char>),
    Capped { body: Seq<char>, hint: Seq<char> },
}

impl DeepView for LspOutput {
    type V = LspOutputView;

    open spec fn deep_view(&self) -> LspOutputView {
        match self {
            LspOutput::Plain(s) => LspOutputView::Plain(s@),
            LspOutput::Capped { body, hint } => LspOutputView::Capped { body: body@, hint: hint@ },
        }
    }
}

// ---------------------------------------------------------------------------
// Inputs
// ---------------------------------------------------------------------------

/// A field of an input with `n` fields: a member of an object, or the element in
/// its place of a list that is not longer.
pub open spec fn field(j: JsonView, key: Seq<char>, place: int, n: int) -> Option<JsonView> {
    match j {
        JsonView::Object(es) => lookup(es, key),
        JsonView::Array(xs) => if place < xs.len() <= n {
            Some(xs[place])
        } else {
            None
        },
        _ => None,
    }
}

/// Whether an input with `n` fields has the right shape.
pub open spec fn is_record(j: JsonView, n: int) -> bool {
    match j {
        JsonView::Object(_) => true,
        JsonView::Array(xs) => xs.len() <= n,
        _ => false,
    }
}

fn get_field<'a>(j: &'a Json, key: &str, place: usize, n: usize) -> (r: Option<&'a Json>)
    ensures
        match r {
            Some(v) => field(j.model(), key@, place as int, n as int) == Some(v.model()),
            None => field(j.model(), key@, place as int, n as int) is None,
        },
{
    match j {
        Json::Object(_) => {
            let r = j.get(key);
            r
        },
        Json::Array(xs) => {
            proof {
                lemma_model_of_array(*xs);
            }
            if place < xs.len() && xs.len() <= n {
                assert(models(xs@)[place as int] == xs@[place as int].model());
                Some(&xs[place])
            } else {
                None
            }
        },
        _ => None,
    }
}

fn has_shape(j: &Json, n: usize) -> (r: bool)
    ensures
        r == is_record(j.model(), n as int),
{
    match j {
        Json::Object(_) => true,
        Json::Array(xs) => {
            proof {
                lemma_model_of_array(*xs);
            }
            xs.len() <= n
        },
        _ => false,
    }
}

pub open spec fn text_of(v: Option<JsonView>) -> Option<Seq<char>> {
    match v {
        Some(JsonView::Str(s)) => Some(s),
        _ => None,
    }
}

/// A text that may be missing or null; `None` where it is something else.
pub open spec fn optional_text(v: Option<JsonView>) -> Option<Option<Seq<char>>> {
    match v {
        None => Some(None),
        Some(JsonView::Null) => Some(None),
        Some(JsonView::Str(s)) => Some(Some(s)),
        _ => None,
    }
}

/// A line number.
pub open spec fn line_of(v: Option<JsonView>) -> Option<u32> {
    match v {
        Some(JsonView::Unsigned(n)) => if n <= u32::MAX {
            Some(n as u32)
        } else {
            None
        },
        _ => None,
    }
}

fn take_text(v: Option<&Json>) -> (r: Option<String>)
    ensures
        r.deep_view() == text_of(crate::plan::opt_model(v)),
{
    match v {
        Some(Json::Str(s)) => Some(s.clone()),
        _ => None,
    }
}

fn take_optional_text(v: Option<&Json>) -> (r: Option<Option<String>>)
    ensures
        match r {
            Some(s) => optional_text(crate::plan::opt_model(v)) == Some(s.deep_view()),
            None => optional_text(crate::plan::opt_model(v)) is None,
        },
{
    match v {
        None => Some(None),
        Some(Json::Null) => Some(None),
        Some(Json::Str(s)) => Some(Some(s.clone())),
        _ => None,
    }
}

fn take_line(v: Option<&Json>) -> (r: Option<u32>)
    ensures
        r == line_of(crate::plan::opt_model(v)),
{
    match v {
        Some(Json::Unsigned(n)) => if *n <= u32::MAX as u64 {
            Some(*n as u32)
        } else {
            None
        },
        _ => None,
    }
}

/// A symbol on a line of a file.
#[derive(Debug, PartialEq, Eq)]
pub struct PositionInput {
    pub path: String,
    /// Counted from one.
    pub line: u32,
    pub symbol: String,
}

/// The position in an input with `n` fields.
pub open spec fn position_of(j: JsonView, n: int) -> Option<(Seq<char>, u32, Seq<char>)> {
    match (
        text_of(field(j, "path"@, 0, n)),
        line_of(field(j, "line"@, 1, n)),
        text_of(field(j, "symbol"@, 2, n)),
    ) {
        (Some(path), Some(line), Some(symbol)) => Some((path, line, symbol)),
        _ => None,
    }
}

fn take_position(j: &Json, n: usize) -> (r: Option<PositionInput>)
    ensures
        match r {
            Some(p) => position_of(j.model(), n as int) == Some((p.path@, p.line, p.symbol@)),
            None => position_of(j.model(), n as int) is None,
        },
{
    let path = match take_text(get_field(j, "path", 0, n)) {
        Some(p) => p,
        None => {
            return None;
        },
    };
    let line: u32 = match take_line(get_field(j, "line", 1, n)) {
        Some(l) => l,
        None => {
            return None;
        },
    };
    let symbol = match take_text(get_field(j, "symbol", 2, n)) {
        Some(s) => s,
        None => {
            return None;
        },
    };
    Some(PositionInput { path, line, symbol })
}

/// How long to wait for a server, in seconds, unless told otherwise.
pub fn default_wait_secs() -> (r: u64)
    ensures
        r == 10,
{
    10
}

// ---------------------------------------------------------------------------
// Languages
// ---------------------------------------------------------------------------

/// The server that a trimmed name in lower case stands for; other names have to
/// be the id of a known server.
pub open spec fn server_of(name: Seq<char>, known: Seq<Seq<char>>) -> Option<Seq<char>> {
    if name == "rust"@ || name == "rust-analyzer"@ || name == "rust_analyzer"@ {
        Some("rust-analyzer"@)
    } else if name == "go"@ || name == "golang"@ || name == "gopls"@ {
        Some("gopls"@)
    } else if name == "python"@ || name == "py"@ || name == "pyright"@ {
        Some("pyright"@)
    } else if name == "typescript"@ || name == "ts"@ || name == "typescript-language-server"@ {
        Some("typescript-language-server"@)
    } else if known.contains(name) {
        Some(name)
    } else {
        None
    }
}

/// The server for a language: its id, or a common name of the language. `known`
/// are the ids of the servers that can be had.
pub fn resolve_language(input: &str, known: &Vec<String>) -> (r: Option<String>)
    ensures
        r.deep_view() == server_of(lower(trim(input@)), strs(known@)),
{
    let name = ascii_lower(str_trim(input).as_str());
    let n = name.as_str();
    if str_eq(n, "rust") || str_eq(n, "rust-analyzer") || str_eq(n, "rust_analyzer") {
        Some("rust-analyzer".to_owned())
    } else if str_eq(n, "go") || str_eq(n, "golang") || str_eq(n, "gopls") {
        Some("gopls".to_owned())
    } else if str_eq(n, "python") || str_eq(n, "py") || str_eq(n, "pyright") {
        Some("pyright".to_owned())
    } else if str_eq(n, "typescript") || str_eq(n, "ts") || str_eq(n, "typescript-language-server") {
        Some("typescript-language-server".to_owned())
    } else if contains_str(known, n) {
        Some(name)
    } else {
        None
    }
}

pub open spec fn unknown_language(language: Seq<char>) -> Seq<char> {
    "unknown language `"@ + language + "`"@
}

fn unknown_language_text(language: &str) -> (r: String)
    ensures
        r@ == unknown_language(language@),
{
    let mut out = "unknown language `".to_owned();
    out.append(language);
    out.append("`");
    out
}

pub open spec fn status_line(id: Seq<char>, status: Seq<char>) -> Seq<char> {
    id + ": "@ + status
}

/// The line that reports the state of a server.
pub fn server_status(id: &str, status: &str) -> (r: String)
    ensures
        r@ == status_line(id@, status@),
{
    let mut out = id.to_owned();
    out.append(": ");
    out.append(status);
    out
}

// ---------------------------------------------------------------------------
// Lifecycle
// ---------------------------------------------------------------------------

/// Reports the state of the servers.
pub struct LspStatusTool;

/// The state of a server.
#[derive(Debug, PartialEq, Eq)]
pub struct ServerStatus {
    pub id: String,
    pub status: String,
}

/// The lines of the servers with the id `want`, or of all.
pub open spec fn status_lines(all: Seq<ServerStatus>, want: Option<Seq<char>>) -> Seq<Seq<char>>
    decreases all.len(),
{
    if all.len() == 0 {
        seq![]
    } else {
        let rest = status_lines(all.drop_last(), want);
        let s = all.last();
        if want is None || want == Some(s.id@) {
            rest.push(status_line(s.id@, s.status@))
        } else {
            rest
        }
    }
}

pub const NO_SERVERS: &'static str =
    "No LSP servers detected on PATH (install rust-analyzer/gopls/pyright/typescript-language-server to enable code-intel)";

/// The report: of the asked language, or of all.
pub open spec fn status_report(
    language: Option<Seq<char>>,
    all: Seq<ServerStatus>,
    known: Seq<Seq<char>>,
) -> Seq<char> {
    match language {
        Some(l) => match server_of(lower(trim(l)), known) {
            Some(want) => status_body(status_lines(all, Some(want))),
            None => unknown_language(l),
        },
        None => status_body(status_lines(all, None)),
    }
}

pub open spec fn status_body(ls: Seq<Seq<char>>) -> Seq<char> {
    if ls.len() == 0 {
        NO_SERVERS@
    } else {
        join(ls, "\n"@)
    }
}

impl LspStatusTool {
    pub fn name() -> (r: &'static str)
        ensures
            r@ == LSP_STATUS@,
    {
        LSP_STATUS
    }

    pub fn description() -> (r: &'static str)
        ensures
            r@ == LSP_STATUS_DESCRIPTION@,
    {
        LSP_STATUS_DESCRIPTION
    }

    /// The language that a call asks for, if any; `None` where the input is
    /// malformed.
    pub fn parse(input: &Json) -> (r: Option<Option<String>>)
        ensures
            match r {
                Some(l) => is_record(input.model(), 1) && optional_text(
                    field(input.model(), "language"@, 0, 1),
                ) == Some(l.deep_view()),
                None => !is_record(input.model(), 1) || optional_text(
                    field(input.model(), "language"@, 0, 1),
                ) is None,
            },
    {
        if !has_shape(input, 1) {
            return None;
        }
        take_optional_text(get_field(input, "language", 0, 1))
    }

    /// Reports the state of the servers; `all` is `None` before the registry is
    /// there.
    pub fn report(
        language: Option<&str>,
        all: Option<&Vec<ServerStatus>>,
        known: &Vec<String>,
    ) -> (r: String)
        ensures
            r@ == match all {
                Some(all) => status_report(opt_str_view(language), all@, strs(known@)),
                None => NOT_INITIALIZED@,
            },
    {
        let all = match all {
            Some(a) => a,
            None => {
                return NOT_INITIALIZED.to_owned();
            },
        };
        let want: Option<String> = match language {
            Some(l) => match resolve_language(l, known) {
                Some(w) => Some(w),
                None => {
                    return unknown_language_text(l);
                },
            },
            None => None,
        };
        let ghost wanted = want.deep_view();
        let mut out: Vec<String> = Vec::new();
        assert(strs(out@) =~= status_lines(all@.take(0), wanted));
        for i in 0..all.len()
            invariant
                wanted == want.deep_view(),
                strs(out@) == status_lines(all@.take(i as int), wanted),
        {
            let ghost before = strs(out@);
            assert(all@.take(i + 1).drop_last() =~= all@.take(i as int));
            assert(all@.take(i + 1).last() == all@[i as int]);
            let fits = match &want {
                Some(w) => str_eq(w.as_str(), all[i].id.as_str()),
                None => true,
            };
            if fits {
                let line = server_status(all[i].id.as_str(), all[i].status.as_str());
                out.push(line);
                assert(strs(out@) =~= before.push(line@));
            }
        }
        assert(all@.take(all@.len() as int) =~= all@);
        if out.len() == 0 {
            NO_SERVERS.to_owned()
        } else {
            join_strings(&out, "\n")
        }
    }
}

/// What a call that starts a server or waits for it comes to.
#[derive(Debug, PartialEq, Eq)]
pub enum ServerStep {
    /// Answer at once.
    Answer(String),
    /// Ask the registry about this server.
    Ask(String),
}

/// Starts a server.
pub struct LspEnsureTool;

impl LspEnsureTool {
    pub fn name() -> (r: &'static str)
        ensures
            r@ == LSP_ENSURE@,
    {
        LSP_ENSURE
    }

    pub fn description() -> (r: &'static str)
        ensures
            r@ == LSP_ENSURE_DESCRIPTION@,
    {
        LSP_ENSURE_DESCRIPTION
    }

    /// The language in an input; `None` where it is malformed.
    pub fn parse(input: &Json) -> (r: Option<String>)
        ensures
            r.deep_view() == text_of(field(input.model(), "language"@, 0, 1)),
    {
        take_text(get_field(input, "language", 0, 1))
    }

    /// The server to start. `installed` are the servers on this machine, `None`
    /// before the registry is there.
    pub fn plan(
        language: &str,
        known: &Vec<String>,
        installed: Option<&Vec<String>>,
    ) -> (r: ServerStep)
        ensures
            match installed {
                None => r matches ServerStep::Answer(s) && s@ == NOT_INITIALIZED@,
                Some(installed) => match server_of(lower(trim(language@)), strs(known@)) {
                    None => r matches ServerStep::Answer(s) && s@ == unknown_language(language@),
                    Some(id) => if strs(installed@).contains(id) {
                        r matches ServerStep::Ask(s) && s@ == id
                    } else {
                        r matches ServerStep::Answer(s) && s@ == status_line(id, "not_installed"@)
                    },
                },
            },
    {
        let installed = match installed {
            Some(i) => i,
            None => {
                return ServerStep::Answer(NOT_INITIALIZED.to_owned());
            },
        };
        match resolve_language(language, known) {
            None => ServerStep::Answer(unknown_language_text(language)),
            Some(id) => if contains_str(installed, id.as_str()) {
                ServerStep::Ask(id)
            } else {
                ServerStep::Answer(server_status(id.as_str(), "not_installed"))
            },
        }
    }
}

/// Waits for a server.
pub struct LspWaitReadyTool;

/// The language and the seconds to wait.
#[derive(Debug, PartialEq, Eq)]
pub struct WaitInput {
    pub language: String,
    pub timeout_secs: u64,
}

/// The seconds in an input; ten where they are missing.
pub open spec fn seconds_of(v: Option<JsonView>) -> Option<u64> {
    match v {
        None => Some(10),
        Some(JsonView::Unsigned(n)) => Some(n),
        _ => None,
    }
}

impl LspWaitReadyTool {
    pub fn name() -> (r: &'static str)
        ensures
            r@ == LSP_WAIT_READY@,
    {
        LSP_WAIT_READY
    }

    pub fn description() -> (r: &'static str)
        ensures
            r@ == LSP_WAIT_READY_DESCRIPTION@,
    {
        LSP_WAIT_READY_DESCRIPTION
    }

    /// Reads an input; `None` where it is malformed.
    pub fn parse(input: &Json) -> (r: Option<WaitInput>)
        ensures
            ({
                let language = text_of(field(input.model(), "language"@, 0, 2));
                let seconds = seconds_of(field(input.model(), "timeout_secs"@, 1, 2));
                match r {
                    Some(w) => language == Some(w.language@) && seconds == Some(w.timeout_secs),
                    None => language is None || seconds is None,
                }
            }),
    {
        let language = match take_text(get_field(input, "language", 0, 2)) {
            Some(l) => l,
            None => {
                return None;
            },
        };
        match get_field(input, "timeout_secs", 1, 2) {
            None => Some(WaitInput { language, timeout_secs: default_wait_secs() }),
            Some(Json::Unsigned(n)) => Some(WaitInput { language, timeout_secs: *n }),
            Some(_) => None,
        }
    }

    /// The server to wait for.
    pub fn plan(language: &str, known: &Vec<String>, initialized: bool) -> (r: ServerStep)
        ensures
            if !initialized {
                r matches ServerStep::Answer(s) && s@ == NOT_INITIALIZED@
            } else {
                match server_of(lower(trim(language@)), strs(known@)) {
                    None => r matches ServerStep::Answer(s) && s@ == unknown_language(language@),
                    Some(id) => r matches ServerStep::Ask(s) && s@ == id,
                }
            },
    {
        if !initialized {
            return ServerStep::Answer(NOT_INITIALIZED.to_owned());
        }
        match resolve_language(language, known) {
            None => ServerStep::Answer(unknown_language_text(language)),
            Some(id) => ServerStep::Ask(id),
        }
    }
}

// ---------------------------------------------------------------------------
// Routing
// ---------------------------------------------------------------------------

/// The extension of the last name of a path, or nothing.
pub open spec fn extension_of(path: Seq<char>) -> Seq<char> {
    match file_name_of(path) {
        Some(n) => if 0 < last_dot(n) < n.len() {
            n.skip(last_dot(n) as int + 1)
        } else {
            ""@
        },
        None => ""@,
    }
}

fn extension(path: &str) -> (r: String)
    ensures
        r@ == extension_of(path@),
{
    match file_name(path) {
        None => "".to_owned(),
        Some(name) => {
            let v = chars_of(name.as_str());
            let mut i: usize = v.len();
            while i > 0 && v[i - 1] != '.'
                invariant
                    i <= v@.len(),
                    v@ == name@,
                    forall|k: int| i <= k < v@.len() ==> v@[k] != '.',
                decreases i,
            {
                i -= 1;
            }
            proof {
                if i > 0 {
                    crate::pathname::lemma_last_dot(name@, i - 1);
                } else {
                    crate::pathname::lemma_no_dot(name@);
                }
            }
            if i > 1 {
                assert(v@.subrange(i as int, v@.len() as int) =~= name@.skip(i as int));
                string_of_range(&v, i, v.len())
            } else {
                "".to_owned()
            }
        },
    }
}

pub open spec fn no_server(ext: Seq<char>) -> Seq<char> {
    "no LSP server handles `."@ + ext
        + "` — not a routed language (rust/go/python/typescript), or its server isn't on PATH"@
}

/// Which server answers for a file.
#[derive(Debug, PartialEq, Eq)]
pub struct Route {
    pub server: String,
    pub path: String,
}

/// The file that a call is about.
pub fn target_path(path: &str, cwd: &str) -> (r: String)
    ensures
        r@ == joined(cwd@, path@),
{
    join_path(cwd, path)
}

/// Routes a call about a file: `server` is the one that handles the file, if any
/// does.
pub fn client_for_path(
    path: &str,
    cwd: &str,
    initialized: bool,
    server: Option<String>,
) -> (r: Result<Route, String>)
    ensures
        if !initialized {
            r matches Err(e) && e@ == NOT_INITIALIZED@
        } else {
            match server {
                Some(s) => r matches Ok(route) && route.server@ == s@ && route.path@ == joined(
                    cwd@,
                    path@,
                ),
                None => r matches Err(e) && e@ == no_server(extension_of(joined(cwd@, path@))),
            }
        },
{
    if !initialized {
        return Err(NOT_INITIALIZED.to_owned());
    }
    let abs = target_path(path, cwd);
    match server {
        Some(s) => Ok(Route { server: s, path: abs }),
        None => {
            let mut e = "no LSP server handles `.".to_owned();
            let ext = extension(abs.as_str());
            e.append(ext.as_str());
            e.append(
                "` — not a routed language (rust/go/python/typescript), or its server isn't on PATH",
            );
            Err(e)
        },
    }
}

// ---------------------------------------------------------------------------
// Locations
// ---------------------------------------------------------------------------

/// A place in a file.
#[derive(Debug, PartialEq, Eq)]
pub struct Location {
    pub path: String,
    pub line: u32,
    pub col: u32,
}

/// `path:line:col`.
pub open spec fn loc_text(path: Seq<char>, line: nat, col: nat) -> Seq<char> {
    path + ":"@ + dec(line) + ":"@ + dec(col)
}

/// A place as `path:line:col`.
pub fn fmt_loc(path: &str, line: u32, col: u32) -> (r: String)
    ensures
        r@ == loc_text(path@, line as nat, col as nat),
{
    let mut out = path.to_owned();
    out.append(":");
    push_dec(&mut out, line as u64);
    out.append(":");
    push_dec(&mut out, col as u64);
    out
}

pub open spec fn loc_lines(locs: Seq<Location>) -> Seq<Seq<char>> {
    Seq::new(locs.len(), |i: int| loc_text(locs[i].path@, locs[i].line as nat, locs[i].col as nat))
}

pub open spec fn shown_locs(
    locs: Seq<Location>,
    empty_hint: Seq<char>,
    hint: Seq<char>,
) -> LspOutputView {
    if locs.len() == 0 {
        LspOutputView::Plain(empty_hint)
    } else {
        LspOutputView::Capped { body: join(loc_lines(locs), "\n"@), hint }
    }
}

/// Places, one a line.
pub fn render_locs(locs: &Vec<Location>, empty_hint: &str, hint: &str) -> (r: LspOutput)
    ensures
        r.deep_view() == shown_locs(locs@, empty_hint@, hint@),
{
    if locs.len() == 0 {
        return LspOutput::Plain(empty_hint.to_owned());
    }
    let mut out: Vec<String> = Vec::new();
    for i in 0..locs.len()
        invariant
            strs(out@) == loc_lines(locs@).take(i as int),
    {
        let ghost before = strs(out@);
        out.push(fmt_loc(locs[i].path.as_str(), locs[i].line, locs[i].col));
        assert(strs(out@) =~= before.push(loc_lines(locs@)[i as int]));
        assert(strs(out@) =~= loc_lines(locs@).take(i + 1));
    }
    assert(strs(out@) =~= loc_lines(locs@));
    LspOutput::Capped { body: join_strings(&out, "\n"), hint: hint.to_owned() }
}

pub const NARROW_SYMBOL: &'static str = "narrow the symbol or call document_symbols first";

/// Finds where a symbol is defined.
pub struct GoToDefinitionTool;

impl GoToDefinitionTool {
    pub fn name() -> (r: &'static str)
        ensures
            r@ == GO_TO_DEFINITION@,
    {
        GO_TO_DEFINITION
    }

    pub fn description() -> (r: &'static str)
        ensures
            r@ == GO_TO_DEFINITION_DESCRIPTION@,
    {
        GO_TO_DEFINITION_DESCRIPTION
    }

    /// Reads an input; `None` where it is malformed.
    pub fn parse(input: &Json) -> (r: Option<PositionInput>)
        ensures
            match r {
                Some(p) => position_of(input.model(), 3) == Some((p.path@, p.line, p.symbol@)),
                None => position_of(input.model(), 3) is None,
            },
    {
        take_position(input, 3)
    }

    pub fn render(locs: &Vec<Location>) -> (r: LspOutput)
        ensures
            r.deep_view() == shown_locs(
                locs@,
                "No definitions found (server may still be indexing; call lsp_status or retry shortly)."@,
                NARROW_SYMBOL@,
            ),
    {
        render_locs(
            locs,
            "No definitions found (server may still be indexing; call lsp_status or retry shortly).",
            NARROW_SYMBOL,
        )
    }
}

/// Finds where a symbol is used.
pub struct FindReferencesTool;

/// A symbol, and whether its declaration counts.
#[derive(Debug, PartialEq, Eq)]
pub struct ReferencesInput {
    pub position: PositionInput,
    pub include_declaration: bool,
}

/// A flag that is set where it is missing.
pub open spec fn default_true_of(v: Option<JsonView>) -> Option<bool> {
    match v {
        None => Some(true),
        Some(JsonView::Bool(b)) => Some(b),
        _ => None,
    }
}

impl FindReferencesTool {
    pub fn name() -> (r: &'static str)
        ensures
            r@ == FIND_REFERENCES@,
    {
        FIND_REFERENCES
    }

    pub fn description() -> (r: &'static str)
        ensures
            r@ == FIND_REFERENCES_DESCRIPTION@,
    {
        FIND_REFERENCES_DESCRIPTION
    }

    /// Reads an input; `None` where it is malformed.
    pub fn parse(input: &Json) -> (r: Option<ReferencesInput>)
        ensures
            ({
                let position = position_of(input.model(), 4);
                let declared = default_true_of(
                    field(input.model(), "include_declaration"@, 3, 4),
                );
                match r {
                    Some(q) => position == Some(
                        (q.position.path@, q.position.line, q.position.symbol@),
                    ) && declared == Some(q.include_declaration),
                    None => position is None || declared is None,
                }
            }),
    {
        let position = match take_position(input, 4) {
            Some(p) => p,
            None => {
                return None;
            },
        };
        match get_field(input, "include_declaration", 3, 4) {
            None => Some(ReferencesInput { position, include_declaration: true }),
            Some(Json::Bool(b)) => Some(ReferencesInput { position, include_declaration: *b }),
            Some(_) => None,
        }
    }

    pub fn render(locs: &Vec<Location>) -> (r: LspOutput)
        ensures
            r.deep_view() == shown_locs(
                locs@,
                "No references found (server may still be indexing; call lsp_status or retry shortly)."@,
                NARROW_SYMBOL@,
            ),
    {
        render_locs(
            locs,
            "No references found (server may still be indexing; call lsp_status or retry shortly).",
            NARROW_SYMBOL,
        )
    }
}

/// Shows the type and the documentation of a symbol.
pub struct HoverTool;

impl HoverTool {
    pub fn name() -> (r: &'static str)
        ensures
            r@ == HOVER@,
    {
        HOVER
    }

    pub fn description() -> (r: &'static str)
        ensures
            r@ == HOVER_DESCRIPTION@,
    {
        HOVER_DESCRIPTION
    }

    /// Reads an input; `None` where it is malformed.
    pub fn parse(input: &Json) -> (r: Option<PositionInput>)
        ensures
            match r {
                Some(p) => position_of(input.model(), 3) == Some((p.path@, p.line, p.symbol@)),
                None => position_of(input.model(), 3) is None,
            },
    {
        take_position(input, 3)
    }

    pub fn render(text: Option<String>) -> (r: LspOutput)
        ensures
            r.deep_view() == match text {
                Some(t) => LspOutputView::Capped { body: t@, hint: "narrow the symbol"@ },
                None => LspOutputView::Plain("No hover information available"@),
            },
    {
        match text {
            Some(t) => LspOutput::Capped { body: t, hint: "narrow the symbol".to_owned() },
            None => LspOutput::Plain("No hover information available".to_owned()),
        }
    }
}

// ---------------------------------------------------------------------------
// Symbols
// ---------------------------------------------------------------------------

/// Lists the symbols of a file.
pub struct DocumentSymbolsTool;

/// A symbol of a file.
#[derive(Debug, PartialEq, Eq)]
pub struct DocumentSymbol {
    pub name: String,
    pub kind: String,
    pub line: u32,
}

pub open spec fn symbol_lines(syms: Seq<DocumentSymbol>) -> Seq<Seq<char>> {
    Seq::new(
        syms.len(),
        |i: int| syms[i].kind@ + " "@ + syms[i].name@ + " :"@ + dec(syms[i].line as nat),
    )
}

impl DocumentSymbolsTool {
    pub fn name() -> (r: &'static str)
        ensures
            r@ == DOCUMENT_SYMBOLS@,
    {
        DOCUMENT_SYMBOLS
    }

    pub fn description() -> (r: &'static str)
        ensures
            r@ == DOCUMENT_SYMBOLS_DESCRIPTION@,
    {
        DOCUMENT_SYMBOLS_DESCRIPTION
    }

    /// The path in an input; `None` where it is malformed.
    pub fn parse(input: &Json) -> (r: Option<String>)
        ensures
            r.deep_view() == text_of(field(input.model(), "path"@, 0, 1)),
    {
        take_text(get_field(input, "path", 0, 1))
    }

    pub fn render(syms: &Vec<DocumentSymbol>) -> (r: LspOutput)
        ensures
            r.deep_view() == if syms@.len() == 0 {
                LspOutputView::Plain(
                    "No symbols (server may still be indexing; call lsp_status or retry shortly)."@,
                )
            } else {
                LspOutputView::Capped {
                    body: join(symbol_lines(syms@), "\n"@),
                    hint: "scope to a region or use a narrower file"@,
                }
            },
    {
        if syms.len() == 0 {
            return LspOutput::Plain(
                "No symbols (server may still be indexing; call lsp_status or retry shortly).".to_owned(),
            );
        }
        let mut out: Vec<String> = Vec::new();
        for i in 0..syms.len()
            invariant
                strs(out@) == symbol_lines(syms@).take(i as int),
        {
            let ghost before = strs(out@);
            let mut line = syms[i].kind.clone();
            line.append(" ");
            line.append(syms[i].name.as_str());
            line.append(" :");
            push_dec(&mut line, syms[i].line as u64);
            assert(line@ =~= symbol_lines(syms@)[i as int]);
            out.push(line);
            assert(strs(out@) =~= before.push(symbol_lines(syms@)[i as int]));
            assert(strs(out@) =~= symbol_lines(syms@).take(i + 1));
        }
        assert(strs(out@) =~= symbol_lines(syms@));
        LspOutput::Capped {
            body: join_strings(&out, "\n"),
            hint: "scope to a region or use a narrower file".to_owned(),
        }
    }
}

/// Searches the symbols of the workspace.
pub struct WorkspaceSymbolsTool;

/// A symbol of the workspace.
#[derive(Debug, PartialEq, Eq)]
pub struct WorkspaceSymbol {
    pub path: String,
    pub name: String,
    pub line: u32,
    pub col: u32,
}

/// The list, sorted by line, with a symbol put behind those of the same line.
pub open spec fn with_symbol(sorted: Seq<WorkspaceSymbol>, s: WorkspaceSymbol) -> Seq<
    WorkspaceSymbol,
>
    decreases sorted.len(),
{
    if sorted.len() == 0 || sorted.last().line <= s.line {
        sorted.push(s)
    } else {
        with_symbol(sorted.drop_last(), s).push(sorted.last())
    }
}

/// The symbols by line; those of one line keep their order.
pub open spec fn by_line(all: Seq<WorkspaceSymbol>) -> Seq<WorkspaceSymbol>
    decreases all.len(),
{
    if all.len() == 0 {
        seq![]
    } else {
        with_symbol(by_line(all.drop_last()), all.last())
    }
}

pub open spec fn workspace_line(s: WorkspaceSymbol) -> Seq<char> {
    loc_text(s.path@, s.line as nat, s.col as nat) + " "@ + s.name@
}

pub open spec fn workspace_lines(all: Seq<WorkspaceSymbol>) -> Seq<Seq<char>> {
    Seq::new(all.len(), |i: int| workspace_line(all[i]))
}

proof fn lemma_with_symbol_tail(sorted: Seq<WorkspaceSymbol>, s: WorkspaceSymbol, p: int)
    requires
        0 < p <= sorted.len(),
        with_symbol(sorted, s) == with_symbol(sorted.take(p), s) + sorted.skip(p),
        sorted[p - 1].line > s.line,
    ensures
        with_symbol(sorted, s) == with_symbol(sorted.take(p - 1), s) + sorted.skip(p - 1),
{
    assert(sorted.take(p).drop_last() =~= sorted.take(p - 1));
    assert(with_symbol(sorted.take(p), s) == with_symbol(sorted.take(p - 1), s).push(
        sorted[p - 1],
    ));
    assert(with_symbol(sorted.take(p - 1), s).push(sorted[p - 1]) + sorted.skip(p)
        =~= with_symbol(sorted.take(p - 1), s) + sorted.skip(p - 1));
}

fn insert_symbol(sorted: &mut Vec<WorkspaceSymbol>, s: WorkspaceSymbol)
    ensures
        final(sorted)@ == with_symbol(old(sorted)@, s),
{
    let ghost now = sorted@;
    let mut p: usize = sorted.len();
    assert(now.take(p as int) =~= now);
    assert(with_symbol(now, s) + now.skip(p as int) =~= with_symbol(now, s));
    while p > 0 && sorted[p - 1].line > s.line
        invariant
            p <= sorted@.len(),
            now == sorted@,
            with_symbol(now, s) == with_symbol(now.take(p as int), s) + now.skip(p as int),
        decreases p,
    {
        proof {
            lemma_with_symbol_tail(now, s, p as int);
        }
        p -= 1;
    }
    assert(with_symbol(now.take(p as int), s) == now.take(p as int).push(s)) by {
        if p > 0 {
            assert(now.take(p as int).last() == now[p - 1]);
        }
    }
    sorted.insert(p, s);
    assert(sorted@ =~= now.take(p as int).push(s) + now.skip(p as int));
}

/// Symbols come by line: none is behind one of a greater line.
pub proof fn symbols_come_by_line(all: Seq<WorkspaceSymbol>, i: int, j: int)
    requires
        0 <= i < j < by_line(all).len(),
    ensures
        by_line(all)[i].line <= by_line(all)[j].line,
        by_line(all).len() == all.len(),
        by_line(all).to_multiset() == all.to_multiset(),
{
    lemma_by_line(all);
}

pub open spec fn lines_in_order(s: Seq<WorkspaceSymbol>) -> bool {
    forall|i: int, j: int| 0 <= i < j < s.len() ==> (#[trigger] s[i]).line <= (#[trigger] s[j]).line
}

proof fn lemma_with_symbol(sorted: Seq<WorkspaceSymbol>, s: WorkspaceSymbol)
    requires
        lines_in_order(sorted),
    ensures
        lines_in_order(with_symbol(sorted, s)),
        with_symbol(sorted, s).len() == sorted.len() + 1,
        with_symbol(sorted, s).to_multiset() == sorted.to_multiset().insert(s),
        with_symbol(sorted, s).last().line >= s.line,
        sorted.len() > 0 ==> with_symbol(sorted, s).last().line >= sorted.last().line,
        forall|i: int|
            0 <= i < with_symbol(sorted, s).len() ==> (#[trigger] with_symbol(sorted, s)[i]).line
                <= s.line || (sorted.len() > 0 && with_symbol(sorted, s)[i].line
                <= sorted.last().line),
    decreases sorted.len(),
{
    broadcast use vstd::seq_lib::group_to_multiset_ensures;

    if sorted.len() == 0 || sorted.last().line <= s.line {
        let r = sorted.push(s);
        assert forall|i: int, j: int| 0 <= i < j < r.len() implies (#[trigger] r[i]).line <= (
        #[trigger] r[j]).line by {
            if j == sorted.len() && i < sorted.len() - 1 {
                assert(sorted[i].line <= sorted[sorted.len() - 1].line);
            }
        }
        assert forall|i: int| 0 <= i < r.len() implies (#[trigger] r[i]).line <= s.line || (
        sorted.len() > 0 && r[i].line <= sorted.last().line) by {
            if i < sorted.len() - 1 {
                assert(sorted[i].line <= sorted[sorted.len() - 1].line);
            }
        }
    } else {
        let rest = sorted.drop_last();
        let last = sorted.last();
        assert(lines_in_order(rest)) by {
            assert forall|i: int, j: int| 0 <= i < j < rest.len() implies (
            #[trigger] rest[i]).line <= (#[trigger] rest[j]).line by {
                assert(rest[i] == sorted[i] && rest[j] == sorted[j]);
            }
        }
        lemma_with_symbol(rest, s);
        let p = with_symbol(rest, s);
        let r = p.push(last);
        assert(sorted =~= rest.push(last));
        assert forall|i: int, j: int| 0 <= i < j < r.len() implies (#[trigger] r[i]).line <= (
        #[trigger] r[j]).line by {
            if j == p.len() {
                assert(p[i].line <= s.line || (rest.len() > 0 && p[i].line <= rest.last().line));
                if rest.len() > 0 {
                    assert(rest.last() == sorted[rest.len() - 1]);
                    assert(sorted[rest.len() - 1].line <= sorted[sorted.len() - 1].line);
                }
            } else {
                assert(p[i].line <= p[j].line);
            }
        }
        assert forall|i: int| 0 <= i < r.len() implies (#[trigger] r[i]).line <= s.line || (
        sorted.len() > 0 && r[i].line <= sorted.last().line) by {
            if i < p.len() {
                assert(r[i].line <= r[p.len() as int].line);
            }
        }
        assert(r.to_multiset() =~= sorted.to_multiset().insert(s));
    }
}

proof fn lemma_by_line(all: Seq<WorkspaceSymbol>)
    ensures
        lines_in_order(by_line(all)),
        by_line(all).len() == all.len(),
        by_line(all).to_multiset() == all.to_multiset(),
    decreases all.len(),
{
    broadcast use vstd::seq_lib::group_to_multiset_ensures;

    if all.len() == 0 {
        assert(by_line(all) =~= all);
    } else {
        lemma_by_line(all.drop_last());
        lemma_with_symbol(by_line(all.drop_last()), all.last());
        assert(all =~= all.drop_last().push(all.last()));
    }
}

impl WorkspaceSymbolsTool {
    pub fn name() -> (r: &'static str)
        ensures
            r@ == WORKSPACE_SYMBOLS@,
    {
        WORKSPACE_SYMBOLS
    }

    pub fn description() -> (r: &'static str)
        ensures
            r@ == WORKSPACE_SYMBOLS_DESCRIPTION@,
    {
        WORKSPACE_SYMBOLS_DESCRIPTION
    }

    /// The query in an input; `None` where it is malformed.
    pub fn parse(input: &Json) -> (r: Option<String>)
        ensures
            r.deep_view() == text_of(field(input.model(), "query"@, 0, 1)),
    {
        take_text(get_field(input, "query", 0, 1))
    }

    /// The answer made of what the servers gave, one after the other.
    pub fn render(all: Vec<WorkspaceSymbol>) -> (r: LspOutput)
        ensures
            r.deep_view() == if all@.len() == 0 {
                LspOutputView::Plain(
                    "No symbols matched (warm the servers with lsp_ensure, or indexing may be incomplete)."@,
                )
            } else {
                LspOutputView::Capped {
                    body: join(workspace_lines(by_line(all@)), "\n"@),
                    hint: "narrow the query"@,
                }
            },
    {
        if all.len() == 0 {
            return LspOutput::Plain(
                "No symbols matched (warm the servers with lsp_ensure, or indexing may be incomplete).".to_owned(),
            );
        }
        let ghost given = all@;
        let mut sorted: Vec<WorkspaceSymbol> = Vec::new();
        assert(given.take(0) =~= seq![]);
        let mut i: usize = 0;
        let n: usize = all.len();
        while i < n
            invariant
                i <= n,
                n == given.len(),
                all@ == given,
                sorted@ == by_line(given.take(i as int)),
            decreases n - i,
        {
            assert(given.take(i + 1).drop_last() =~= given.take(i as int));
            let s = &all[i];
            let copy = WorkspaceSymbol {
                path: s.path.clone(),
                name: s.name.clone(),
                line: s.line,
                col: s.col,
            };
            assert(copy == given[i as int]);
            insert_symbol(&mut sorted, copy);
            i += 1;
        }
        assert(given.take(n as int) =~= given);
        let mut out: Vec<String> = Vec::new();
        for i in 0..sorted.len()
            invariant
                strs(out@) == workspace_lines(sorted@).take(i as int),
        {
            let ghost before = strs(out@);
            let mut line = fmt_loc(sorted[i].path.as_str(), sorted[i].line, sorted[i].col);
            line.append(" ");
            line.append(sorted[i].name.as_str());
            assert(line@ =~= workspace_line(sorted@[i as int]));
            out.push(line);
            assert(strs(out@) =~= before.push(workspace_lines(sorted@)[i as int]));
            assert(strs(out@) =~= workspace_lines(sorted@).take(i + 1));
        }
        assert(strs(out@) =~= workspace_lines(sorted@));
        LspOutput::Capped { body: join_strings(&out, "\n"), hint: "narrow the query".to_owned() }
    }
}

// ---------------------------------------------------------------------------
// Diagnostics
// ---------------------------------------------------------------------------

/// Reports what the servers complain about.
pub struct DiagnosticsTool;

/// How serious a complaint is.
#[derive(Debug, Clone, Copy, PartialEq, Eq, Structural)]
pub enum Severity {
    Error,
    Warning,
    Information,
    Hint,
    Unknown,
}

/// A complaint about a place, counted from zero.
#[derive(Debug, PartialEq, Eq)]
pub struct Diagnostic {
    pub severity: Severity,
    pub line: u32,
    pub character: u32,
    pub message: String,
}

pub open spec fn severity_name(s: Severity) -> Seq<char> {
    match s {
        Severity::Error => "error"@,
        Severity::Warning => "warning"@,
        Severity::Information => "info"@,
        Severity::Hint => "hint"@,
        Severity::Unknown => "diagnostic"@,
    }
}

pub open spec fn diagnostic_line(path: Seq<char>, d: Diagnostic) -> Seq<char> {
    loc_text(path, d.line as nat + 1, d.character as nat + 1) + " ["@ + severity_name(d.severity)
        + "] "@ + trim(d.message@)
}

pub open spec fn diagnostic_lines(path: Seq<char>, ds: Seq<Diagnostic>) -> Seq<Seq<char>> {
    Seq::new(ds.len(), |i: int| diagnostic_line(path, ds[i]))
}

pub const SINGLE_FILE: &'static str = "scope to a single file via the `path` argument";

/// The complaints about a file, as `path:line:col [severity] message`, counted
/// from one.
pub fn render_diagnostics(path: &str, diags: &Vec<Diagnostic>) -> (r: LspOutput)
    ensures
        r.deep_view() == if diags@.len() == 0 {
            LspOutputView::Plain(path@ + ": no diagnostics"@)
        } else {
            LspOutputView::Capped {
                body: join(diagnostic_lines(path@, diags@), "\n"@),
                hint: SINGLE_FILE@,
            }
        },
{
    if diags.len() == 0 {
        let mut out = path.to_owned();
        out.append(": no diagnostics");
        return LspOutput::Plain(out);
    }
    let mut out: Vec<String> = Vec::new();
    for i in 0..diags.len()
        invariant
            strs(out@) == diagnostic_lines(path@, diags@).take(i as int),
    {
        let ghost before = strs(out@);
        let d = &diags[i];
        let severity = match d.severity {
            Severity::Error => "error",
            Severity::Warning => "warning",
            Severity::Information => "info",
            Severity::Hint => "hint",
            Severity::Unknown => "diagnostic",
        };
        let mut line = path.to_owned();
        line.append(":");
        push_dec(&mut line, d.line as u64 + 1);
        line.append(":");
        push_dec(&mut line, d.character as u64 + 1);
        line.append(" [");
        line.append(severity);
        line.append("] ");
        let message = str_trim(d.message.as_str());
        line.append(message.as_str());
        assert(line@ =~= diagnostic_line(path@, *d));
        out.push(line);
        assert(strs(out@) =~= before.push(diagnostic_lines(path@, diags@)[i as int]));
        assert(strs(out@) =~= diagnostic_lines(path@, diags@).take(i + 1));
    }
    assert(strs(out@) =~= diagnostic_lines(path@, diags@));
    LspOutput::Capped { body: join_strings(&out, "\n"), hint: SINGLE_FILE.to_owned() }
}

impl DiagnosticsTool {
    pub fn name() -> (r: &'static str)
        ensures
            r@ == DIAGNOSTICS@,
    {
        DIAGNOSTICS
    }

    pub fn description() -> (r: &'static str)
        ensures
            r@ == DIAGNOSTICS_DESCRIPTION@,
    {
        DIAGNOSTICS_DESCRIPTION
    }

    /// The path in an input, if any; `None` where the input is malformed.
    pub fn parse(input: &Json) -> (r: Option<Option<String>>)
        ensures
            match r {
                Some(p) => is_record(input.model(), 1) && optional_text(
                    field(input.model(), "path"@, 0, 1),
                ) == Some(p.deep_view()),
                None => !is_record(input.model(), 1) || optional_text(
                    field(input.model(), "path"@, 0, 1),
                ) is None,
            },
    {
        if !has_shape(input, 1) {
            return None;
        }
        take_optional_text(get_field(input, "path", 0, 1))
    }

    /// The complaints about every file that has any, given their texts.
    pub fn render_all(bodies: &Vec<String>) -> (r: LspOutput)
        ensures
            r.deep_view() == if bodies@.len() == 0 {
                LspOutputView::Plain(
                    "No cached diagnostics (call lsp_ensure to warm servers, then re-run; indexing may be incomplete)."@,
                )
            } else {
                LspOutputView::Capped { body: join(strs(bodies@), "\n\n"@), hint: SINGLE_FILE@ }
            },
    {
        if bodies.len() == 0 {
            LspOutput::Plain(
                "No cached diagnostics (call lsp_ensure to warm servers, then re-run; indexing may be incomplete).".to_owned(),
            )
        } else {
            LspOutput::Capped {
                body: join_strings(bodies, "\n\n"),
                hint: SINGLE_FILE.to_owned(),
            }
        }
    }
}

// ---------------------------------------------------------------------------
// What is asked and how the answer reads
// ---------------------------------------------------------------------------

/// A position is read from its members, or from a list in that order.
pub proof fn a_position_is_read_back(path: Seq<char>, line: u32, symbol: Seq<char>)
    ensures
        position_of(
            JsonView::Object(
                seq![
                    ("path"@, JsonView::Str(path)),
                    ("line"@, JsonView::Unsigned(line as u64)),
                    ("symbol"@, JsonView::Str(symbol)),
                ],
            ),
            3,
        ) == Some((path, line, symbol)),
        position_of(
            JsonView::Array(
                seq![
                    JsonView::Str(path),
                    JsonView::Unsigned(line as u64),
                    JsonView::Str(symbol),
                ],
            ),
            3,
        ) == Some((path, line, symbol)),
{
    reveal_strlit("path");
    reveal_strlit("line");
    reveal_strlit("symbol");
    assert("path"@[0] != "line"@[0] && "symbol"@.len() == 6 && "path"@.len() == 4 && "line"@.len()
        == 4);
    let es = seq![
        ("path"@, JsonView::Str(path)),
        ("line"@, JsonView::Unsigned(line as u64)),
        ("symbol"@, JsonView::Str(symbol)),
    ];
    crate::json::members_are_found_by_key(es, 0, path);
    crate::json::members_are_found_by_key(es, 1, path);
    crate::json::members_are_found_by_key(es, 2, path);
}

/// A position needs a path, a line that can be counted and a symbol.
pub proof fn a_position_needs_all_its_parts(j: JsonView, n: int)
    ensures
        position_of(j, n) is Some <==> ((field(j, "path"@, 0, n) matches Some(JsonView::Str(_))) && (
        field(j, "symbol"@, 2, n) matches Some(JsonView::Str(_))) && (field(j, "line"@, 1, n)
            matches Some(JsonView::Unsigned(k)) && k <= u32::MAX)),
        j matches JsonView::Object(es) ==> field(j, "path"@, 0, n) == lookup(es, "path"@),
        j !is Object && j !is Array ==> position_of(j, n) is None,
{
}

/// What may be left out has its default: no language, ten seconds, the declaration among
/// the references. What is given counts.
pub proof fn what_is_left_out_has_its_default(s: Seq<char>, n: u64, b: bool)
    ensures
        optional_text(None) == Some(None::<Seq<char>>),
        optional_text(Some(JsonView::Null)) == Some(None::<Seq<char>>),
        optional_text(Some(JsonView::Str(s))) == Some(Some(s)),
        optional_text(Some(JsonView::Bool(b))) is None,
        seconds_of(None) == Some(10u64),
        seconds_of(Some(JsonView::Unsigned(n))) == Some(n),
        seconds_of(Some(JsonView::Str(s))) is None,
        default_true_of(None) == Some(true),
        default_true_of(Some(JsonView::Bool(b))) == Some(b),
        default_true_of(Some(JsonView::Str(s))) is None,
        text_of(Some(JsonView::Str(s))) == Some(s),
        text_of(None) is None,
        n <= u32::MAX ==> line_of(Some(JsonView::Unsigned(n))) == Some(n as u32),
        n > u32::MAX ==> line_of(Some(JsonView::Unsigned(n))) is None,
{
}

/// A language leads to its server, by any of its names; a server that is known goes by its
/// own name, and no other name leads anywhere.
pub proof fn a_language_leads_to_its_server(name: Seq<char>, known: Seq<Seq<char>>)
    ensures
        name == "rust"@ || name == "rust-analyzer"@ || name == "rust_analyzer"@ ==> server_of(
            name,
            known,
        ) == Some("rust-analyzer"@),
        name == "go"@ || name == "golang"@ || name == "gopls"@ ==> server_of(name, known) == Some(
            "gopls"@,
        ),
        name == "python"@ || name == "py"@ || name == "pyright"@ ==> server_of(name, known) == Some(
            "pyright"@,
        ),
        name == "typescript"@ || name == "ts"@ || name == "typescript-language-server"@
            ==> server_of(name, known) == Some("typescript-language-server"@),
        server_of(name, known) is None ==> !known.contains(name),
        known.contains(name) ==> server_of(name, known) is Some,
        !known.contains(name) && name != "rust"@ && name != "rust-analyzer"@ && name
            != "rust_analyzer"@ && name != "go"@ && name != "golang"@ && name != "gopls"@ && name
            != "python"@ && name != "py"@ && name != "pyright"@ && name != "typescript"@ && name
            != "ts"@ && name != "typescript-language-server"@ ==> server_of(name, known) is None,
{
    reveal_strlit("rust");
    reveal_strlit("rust-analyzer");
    reveal_strlit("rust_analyzer");
    reveal_strlit("go");
    reveal_strlit("golang");
    reveal_strlit("gopls");
    reveal_strlit("python");
    reveal_strlit("py");
    reveal_strlit("pyright");
    reveal_strlit("typescript");
    reveal_strlit("ts");
    reveal_strlit("typescript-language-server");
    assert("rust"@[0] == 'r' && "rust-analyzer"@[0] == 'r' && "rust_analyzer"@[0] == 'r');
    assert("go"@[0] == 'g' && "golang"@[0] == 'g' && "gopls"@[0] == 'g');
    assert("python"@[0] == 'p' && "py"@[0] == 'p' && "pyright"@[0] == 'p');
    assert("typescript"@[0] == 't' && "ts"@[0] == 't' && "typescript-language-server"@[0] == 't');
}

/// The status of each server is told on a line, in order, or of the one that is asked
/// for alone.
pub proof fn the_status_is_told_by_server(
    all: Seq<ServerStatus>,
    next: ServerStatus,
    want: Seq<char>,
)
    ensures
        status_lines(Seq::<ServerStatus>::empty(), None).len() == 0,
        status_lines(all.push(next), None) == status_lines(all, None).push(
            next.id@ + ": "@ + next.status@,
        ),
        next.id@ == want ==> status_lines(all.push(next), Some(want)) == status_lines(
            all,
            Some(want),
        ).push(next.id@ + ": "@ + next.status@),
        next.id@ != want ==> status_lines(all.push(next), Some(want)) == status_lines(
            all,
            Some(want),
        ),
{
    assert(all.push(next).drop_last() =~= all);
}

/// The report tells the lines one below the other; without any it says so, and it names
/// a language that is not known.
pub proof fn the_report_tells_the_lines(
    language: Seq<char>,
    all: Seq<ServerStatus>,
    known: Seq<Seq<char>>,
)
    ensures
        status_lines(all, None).len() > 0 ==> status_report(None, all, known) == join(
            status_lines(all, None),
            "\n"@,
        ),
        status_lines(all, None).len() == 0 ==> status_report(None, all, known) == NO_SERVERS@,
        server_of(lower(trim(language)), known) is None ==> status_report(
            Some(language),
            all,
            known,
        ) == "unknown language `"@ + language + "`"@,
        server_of(lower(trim(language)), known) matches Some(want) ==> (status_lines(
            all,
            Some(want),
        ).len() > 0 ==> status_report(Some(language), all, known) == join(
            status_lines(all, Some(want)),
            "\n"@,
        )),
{
}

/// A place reads as path, line and column, and places are told one below the other; where
/// there is none the hint says why.
pub proof fn places_are_told_one_by_one(
    locs: Seq<Location>,
    empty_hint: Seq<char>,
    hint: Seq<char>,
    i: int,
)
    ensures
        locs.len() == 0 ==> shown_locs(locs, empty_hint, hint) == LspOutputView::Plain(empty_hint),
        locs.len() > 0 ==> shown_locs(locs, empty_hint, hint) == (LspOutputView::Capped {
            body: join(loc_lines(locs), "\n"@),
            hint,
        }),
        loc_lines(locs).len() == locs.len(),
        0 <= i < locs.len() ==> loc_lines(locs)[i] == locs[i].path@ + ":"@ + dec(
            locs[i].line as nat,
        ) + ":"@ + dec(locs[i].col as nat),
{
}

/// A symbol reads as its kind, its name and its line; one of the workspace as its place
/// and its name.
pub proof fn symbols_are_told_one_by_one(
    syms: Seq<DocumentSymbol>,
    all: Seq<WorkspaceSymbol>,
    i: int,
)
    ensures
        symbol_lines(syms).len() == syms.len(),
        0 <= i < syms.len() ==> symbol_lines(syms)[i] == syms[i].kind@ + " "@ + syms[i].name@
            + " :"@ + dec(syms[i].line as nat),
        workspace_lines(all).len() == all.len(),
        0 <= i < all.len() ==> workspace_lines(all)[i] == all[i].path@ + ":"@ + dec(
            all[i].line as nat,
        ) + ":"@ + dec(all[i].col as nat) + " "@ + all[i].name@,
{
}

/// A diagnostic reads as its place, counted from one, its severity and its message.
pub proof fn diagnostics_are_told_one_by_one(path: Seq<char>, ds: Seq<Diagnostic>, i: int)
    ensures
        diagnostic_lines(path, ds).len() == ds.len(),
        0 <= i < ds.len() ==> diagnostic_lines(path, ds)[i] == path + ":"@ + dec(
            (ds[i].line + 1) as nat,
        ) + ":"@ + dec((ds[i].character + 1) as nat) + " ["@ + (match ds[i].severity {
            Severity::Error => "error"@,
            Severity::Warning => "warning"@,
            Severity::Information => "info"@,
            Severity::Hint => "hint"@,
            Severity::Unknown => "diagnostic"@,
        }) + "] "@ + trim(ds[i].message@),
{
}

/// The ending of a file is what follows the last dot of its name; a file without one has
/// none, and the refusal names it.
pub proof fn the_ending_follows_the_last_dot(
    base: Seq<char>,
    stem: Seq<char>,
    ending: Seq<char>,
)
    requires
        base.len() > 0,
        stem.len() > 0,
        crate::pathname::is_name(stem + seq!['.'] + ending),
        !ending.contains('.'),
    ensures
        extension_of(joined(base, stem + seq!['.'] + ending)) == ending,
        no_server(ending) == "no LSP server handles `."@ + ending
            + "` — not a routed language (rust/go/python/typescript), or its server isn't on PATH"@,
        unknown_language(ending) == "unknown language `"@ + ending + "`"@,
{
    let name = stem + seq!['.'] + ending;
    crate::pathname::the_last_name_is_the_file_name(base, name);
    let i = stem.len() as int;
    assert forall|k: int| i < k < name.len() implies name[k] != '.' by {
        assert(name[k] == ending[k - i - 1]);
    }
    crate::pathname::lemma_last_dot(name, i);
    assert(name.skip(i + 1) =~= ending);
}

/// The view of a [`LspOutput`] is made of all its parts, each as it is.
pub proof fn lsp_output_is_viewed_whole(x: &LspOutput)
    ensures
        match x {
            LspOutput::Plain(s) => x.deep_view() == (LspOutputView::Plain(s@)),
            LspOutput::Capped { body, hint } => x.deep_view() == (LspOutputView::Capped {
                body: body@,
                hint: hint@,
            }),
        },
{
}

/// What is said where there is nothing to ask, and how much is shown at most.
pub proof fn what_is_said_where_nothing_can_be_asked()
    ensures
        NOT_INITIALIZED@ == "LSP not initialized"@,
        PARSE_FAILED@ == "input parse failed"@,
        OUTPUT_CAP == 8 * 1024,
{
}

} // verus!
