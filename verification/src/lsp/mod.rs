//! Language servers: the tools that ask them, and what an edit means for them.
//!
//! All nine tools are read-only.

pub mod tools;

use crate::json::{Json, JsonView};
use crate::lsp::tools::{
    LspStatusTool, LspEnsureTool, LspWaitReadyTool, GoToDefinitionTool, FindReferencesTool,
    HoverTool, DocumentSymbolsTool, WorkspaceSymbolsTool, DiagnosticsTool, LSP_STATUS, LSP_ENSURE,
    LSP_WAIT_READY, GO_TO_DEFINITION, FIND_REFERENCES, HOVER, DOCUMENT_SYMBOLS, WORKSPACE_SYMBOLS,
    DIAGNOSTICS, LSP_STATUS_DESCRIPTION, LSP_ENSURE_DESCRIPTION, LSP_WAIT_READY_DESCRIPTION,
    GO_TO_DEFINITION_DESCRIPTION, FIND_REFERENCES_DESCRIPTION, HOVER_DESCRIPTION,
    DOCUMENT_SYMBOLS_DESCRIPTION, WORKSPACE_SYMBOLS_DESCRIPTION, DIAGNOSTICS_DESCRIPTION,
};
use crate::pathname::{components, components_of, join_path, joined, Component, ComponentView};
use crate::table::{before, before_is_strict_and_total, before_is_transitive, is_before};
use crate::text::{str_eq, strs};
use crate::tools::{EDIT, WRITE};
use vstd::prelude::*;

verus! {

/// A tool that asks a language server.
#[derive(Debug, Clone, Copy, PartialEq, Eq, Structural)]
pub enum LspTool {
    Status,
    Ensure,
    WaitReady,
    GoToDefinition,
    FindReferences,
    Hover,
    DocumentSymbols,
    WorkspaceSymbols,
    Diagnostics,
}

impl LspTool {
    pub open spec fn id(self) -> Seq<char> {
        match self {
            LspTool::Status => LSP_STATUS@,
            LspTool::Ensure => LSP_ENSURE@,
            LspTool::WaitReady => LSP_WAIT_READY@,
            LspTool::GoToDefinition => GO_TO_DEFINITION@,
            LspTool::FindReferences => FIND_REFERENCES@,
            LspTool::Hover => HOVER@,
            LspTool::DocumentSymbols => DOCUMENT_SYMBOLS@,
            LspTool::WorkspaceSymbols => WORKSPACE_SYMBOLS@,
            LspTool::Diagnostics => DIAGNOSTICS@,
        }
    }

    pub open spec fn help(self) -> Seq<char> {
        match self {
            LspTool::Status => LSP_STATUS_DESCRIPTION@,
            LspTool::Ensure => LSP_ENSURE_DESCRIPTION@,
            LspTool::WaitReady => LSP_WAIT_READY_DESCRIPTION@,
            LspTool::GoToDefinition => GO_TO_DEFINITION_DESCRIPTION@,
            LspTool::FindReferences => FIND_REFERENCES_DESCRIPTION@,
            LspTool::Hover => HOVER_DESCRIPTION@,
            LspTool::DocumentSymbols => DOCUMENT_SYMBOLS_DESCRIPTION@,
            LspTool::WorkspaceSymbols => WORKSPACE_SYMBOLS_DESCRIPTION@,
            LspTool::Diagnostics => DIAGNOSTICS_DESCRIPTION@,
        }
    }

    /// The name that the model calls.
    pub fn name(self) -> (r: &'static str)
        ensures
            r@ == self.id(),
    {
        match self {
            LspTool::Status => LspStatusTool::name(),
            LspTool::Ensure => LspEnsureTool::name(),
            LspTool::WaitReady => LspWaitReadyTool::name(),
            LspTool::GoToDefinition => GoToDefinitionTool::name(),
            LspTool::FindReferences => FindReferencesTool::name(),
            LspTool::Hover => HoverTool::name(),
            LspTool::DocumentSymbols => DocumentSymbolsTool::name(),
            LspTool::WorkspaceSymbols => WorkspaceSymbolsTool::name(),
            LspTool::Diagnostics => DiagnosticsTool::name(),
        }
    }

    /// What the model reads of the tool.
    pub fn description(self) -> (r: &'static str)
        ensures
            r@ == self.help(),
    {
        match self {
            LspTool::Status => LspStatusTool::description(),
            LspTool::Ensure => LspEnsureTool::description(),
            LspTool::WaitReady => LspWaitReadyTool::description(),
            LspTool::GoToDefinition => GoToDefinitionTool::description(),
            LspTool::FindReferences => FindReferencesTool::description(),
            LspTool::Hover => HoverTool::description(),
            LspTool::DocumentSymbols => DocumentSymbolsTool::description(),
            LspTool::WorkspaceSymbols => WorkspaceSymbolsTool::description(),
            LspTool::Diagnostics => DiagnosticsTool::description(),
        }
    }

    /// No tool changes anything.
    pub fn is_read_only(self) -> (r: bool)
        ensures
            r,
    {
        true
    }
}

/// The tool that reports which servers run.
pub fn status_tool() -> (r: LspTool)
    ensures
        r == LspTool::Status,
{
    LspTool::Status
}

pub open spec fn intel_tools() -> Seq<LspTool> {
    seq![
        LspTool::Ensure,
        LspTool::WaitReady,
        LspTool::GoToDefinition,
        LspTool::FindReferences,
        LspTool::Hover,
        LspTool::DocumentSymbols,
        LspTool::WorkspaceSymbols,
        LspTool::Diagnostics,
    ]
}

/// The tools that start servers and ask them.
pub fn code_intel_tools() -> (r: Vec<LspTool>)
    ensures
        r@ == intel_tools(),
{
    let mut out: Vec<LspTool> = Vec::new();
    out.push(LspTool::Ensure);
    out.push(LspTool::WaitReady);
    out.push(LspTool::GoToDefinition);
    out.push(LspTool::FindReferences);
    out.push(LspTool::Hover);
    out.push(LspTool::DocumentSymbols);
    out.push(LspTool::WorkspaceSymbols);
    out.push(LspTool::Diagnostics);
    assert(out@ =~= intel_tools());
    out
}

/// Every tool.
pub fn tools() -> (r: Vec<LspTool>)
    ensures
        r@ == seq![LspTool::Status] + intel_tools(),
{
    let mut out: Vec<LspTool> = Vec::new();
    out.push(status_tool());
    let mut more = code_intel_tools();
    out.append(&mut more);
    assert(out@ =~= seq![LspTool::Status] + intel_tools());
    out
}

/// Whether a tool asks for the meaning of code; starting servers and reading
/// diagnostics do not.
pub fn is_semantic_tool(name: &str) -> (r: bool)
    ensures
        r == (name@ == GO_TO_DEFINITION@ || name@ == FIND_REFERENCES@ || name@ == HOVER@ || name@
            == DOCUMENT_SYMBOLS@ || name@ == WORKSPACE_SYMBOLS@),
{
    str_eq(name, GO_TO_DEFINITION) || str_eq(name, FIND_REFERENCES) || str_eq(name, HOVER)
        || str_eq(name, DOCUMENT_SYMBOLS) || str_eq(name, WORKSPACE_SYMBOLS)
}

// ---------------------------------------------------------------------------
// Changed files
// ---------------------------------------------------------------------------

/// The rank of a component among those of another kind.
pub open spec fn kind_rank(c: ComponentView) -> int {
    match c {
        ComponentView::RootDir => 0,
        ComponentView::CurDir => 1,
        ComponentView::ParentDir => 2,
        ComponentView::Normal(_) => 3,
    }
}

/// Whether a component is before another: by kind, then by name.
pub open spec fn component_before(a: ComponentView, b: ComponentView) -> bool {
    match (a, b) {
        (ComponentView::Normal(x), ComponentView::Normal(y)) => before(x, y),
        _ => kind_rank(a) < kind_rank(b),
    }
}

/// Whether a path is before another, component by component.
pub open spec fn path_before(a: Seq<ComponentView>, b: Seq<ComponentView>) -> bool
    decreases a.len(),
{
    if b.len() == 0 {
        false
    } else if a.len() == 0 {
        true
    } else if a[0] == b[0] {
        path_before(a.skip(1), b.skip(1))
    } else {
        component_before(a[0], b[0])
    }
}

enum PathRank {
    Before,
    Same,
    After,
}

fn rank_of_kind(c: &Component) -> (r: u8)
    ensures
        r == kind_rank(c.deep_view()),
{
    match c {
        Component::RootDir => 0,
        Component::CurDir => 1,
        Component::ParentDir => 2,
        Component::Normal(_) => 3,
    }
}

fn rank_components(a: &Component, b: &Component) -> (r: PathRank)
    ensures
        match r {
            PathRank::Before => component_before(a.deep_view(), b.deep_view()) && a.deep_view()
                != b.deep_view(),
            PathRank::Same => a.deep_view() == b.deep_view(),
            PathRank::After => component_before(b.deep_view(), a.deep_view()) && !component_before(
                a.deep_view(),
                b.deep_view(),
            ) && a.deep_view() != b.deep_view(),
        },
{
    match (a, b) {
        (Component::Normal(x), Component::Normal(y)) => {
            proof {
                crate::table::before_is_strict_and_total(x@, y@);
            }
            if is_before(x.as_str(), y.as_str()) {
                PathRank::Before
            } else if str_eq(x.as_str(), y.as_str()) {
                PathRank::Same
            } else {
                PathRank::After
            }
        },
        _ => {
            let i = rank_of_kind(a);
            let j = rank_of_kind(b);
            if i < j {
                PathRank::Before
            } else if i == j {
                PathRank::Same
            } else {
                PathRank::After
            }
        },
    }
}

fn rank_paths(a: &Vec<Component>, b: &Vec<Component>) -> (r: PathRank)
    ensures
        match r {
            PathRank::Before => path_before(a.deep_view(), b.deep_view()) && a.deep_view()
                != b.deep_view(),
            PathRank::Same => a.deep_view() == b.deep_view(),
            PathRank::After => !path_before(a.deep_view(), b.deep_view()) && a.deep_view()
                != b.deep_view(),
        },
{
    let ghost x = a.deep_view();
    let ghost y = b.deep_view();
    let mut i: usize = 0;
    assert(x.skip(0) =~= x);
    assert(y.skip(0) =~= y);
    while i < a.len() && i < b.len()
        invariant
            i <= a@.len(),
            i <= b@.len(),
            x == a.deep_view(),
            y == b.deep_view(),
            x.take(i as int) == y.take(i as int),
            path_before(x, y) == path_before(x.skip(i as int), y.skip(i as int)),
        decreases a@.len() - i,
    {
        let ghost s = x.skip(i as int);
        let ghost t = y.skip(i as int);
        assert(s[0] == a@[i as int].deep_view() && t[0] == b@[i as int].deep_view());
        assert(s.skip(1) =~= x.skip(i + 1));
        assert(t.skip(1) =~= y.skip(i + 1));
        match rank_components(&a[i], &b[i]) {
            PathRank::Before => {
                assert(x[i as int] != y[i as int]);
                return PathRank::Before;
            },
            PathRank::After => {
                assert(x[i as int] != y[i as int]);
                return PathRank::After;
            },
            PathRank::Same => {},
        }
        assert(x.take(i + 1) =~= x.take(i as int).push(x[i as int]));
        assert(y.take(i + 1) =~= y.take(i as int).push(y[i as int]));
        i += 1;
    }
    if i < b.len() {
        assert(x.len() != y.len());
        PathRank::Before
    } else if i < a.len() {
        assert(x.len() != y.len());
        PathRank::After
    } else {
        assert(x.take(i as int) =~= x);
        assert(y.take(i as int) =~= y);
        PathRank::Same
    }
}

/// The sorted list with a path put in its place, unless the same path is there.
pub open spec fn with_path(sorted: Seq<Seq<char>>, path: Seq<char>) -> Seq<Seq<char>>
    decreases sorted.len(),
{
    let new = components_of(path);
    if sorted.len() == 0 {
        seq![path]
    } else if components_of(sorted.last()) == new {
        sorted
    } else if path_before(new, components_of(sorted.last())) {
        with_path(sorted.drop_last(), path).push(sorted.last())
    } else {
        sorted.push(path)
    }
}

/// The paths in order, each once.
pub open spec fn sorted_paths(paths: Seq<Seq<char>>) -> Seq<Seq<char>>
    decreases paths.len(),
{
    if paths.len() == 0 {
        seq![]
    } else {
        with_path(sorted_paths(paths.drop_last()), paths.last())
    }
}

proof fn lemma_with_path_tail(sorted: Seq<Seq<char>>, path: Seq<char>, p: int)
    requires
        0 < p <= sorted.len(),
        with_path(sorted, path) == with_path(sorted.take(p), path) + sorted.skip(p),
        components_of(sorted[p - 1]) != components_of(path),
        path_before(components_of(path), components_of(sorted[p - 1])),
    ensures
        with_path(sorted, path) == with_path(sorted.take(p - 1), path) + sorted.skip(p - 1),
{
    assert(sorted.take(p).drop_last() =~= sorted.take(p - 1));
    assert(with_path(sorted.take(p), path) == with_path(sorted.take(p - 1), path).push(
        sorted[p - 1],
    ));
    assert(with_path(sorted.take(p - 1), path).push(sorted[p - 1]) + sorted.skip(p) =~= with_path(
        sorted.take(p - 1),
        path,
    ) + sorted.skip(p - 1));
}

fn insert_path(sorted: &mut Vec<String>, path: String)
    ensures
        strs(final(sorted)@) == with_path(strs(old(sorted)@), path@),
{
    let ghost now = strs(sorted@);
    let new = components(path.as_str());
    let mut p: usize = sorted.len();
    assert(now.take(p as int) =~= now);
    assert(with_path(now, path@) + now.skip(p as int) =~= with_path(now, path@));
    while p > 0
        invariant
            p <= sorted@.len(),
            now == strs(sorted@),
            now == strs(old(sorted)@),
            new.deep_view() == components_of(path@),
            with_path(now, path@) == with_path(now.take(p as int), path@) + now.skip(p as int),
        decreases p,
    {
        let here = components(sorted[p - 1].as_str());
        assert(now[p - 1] == sorted@[p - 1]@);
        assert(now.take(p as int).last() == now[p - 1]);
        match rank_paths(&new, &here) {
            PathRank::Same => {
                assert(with_path(now.take(p as int), path@) == now.take(p as int));
                assert(now.take(p as int) + now.skip(p as int) =~= now);
                return;
            },
            PathRank::Before => {
                proof {
                    lemma_with_path_tail(now, path@, p as int);
                }
            },
            PathRank::After => {
                assert(with_path(now.take(p as int), path@) == now.take(p as int).push(path@));
                let ghost previous = sorted@;
                sorted.insert(p, path);
                assert(strs(sorted@) =~= now.take(p as int).push(path@) + now.skip(p as int)) by {
                    assert(sorted@ =~= previous.insert(p as int, path));
                }
                return;
            },
        }
        p -= 1;
    }
    assert(with_path(now.take(0), path@) =~= seq![path@]);
    let ghost previous = sorted@;
    sorted.insert(0, path);
    assert(strs(sorted@) =~= seq![path@] + now.skip(0)) by {
        assert(sorted@ =~= previous.insert(0, path));
    }
}

pub open spec fn resolved_all(cwd: Seq<char>, paths: Seq<Seq<char>>) -> Seq<Seq<char>> {
    Seq::new(paths.len(), |i: int| joined(cwd, paths[i]))
}

/// The files that a call of a write tool changes: the one it names, or those that
/// its patch touches. `patched` are the files of the patch in the input, `None`
/// where it cannot be parsed.
pub open spec fn changed_paths(
    tool: Seq<char>,
    input: JsonView,
    patched: Option<Seq<Seq<char>>>,
    cwd: Seq<char>,
) -> Seq<Seq<char>> {
    if tool == WRITE@ {
        match input.str_at("path"@) {
            Some(p) => seq![joined(cwd, p)],
            None => seq![],
        }
    } else if tool == EDIT@ {
        match (input.str_at("patch"@), patched) {
            (Some(_), Some(ps)) => resolved_all(cwd, ps),
            _ => seq![],
        }
    } else {
        seq![]
    }
}

/// The files that a call of a write tool changes, in order and each once.
pub fn changed_source_paths(
    tool_name: &str,
    input: &Json,
    patched: Option<&Vec<String>>,
    cwd: &str,
) -> (r: Vec<String>)
    ensures
        strs(r@) == sorted_paths(
            changed_paths(
                tool_name@,
                input.model(),
                match patched {
                    Some(ps) => Some(strs(ps@)),
                    None => None,
                },
                cwd@,
            ),
        ),
{
    let mut out: Vec<String> = Vec::new();
    assert(strs(out@) =~= seq![]);
    if str_eq(tool_name, WRITE) {
        match input.str_at("path") {
            Some(p) => {
                let full = join_path(cwd, p);
                let ghost one = seq![full@];
                assert(one.drop_last() =~= seq![]);
                assert(sorted_paths(one.drop_last()) =~= seq![]);
                insert_path(&mut out, full);
            },
            None => {},
        }
    } else if str_eq(tool_name, EDIT) {
        match (input.str_at("patch"), patched) {
            (Some(_), Some(ps)) => {
                let ghost all = resolved_all(cwd@, strs(ps@));
                assert(all.take(0) =~= seq![]);
                for i in 0..ps.len()
                    invariant
                        all == resolved_all(cwd@, strs(ps@)),
                        strs(out@) == sorted_paths(all.take(i as int)),
                {
                    let full = join_path(cwd, ps[i].as_str());
                    assert(all.take(i + 1).drop_last() =~= all.take(i as int));
                    assert(all.take(i + 1).last() == full@);
                    insert_path(&mut out, full);
                }
                assert(all.take(ps@.len() as int) =~= all);
            },
            _ => {},
        }
    }
    out
}

/// The tools go by their names, and the status tool comes before those that ask about
/// code.
pub proof fn the_tools_go_by_their_names()
    ensures
        LspTool::Status.id() == "lsp_status"@,
        LspTool::Ensure.id() == "lsp_ensure"@,
        LspTool::WaitReady.id() == "lsp_wait_ready"@,
        LspTool::GoToDefinition.id() == "go_to_definition"@,
        LspTool::FindReferences.id() == "find_references"@,
        LspTool::Hover.id() == "hover"@,
        LspTool::DocumentSymbols.id() == "document_symbols"@,
        LspTool::WorkspaceSymbols.id() == "workspace_symbols"@,
        LspTool::Diagnostics.id() == "diagnostics"@,
        intel_tools() =~= seq![
            LspTool::Ensure,
            LspTool::WaitReady,
            LspTool::GoToDefinition,
            LspTool::FindReferences,
            LspTool::Hover,
            LspTool::DocumentSymbols,
            LspTool::WorkspaceSymbols,
            LspTool::Diagnostics,
        ],
{
}

/// The files that a call changes: the path of a write, each file of an edit's patch,
/// taken from the working directory, and for any other call none.
pub proof fn changed_files_are_those_written(
    tool: Seq<char>,
    input: JsonView,
    files: Seq<Seq<char>>,
    cwd: Seq<char>,
    i: int,
)
    ensures
        input.str_at("path"@) matches Some(p) ==> changed_paths("Write"@, input, None, cwd) == seq![
            joined(cwd, p),
        ],
        input.str_at("path"@) is None ==> changed_paths("Write"@, input, None, cwd).len() == 0,
        input.str_at("patch"@) is Some ==> {
            let changed = changed_paths("Edit"@, input, Some(files), cwd);
            &&& changed.len() == files.len()
            &&& 0 <= i < files.len() ==> changed[i] == joined(cwd, files[i])
        },
        changed_paths("Edit"@, input, None, cwd).len() == 0,
        tool != "Write"@ && tool != "Edit"@ ==> changed_paths(tool, input, Some(files), cwd).len()
            == 0,
{
    reveal_strlit("Write");
    reveal_strlit("Edit");
    assert("Write"@.len() != "Edit"@.len());
}

proof fn lemma_component_order(a: ComponentView, b: ComponentView, c: ComponentView)
    ensures
        !component_before(a, a),
        a != b ==> component_before(a, b) || component_before(b, a),
        !(component_before(a, b) && component_before(b, a)),
        component_before(a, b) && component_before(b, c) ==> component_before(a, c),
{
    match a {
        ComponentView::Normal(x) => {
            before_is_strict_and_total(x, x);
            match b {
                ComponentView::Normal(y) => {
                    before_is_strict_and_total(x, y);
                    match c {
                        ComponentView::Normal(z) => {
                            if before(x, y) && before(y, z) {
                                before_is_transitive(x, y, z);
                            }
                        },
                        _ => {},
                    }
                },
                _ => {},
            }
        },
        _ => {},
    }
}

proof fn lemma_path_total(a: Seq<ComponentView>, b: Seq<ComponentView>)
    ensures
        a == b ==> !path_before(a, b),
        a != b ==> path_before(a, b) || path_before(b, a),
        !(path_before(a, b) && path_before(b, a)),
    decreases a.len(),
{
    if a.len() == 0 && b.len() == 0 {
        assert(a =~= b);
    } else if a.len() > 0 && b.len() > 0 {
        lemma_component_order(a[0], b[0], a[0]);
        lemma_path_total(a.skip(1), b.skip(1));
        if a[0] == b[0] && a.skip(1) == b.skip(1) {
            assert(a =~= seq![a[0]] + a.skip(1));
            assert(b =~= seq![b[0]] + b.skip(1));
        }
    }
}

proof fn lemma_path_transitive(
    a: Seq<ComponentView>,
    b: Seq<ComponentView>,
    c: Seq<ComponentView>,
)
    requires
        path_before(a, b),
        path_before(b, c),
    ensures
        path_before(a, c),
    decreases a.len(),
{
    if a.len() > 0 {
        lemma_component_order(a[0], b[0], c[0]);
        lemma_component_order(a[0], c[0], a[0]);
        lemma_component_order(b[0], c[0], a[0]);
        if a[0] == b[0] && b[0] == c[0] {
            lemma_path_transitive(a.skip(1), b.skip(1), c.skip(1));
        }
    }
}

/// Whether the paths stand in order, none of them twice.
pub open spec fn paths_in_order(s: Seq<Seq<char>>) -> bool {
    forall|i: int, j: int|
        0 <= i < j < s.len() ==> path_before(
            components_of(#[trigger] s[i]),
            components_of(#[trigger] s[j]),
        )
}

proof fn lemma_with_path(sorted: Seq<Seq<char>>, path: Seq<char>)
    requires
        paths_in_order(sorted),
    ensures
        paths_in_order(with_path(sorted, path)),
        with_path(sorted, path).len() > 0,
        forall|p: Seq<char>| #[trigger]
            with_path(sorted, path).contains(p) ==> sorted.contains(p) || p == path,
        forall|p: Seq<char>| #[trigger]
            sorted.contains(p) ==> with_path(sorted, path).contains(p),
        exists|k: int|
            0 <= k < with_path(sorted, path).len() && components_of(
                #[trigger] with_path(sorted, path)[k],
            ) == components_of(path),
    decreases sorted.len(),
{
    let new = components_of(path);
    let after = with_path(sorted, path);
    if sorted.len() == 0 {
        assert(after[0] == path);
    } else {
        let last = sorted.last();
        let front = sorted.drop_last();
        let n = sorted.len() - 1;
        assert(sorted[n] == last);
        assert forall|i: int| 0 <= i < front.len() implies front[i] == sorted[i] by {}
        assert forall|i: int, j: int| 0 <= i < j < front.len() implies path_before(
            components_of(#[trigger] front[i]),
            components_of(#[trigger] front[j]),
        ) by {
            assert(path_before(components_of(sorted[i]), components_of(sorted[j])));
        }
        if components_of(last) == new {
            assert(components_of(after[n]) == new);
        } else if path_before(new, components_of(last)) {
            lemma_with_path(front, path);
            let inner = with_path(front, path);
            assert(after == inner.push(last));
            assert forall|i: int, j: int| 0 <= i < j < after.len() implies path_before(
                components_of(#[trigger] after[i]),
                components_of(#[trigger] after[j]),
            ) by {
                if j == inner.len() {
                    assert(inner.contains(inner[i]));
                    if inner[i] != path {
                        assert(front.contains(inner[i]));
                        let k = choose|k: int| 0 <= k < front.len() && front[k] == inner[i];
                        assert(path_before(components_of(sorted[k]), components_of(sorted[n])));
                    }
                } else {
                    assert(after[i] == inner[i] && after[j] == inner[j]);
                }
            }
            assert forall|p: Seq<char>| #[trigger] after.contains(p) implies sorted.contains(p)
                || p == path by {
                let k = choose|k: int| 0 <= k < after.len() && after[k] == p;
                if k < inner.len() {
                    assert(inner.contains(inner[k]));
                    if p != path {
                        let m = choose|m: int| 0 <= m < front.len() && front[m] == p;
                        assert(sorted[m] == p);
                    }
                } else {
                    assert(sorted[n] == p);
                }
            }
            assert forall|p: Seq<char>| #[trigger] sorted.contains(p) implies after.contains(p) by {
                let k = choose|k: int| 0 <= k < sorted.len() && sorted[k] == p;
                if k < n {
                    assert(front[k] == p);
                    assert(front.contains(p));
                    let m = choose|m: int| 0 <= m < inner.len() && inner[m] == p;
                    assert(after[m] == p);
                } else {
                    assert(after[inner.len() as int] == p);
                }
            }
            let k = choose|k: int|
                0 <= k < inner.len() && components_of(#[trigger] inner[k]) == new;
            assert(after[k] == inner[k]);
        } else {
            lemma_path_total(new, components_of(last));
            assert(after == sorted.push(path));
            assert forall|i: int, j: int| 0 <= i < j < after.len() implies path_before(
                components_of(#[trigger] after[i]),
                components_of(#[trigger] after[j]),
            ) by {
                if j == sorted.len() {
                    if i < n {
                        assert(path_before(components_of(sorted[i]), components_of(sorted[n])));
                        lemma_path_transitive(
                            components_of(sorted[i]),
                            components_of(last),
                            new,
                        );
                    }
                } else {
                    assert(after[i] == sorted[i] && after[j] == sorted[j]);
                }
            }
            assert forall|p: Seq<char>| #[trigger] after.contains(p) implies sorted.contains(p)
                || p == path by {
                let k = choose|k: int| 0 <= k < after.len() && after[k] == p;
                if k < sorted.len() {
                    assert(sorted[k] == p);
                }
            }
            assert forall|p: Seq<char>| #[trigger] sorted.contains(p) implies after.contains(p) by {
                let k = choose|k: int| 0 <= k < sorted.len() && sorted[k] == p;
                assert(after[k] == p);
            }
            assert(after[sorted.len() as int] == path);
        }
    }
}

/// Every file that changed is told once, and no other: the list is in order, each path of
/// it is one of those given, and each of those given is in it, however it was spelled.
pub proof fn every_changed_file_is_told_once(paths: Seq<Seq<char>>, i: int)
    ensures
        paths_in_order(sorted_paths(paths)),
        forall|p: Seq<char>| #[trigger]
            sorted_paths(paths).contains(p) ==> paths.contains(p),
        0 <= i < paths.len() ==> exists|k: int|
            0 <= k < sorted_paths(paths).len() && components_of(#[trigger] sorted_paths(paths)[k])
                == components_of(paths[i]),
    decreases paths.len(),
{
    if paths.len() > 0 {
        let front = paths.drop_last();
        let before_last = sorted_paths(front);
        every_changed_file_is_told_once(front, i);
        lemma_with_path(before_last, paths.last());
        let after = sorted_paths(paths);
        assert forall|p: Seq<char>| #[trigger] after.contains(p) implies paths.contains(p) by {
            if p == paths.last() {
                assert(paths[paths.len() - 1] == p);
            } else {
                assert(before_last.contains(p));
                assert(front.contains(p));
                let m = choose|m: int| 0 <= m < front.len() && front[m] == p;
                assert(paths[m] == p);
            }
        }
        if 0 <= i < front.len() {
            assert(front[i] == paths[i]);
            let k = choose|k: int|
                0 <= k < before_last.len() && components_of(#[trigger] before_last[k])
                    == components_of(front[i]);
            assert(before_last.contains(before_last[k]));
            assert(after.contains(before_last[k]));
            let m = choose|m: int| 0 <= m < after.len() && after[m] == before_last[k];
            assert(components_of(after[m]) == components_of(paths[i]));
        }
    }
}

} // verus!
