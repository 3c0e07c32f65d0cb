//! Paths as text: their components, and the clean form that containment is
//! decided on.

use crate::text::{
    chars_of, clone_strings, contains_str, first_index, first_index_is_first, join, join_strings,
    split, split_char, splitting_goes_by_parts, str_eq, string_of_range, strs,
};
use vstd::prelude::*;

verus! {

/// One component of a path.
#[derive(Debug, PartialEq, Eq)]
pub enum Component {
    RootDir,
    CurDir,
    ParentDir,
    Normal(String),
}

/// The mathematical value of a [`Component`].
pub enum ComponentView {
    RootDir,
    CurDir,
    ParentDir,
    Normal(Seq<char>),
}

impl DeepView for Component {
    type V = ComponentView;

    open spec fn deep_view(&self) -> ComponentView {
        match self {
            Component::RootDir => ComponentView::RootDir,
            Component::CurDir => ComponentView::CurDir,
            Component::ParentDir => ComponentView::ParentDir,
            Component::Normal(name) => ComponentView::Normal(name@),
        }
    }
}

impl Clone for Component {
    fn clone(&self) -> (r: Self)
        ensures
            r == *self,
    {
        match self {
            Component::RootDir => Component::RootDir,
            Component::CurDir => Component::CurDir,
            Component::ParentDir => Component::ParentDir,
            Component::Normal(name) => Component::Normal(name.clone()),
        }
    }
}

/// Whether a path starts at the root.
pub open spec fn is_rooted(s: Seq<char>) -> bool {
    s.len() > 0 && s[0] == '/'
}

/// The component a piece between slashes stands for; empty pieces and `.`
/// stand for none.
pub open spec fn piece_components(p: Seq<char>) -> Seq<ComponentView> {
    if p.len() == 0 || p == "."@ {
        seq![]
    } else if p == ".."@ {
        seq![ComponentView::ParentDir]
    } else {
        seq![ComponentView::Normal(p)]
    }
}

pub open spec fn pieces_components(ps: Seq<Seq<char>>) -> Seq<ComponentView>
    decreases ps.len(),
{
    if ps.len() == 0 {
        seq![]
    } else {
        pieces_components(ps.drop_last()) + piece_components(ps.last())
    }
}

/// The components of a path. A leading `.` counts, every other one does not,
/// and neither do repeated or trailing slashes.
pub open spec fn components_of(s: Seq<char>) -> Seq<ComponentView> {
    let pieces = split(s, '/');
    (if is_rooted(s) {
        seq![ComponentView::RootDir]
    } else if pieces[0] == "."@ {
        seq![ComponentView::CurDir]
    } else {
        seq![]
    }) + pieces_components(pieces)
}

proof fn lemma_split_nonempty(s: Seq<char>, c: char)
    ensures
        split(s, c).len() > 0,
{
}

/// The components of a path.
pub fn components(path: &str) -> (r: Vec<Component>)
    ensures
        r.deep_view() == components_of(path@),
{
    let pieces = split_char(path, '/');
    let ghost ps = strs(pieces@);
    proof {
        lemma_split_nonempty(path@, '/');
    }
    let mut out: Vec<Component> = Vec::new();
    let chars = chars_of(path);
    if chars.len() > 0 && chars[0] == '/' {
        out.push(Component::RootDir);
    } else if str_eq(pieces[0].as_str(), ".") {
        out.push(Component::CurDir);
    }
    let ghost head = out.deep_view();
    assert(head =~= (if is_rooted(path@) {
        seq![ComponentView::RootDir]
    } else if ps[0] == "."@ {
        seq![ComponentView::CurDir]
    } else {
        seq![]
    }));
    assert(head + pieces_components(ps.take(0)) =~= head);
    for i in 0..pieces.len()
        invariant
            ps == strs(pieces@),
            out.deep_view() == head + pieces_components(ps.take(i as int)),
    {
        assert(ps.take(i + 1).drop_last() =~= ps.take(i as int));
        let ghost before = out.deep_view();
        let p = pieces[i].as_str();
        assert(ps.take(i + 1).last() == p@);
        if p.is_empty() || str_eq(p, ".") {
            assert(before + piece_components(p@) =~= before);
        } else if str_eq(p, "..") {
            out.push(Component::ParentDir);
            assert(out.deep_view() =~= before + piece_components(p@));
        } else {
            out.push(Component::Normal(p.to_owned()));
            assert(out.deep_view() =~= before + piece_components(p@));
        }
        assert(out.deep_view() =~= head + pieces_components(ps.take(i + 1)));
    }
    assert(ps.take(ps.len() as int) =~= ps);
    out
}

/// Whether two paths name the same file by their components.
pub open spec fn same_file(a: Seq<char>, b: Seq<char>) -> bool {
    components_of(a) == components_of(b)
}

fn is_same_component(a: &Component, b: &Component) -> (r: bool)
    ensures
        r == (a.deep_view() == b.deep_view()),
{
    match (a, b) {
        (Component::RootDir, Component::RootDir) => true,
        (Component::CurDir, Component::CurDir) => true,
        (Component::ParentDir, Component::ParentDir) => true,
        (Component::Normal(x), Component::Normal(y)) => str_eq(x.as_str(), y.as_str()),
        _ => false,
    }
}

/// Whether two paths name the same file: repeated slashes, a trailing one and `.`
/// inside make no difference.
pub fn is_same_file(a: &str, b: &str) -> (r: bool)
    ensures
        r == same_file(a@, b@),
{
    let x = components(a);
    let y = components(b);
    let ghost xs = components_of(a@);
    let ghost ys = components_of(b@);
    assert(xs.len() == x@.len() && ys.len() == y@.len());
    if x.len() != y.len() {
        return false;
    }
    for i in 0..x.len()
        invariant
            x.deep_view() == xs,
            y.deep_view() == ys,
            xs == components_of(a@),
            ys == components_of(b@),
            x@.len() == y@.len(),
            forall|k: int| 0 <= k < i ==> xs[k] == ys[k],
    {
        assert(xs[i as int] == x@[i as int].deep_view() && ys[i as int] == y@[i as int].deep_view());
        if !is_same_component(&x[i], &y[i]) {
            return false;
        }
    }
    assert(xs =~= ys);
    true
}

/// The name of the file a path points at: its last component, unless that is
/// the root, `.` or `..`.
pub open spec fn file_name_of(s: Seq<char>) -> Option<Seq<char>> {
    let cs = components_of(s);
    if cs.len() == 0 {
        None
    } else {
        match cs.last() {
            ComponentView::Normal(name) => Some(name),
            _ => None,
        }
    }
}

/// The last component, if it is a name.
pub fn file_name(path: &str) -> (r: Option<String>)
    ensures
        r.deep_view() == file_name_of(path@),
{
    let mut cs = components(path);
    assert(cs.deep_view().len() == cs@.len());
    let ghost all = cs@;
    match cs.pop() {
        Some(last) => {
            assert(last == all.last());
            assert(components_of(path@).last() == last.deep_view());
            match last {
                Component::Normal(name) => Some(name),
                _ => None,
            }
        },
        None => None,
    }
}

/// The position of the last dot, or the length where there is none.
pub open spec fn last_dot(name: Seq<char>) -> nat
    decreases name.len(),
{
    if name.len() == 0 {
        0
    } else if name.last() == '.' {
        (name.len() - 1) as nat
    } else if last_dot(name.drop_last()) < name.len() - 1 {
        last_dot(name.drop_last())
    } else {
        name.len()
    }
}

/// The name without its extension; a leading dot starts no extension.
pub open spec fn stem_of(name: Seq<char>) -> Seq<char> {
    let i = last_dot(name);
    if 0 < i < name.len() {
        name.take(i as int)
    } else {
        name
    }
}

/// The stem of the last name of a path, or nothing.
pub open spec fn file_stem_of(s: Seq<char>) -> Seq<char> {
    match file_name_of(s) {
        Some(n) => stem_of(n),
        None => ""@,
    }
}

pub proof fn lemma_last_dot(name: Seq<char>, i: int)
    requires
        0 <= i < name.len(),
        name[i] == '.',
        forall|k: int| i < k < name.len() ==> name[k] != '.',
    ensures
        last_dot(name) == i,
    decreases name.len(),
{
    if i < name.len() - 1 {
        assert(name.last() != '.');
        lemma_last_dot(name.drop_last(), i);
    }
}

pub proof fn lemma_no_dot(name: Seq<char>)
    requires
        forall|k: int| 0 <= k < name.len() ==> name[k] != '.',
    ensures
        last_dot(name) == name.len(),
    decreases name.len(),
{
    if name.len() > 0 {
        assert(name.last() != '.');
        lemma_no_dot(name.drop_last());
    }
}

/// `Path::file_stem`, or nothing where the path has no file name.
pub fn file_stem(path: &str) -> (r: String)
    ensures
        r@ == file_stem_of(path@),
{
    match file_name(path) {
        None => "".to_owned(),
        Some(name) => {
            let v = chars_of(name.as_str());
            let mut i: usize = v.len();
            while i > 0 && v[i - 1] != '.'
                invariant
                    i <= v@.len(),
                    v@ == name@,
                    forall|k: int| i <= k < v@.len() ==> v@[k] != '.',
                decreases i,
            {
                i -= 1;
            }
            proof {
                if i > 0 {
                    lemma_last_dot(name@, i - 1);
                } else {
                    lemma_no_dot(name@);
                }
            }
            if i > 1 {
                assert(v@.subrange(0, i - 1) =~= name@.take(i - 1));
                string_of_range(&v, 0, i - 1)
            } else {
                name
            }
        },
    }
}

/// Whether a path starts at the root.
pub fn is_absolute(path: &str) -> (r: bool)
    ensures
        r == is_rooted(path@),
{
    let v = chars_of(path);
    v.len() > 0 && v[0] == '/'
}

/// A path below another: an absolute `tail` replaces `base`.
pub open spec fn joined(base: Seq<char>, tail: Seq<char>) -> Seq<char> {
    if is_rooted(tail) {
        tail
    } else if base.len() == 0 || base.last() == '/' {
        base + tail
    } else {
        base + "/"@ + tail
    }
}

/// `Path::join`.
pub fn join_path(base: &str, tail: &str) -> (r: String)
    ensures
        r@ == joined(base@, tail@),
{
    if is_absolute(tail) {
        return tail.to_owned();
    }
    let v = chars_of(base);
    let mut out = base.to_owned();
    if v.len() > 0 && v[v.len() - 1] != '/' {
        out.append("/");
    }
    out.append(tail);
    out
}

// ---------------------------------------------------------------------------
// Clean paths
// ---------------------------------------------------------------------------

/// A path without `.` and `..`: its names from the root, or from the working
/// directory.
#[derive(Debug, PartialEq, Eq)]
pub struct CleanPath {
    pub absolute: bool,
    pub names: Vec<String>,
}

/// The mathematical value of a [`CleanPath`].
#[verifier::ext_equal]
pub struct CleanPathView {
    pub absolute: bool,
    pub names: Seq<Seq<char>>,
}

impl DeepView for CleanPath {
    type V = CleanPathView;

    open spec fn deep_view(&self) -> CleanPathView {
        CleanPathView { absolute: self.absolute, names: strs(self.names@) }
    }
}

impl Clone for CleanPath {
    fn clone(&self) -> (r: Self)
        ensures
            r.deep_view() == self.deep_view(),
    {
        CleanPath { absolute: self.absolute, names: clone_strings(&self.names) }
    }
}

/// Whether a piece is the name of a file or directory.
pub open spec fn is_name(n: Seq<char>) -> bool {
    n.len() > 0 && n != "."@ && n != ".."@ && !n.contains('/')
}

impl CleanPathView {
    /// Whether every name is one.
    pub open spec fn wf(self) -> bool {
        forall|i: int| 0 <= i < self.names.len() ==> is_name(#[trigger] self.names[i])
    }

    /// Whether the path lies at or below `root`.
    pub open spec fn under(self, root: CleanPathView) -> bool {
        self.absolute == root.absolute && root.names.is_prefix_of(self.names)
    }
}

/// Adds one component: `..` takes the last name away and stops at the top, a
/// root starts over.
pub open spec fn folded(p: CleanPathView, c: ComponentView) -> CleanPathView {
    match c {
        ComponentView::RootDir => CleanPathView { absolute: true, names: seq![] },
        ComponentView::CurDir => p,
        ComponentView::ParentDir => CleanPathView {
            absolute: p.absolute,
            names: if p.names.len() > 0 {
                p.names.drop_last()
            } else {
                p.names
            },
        },
        ComponentView::Normal(name) => CleanPathView {
            absolute: p.absolute,
            names: p.names.push(name),
        },
    }
}

pub open spec fn fold_components(p: CleanPathView, cs: Seq<ComponentView>) -> CleanPathView
    decreases cs.len(),
{
    if cs.len() == 0 {
        p
    } else {
        folded(fold_components(p, cs.drop_last()), cs.last())
    }
}

pub open spec fn empty_path() -> CleanPathView {
    CleanPathView { absolute: false, names: seq![] }
}

/// The path with `.` and `..` folded away.
pub open spec fn normalized(s: Seq<char>) -> CleanPathView {
    fold_components(empty_path(), components_of(s))
}

fn fold_into(p: &mut CleanPath, c: Component)
    ensures
        final(p).deep_view() == folded(old(p).deep_view(), c.deep_view()),
{
    match c {
        Component::RootDir => {
            p.absolute = true;
            p.names = Vec::new();
        },
        Component::CurDir => {},
        Component::ParentDir => {
            let _ = p.names.pop();
        },
        Component::Normal(name) => {
            p.names.push(name);
        },
    }
    assert(p.deep_view() =~= folded(old(p).deep_view(), c.deep_view()));
}

/// Purely lexical `.`/`..` folding. `..` past the top is dropped.
pub fn normalize_lexical(path: &str) -> (r: CleanPath)
    ensures
        r.deep_view() == normalized(path@),
        r.deep_view().wf(),
{
    let cs = components(path);
    let ghost all = cs.deep_view();
    let mut out = CleanPath { absolute: false, names: Vec::new() };
    assert(out.deep_view() =~= empty_path());
    for i in 0..cs.len()
        invariant
            all == cs.deep_view(),
            out.deep_view() == fold_components(empty_path(), all.take(i as int)),
    {
        assert(all.take(i + 1).drop_last() =~= all.take(i as int));
        let c = cs[i].clone();
        assert(all.take(i + 1).last() == c.deep_view());
        fold_into(&mut out, c);
    }
    assert(all.take(all.len() as int) =~= all);
    proof {
        normalizing_leaves_only_names(path@);
    }
    out
}

proof fn lemma_split_pieces(s: Seq<char>, c: char)
    ensures
        forall|i: int| 0 <= i < split(s, c).len() ==> !(#[trigger] split(s, c)[i]).contains(c),
    decreases s.len(),
{
    first_index_is_first(s, c);
    let n = first_index(s, c) as int;
    let all = split(s, c);
    if n < s.len() {
        let rest = s.skip(n + 1);
        lemma_split_pieces(rest, c);
        assert forall|i: int| 0 <= i < all.len() implies !(#[trigger] all[i]).contains(c) by {
            if i == 0 {
                assert(all[0] =~= s.take(n));
            } else {
                assert(all[i] == split(rest, c)[i - 1]);
            }
        }
    } else {
        assert(all =~= seq![s]);
    }
}

pub open spec fn all_names(cs: Seq<ComponentView>) -> bool {
    forall|i: int|
        0 <= i < cs.len() ==> ((#[trigger] cs[i]) matches ComponentView::Normal(n) ==> is_name(n))
}

proof fn lemma_pieces_are_names(ps: Seq<Seq<char>>)
    requires
        forall|i: int| 0 <= i < ps.len() ==> !(#[trigger] ps[i]).contains('/'),
    ensures
        all_names(pieces_components(ps)),
    decreases ps.len(),
{
    if ps.len() > 0 {
        let rest = ps.drop_last();
        assert forall|i: int| 0 <= i < rest.len() implies !(#[trigger] rest[i]).contains('/') by {
            assert(rest[i] == ps[i]);
        }
        lemma_pieces_are_names(rest);
        let before = pieces_components(rest);
        let all = pieces_components(ps);
        assert(!ps[ps.len() - 1].contains('/'));
        assert forall|i: int| 0 <= i < all.len() implies ((
        #[trigger] all[i]) matches ComponentView::Normal(n) ==> is_name(n)) by {
            if i < before.len() {
                assert(all[i] == before[i]);
            } else {
                assert(all[i] == piece_components(ps.last())[i - before.len()]);
            }
        }
    }
}

/// The named components of a path are names.
pub proof fn components_are_names(s: Seq<char>)
    ensures
        all_names(components_of(s)),
{
    lemma_split_pieces(s, '/');
    let ps = split(s, '/');
    lemma_pieces_are_names(ps);
    let rest = pieces_components(ps);
    let all = components_of(s);
    let d = all.len() - rest.len();
    assert forall|i: int| 0 <= i < all.len() implies ((
    #[trigger] all[i]) matches ComponentView::Normal(n) ==> is_name(n)) by {
        if i >= d {
            assert(all[i] == rest[i - d]);
        }
    }
}

proof fn lemma_fold_wf(p: CleanPathView, cs: Seq<ComponentView>)
    requires
        p.wf(),
        all_names(cs),
    ensures
        fold_components(p, cs).wf(),
    decreases cs.len(),
{
    if cs.len() > 0 {
        let rest = cs.drop_last();
        assert(all_names(rest)) by {
            assert forall|i: int| 0 <= i < rest.len() implies ((
            #[trigger] rest[i]) matches ComponentView::Normal(n) ==> is_name(n)) by {
                assert(rest[i] == cs[i]);
            }
        }
        lemma_fold_wf(p, rest);
        let before = fold_components(p, rest);
        let after = fold_components(p, cs);
        assert(cs[cs.len() - 1] == cs.last());
        assert forall|i: int| 0 <= i < after.names.len() implies is_name(
            #[trigger] after.names[i],
        ) by {
            if i < before.names.len() {
                assert(after.names[i] == before.names[i]);
            }
        }
    }
}

/// No `.`, `..` or slash survives in the names of a normalized path.
pub proof fn normalizing_leaves_only_names(s: Seq<char>)
    ensures
        normalized(s).wf(),
{
    components_are_names(s);
    lemma_fold_wf(empty_path(), components_of(s));
}

// ---------------------------------------------------------------------------
// Deepest existing ancestor
// ---------------------------------------------------------------------------

/// The text of a component.
pub open spec fn component_text(c: ComponentView) -> Seq<char> {
    match c {
        ComponentView::RootDir => seq![],
        ComponentView::CurDir => "."@,
        ComponentView::ParentDir => ".."@,
        ComponentView::Normal(name) => name,
    }
}

pub open spec fn component_texts(cs: Seq<ComponentView>) -> Seq<Seq<char>> {
    Seq::new(cs.len(), |i: int| component_text(cs[i]))
}

/// The text of a list of components.
pub open spec fn components_text(cs: Seq<ComponentView>) -> Seq<char> {
    if cs.len() == 1 && cs[0] is RootDir {
        "/"@
    } else {
        join(component_texts(cs), "/"@)
    }
}

/// Number of names at the end of a path, before the first other component.
pub open spec fn trailing_names(cs: Seq<ComponentView>) -> nat
    decreases cs.len(),
{
    if cs.len() > 0 && cs.last() is Normal {
        trailing_names(cs.drop_last()) + 1
    } else {
        0
    }
}

/// The ancestors of a path that may exist, deepest first: the path itself, then
/// without its last name, and so on up to the first component that is no name.
pub open spec fn ancestors_of(cs: Seq<ComponentView>) -> Seq<Seq<char>> {
    Seq::new(trailing_names(cs) + 1, |i: int| components_text(cs.take(cs.len() - i)))
}

proof fn lemma_trailing_names(cs: Seq<ComponentView>)
    ensures
        trailing_names(cs) <= cs.len(),
        forall|i: int| cs.len() - trailing_names(cs) <= i < cs.len() ==> (#[trigger] cs[i]) is Normal,
    decreases cs.len(),
{
    if cs.len() > 0 && cs.last() is Normal {
        let rest = cs.drop_last();
        lemma_trailing_names(rest);
        assert forall|i: int| cs.len() - trailing_names(cs) <= i < cs.len() implies (
        #[trigger] cs[i]) is Normal by {
            if i < rest.len() {
                assert(rest[i] == cs[i]);
            }
        }
    }
}

fn count_trailing_names(cs: &Vec<Component>) -> (n: usize)
    ensures
        n == trailing_names(cs.deep_view()),
        n <= cs@.len(),
{
    let ghost all = cs.deep_view();
    let mut n: usize = 0;
    assert(all.take(all.len() as int) =~= all);
    while n < cs.len()
        invariant
            n <= cs@.len(),
            all == cs.deep_view(),
            trailing_names(all) == n + trailing_names(all.take(all.len() - n)),
        decreases cs@.len() - n,
    {
        let ghost rest = all.take(all.len() - n);
        assert(rest.last() == cs@[cs@.len() - n - 1].deep_view());
        match &cs[cs.len() - n - 1] {
            Component::Normal(_) => {},
            _ => {
                return n;
            },
        }
        assert(rest.drop_last() =~= all.take(all.len() - n - 1));
        n += 1;
    }
    assert(all.take(0).len() == 0);
    n
}

fn text_of_components(cs: &Vec<Component>, n: usize) -> (r: String)
    requires
        n <= cs@.len(),
    ensures
        r@ == components_text(cs.deep_view().take(n as int)),
{
    let ghost all = cs.deep_view().take(n as int);
    if n == 1 {
        assert(all[0] == cs@[0].deep_view());
        match &cs[0] {
            Component::RootDir => {
                return "/".to_owned();
            },
            _ => {},
        }
    }
    let mut parts: Vec<String> = Vec::new();
    for i in 0..n
        invariant
            n <= cs@.len(),
            all == cs.deep_view().take(n as int),
            strs(parts@) == component_texts(all).take(i as int),
    {
        let ghost before = strs(parts@);
        let text = match &cs[i] {
            Component::RootDir => String::new(),
            Component::CurDir => ".".to_owned(),
            Component::ParentDir => "..".to_owned(),
            Component::Normal(name) => name.clone(),
        };
        assert(all[i as int] == cs@[i as int].deep_view());
        assert(text@ =~= component_text(all[i as int]));
        parts.push(text);
        assert(strs(parts@) =~= before.push(component_texts(all)[i as int]));
        assert(strs(parts@) =~= component_texts(all).take(i + 1));
    }
    assert(strs(parts@) =~= component_texts(all));
    join_strings(&parts, "/")
}

/// The ancestors of `path` to look for on disk, deepest first.
pub fn ancestors(path: &str) -> (r: Vec<String>)
    ensures
        strs(r@) == ancestors_of(components_of(path@)),
{
    let cs = components(path);
    let ghost all = cs.deep_view();
    let n = count_trailing_names(&cs);
    let mut out: Vec<String> = Vec::new();
    let mut i: usize = 0;
    loop
        invariant
            n <= cs@.len(),
            i <= n,
            all == cs.deep_view(),
            all == components_of(path@),
            n == trailing_names(all),
            strs(out@) == ancestors_of(all).take(i as int),
        decreases n - i,
    {
        let ghost before = strs(out@);
        let text = text_of_components(&cs, cs.len() - i);
        out.push(text);
        assert(strs(out@) =~= before.push(ancestors_of(all)[i as int]));
        assert(strs(out@) =~= ancestors_of(all).take(i + 1));
        if i == n {
            assert(strs(out@) =~= ancestors_of(all));
            return out;
        }
        i += 1;
    }
}

/// The ancestor of a path that exists.
#[derive(Debug, PartialEq, Eq)]
pub struct ExistingAncestor {
    /// Its place in the list of [`ancestors`].
    pub index: usize,
    /// Where it is, with links resolved.
    pub resolved: CleanPath,
}

/// The resolved ancestor with the missing names behind it; where nothing
/// exists, the path with `.` and `..` folded.
pub open spec fn canonical(s: Seq<char>, found: Option<(nat, CleanPathView)>) -> CleanPathView {
    let cs = components_of(s);
    match found {
        Some(f) => fold_components(f.1, cs.skip(cs.len() - f.0)),
        None => normalized(s),
    }
}

pub open spec fn found_view(found: Option<ExistingAncestor>) -> Option<(nat, CleanPathView)> {
    match found {
        Some(f) => Some((f.index as nat, f.resolved.deep_view())),
        None => None,
    }
}

/// Canonicalize best-effort: the deepest ancestor that exists, resolved (so
/// that links classify correctly even for files about to be created), then the
/// missing tail with `.` and `..` folded. The folding matters: a traversal
/// through a missing directory must not pass a containment check with `..`
/// still inside.
pub fn canonicalize_best_effort(path: &str, found: Option<ExistingAncestor>) -> (r: CleanPath)
    requires
        found matches Some(f) ==> f.index <= trailing_names(components_of(path@)),
    ensures
        r.deep_view() == canonical(path@, found_view(found)),
        (found matches Some(f) ==> f.resolved.deep_view().wf()) ==> r.deep_view().wf(),
{
    match found {
        None => normalize_lexical(path),
        Some(f) => {
            let cs = components(path);
            let ghost all = cs.deep_view();
            let ghost base = f.resolved.deep_view();
            proof {
                lemma_trailing_names(all);
                components_are_names(path@);
            }
            let start: usize = cs.len() - f.index;
            let ghost tail = all.skip(start as int);
            let mut out = f.resolved;
            let mut i: usize = start;
            assert(tail.take(0).len() == 0);
            while i < cs.len()
                invariant
                    start <= i <= cs@.len(),
                    all == cs.deep_view(),
                    tail == all.skip(start as int),
                    out.deep_view() == fold_components(base, tail.take(i - start)),
                decreases cs@.len() - i,
            {
                assert(tail.take(i + 1 - start).drop_last() =~= tail.take(i - start));
                let c = cs[i].clone();
                assert(tail.take(i + 1 - start).last() == c.deep_view());
                fold_into(&mut out, c);
                i += 1;
            }
            assert(tail.take(tail.len() as int) =~= tail);
            proof {
                if base.wf() {
                    assert(all_names(tail)) by {
                        assert forall|k: int| 0 <= k < tail.len() implies ((
                        #[trigger] tail[k]) matches ComponentView::Normal(n) ==> is_name(n)) by {
                            assert(tail[k] == all[k + start]);
                        }
                    }
                    lemma_fold_wf(base, tail);
                }
            }
            out
        },
    }
}

impl CleanPath {
    /// Whether the path lies at or below `root`.
    pub fn starts_with(&self, root: &CleanPath) -> (r: bool)
        ensures
            r == self.deep_view().under(root.deep_view()),
    {
        let ghost a = strs(self.names@);
        let ghost b = strs(root.names@);
        if self.absolute != root.absolute || root.names.len() > self.names.len() {
            return false;
        }
        for i in 0..root.names.len()
            invariant
                a == strs(self.names@),
                b == strs(root.names@),
                b.len() <= a.len(),
                forall|k: int| 0 <= k < i ==> b[k] == a[k],
        {
            if !str_eq(self.names[i].as_str(), root.names[i].as_str()) {
                assert(b[i as int] != a.subrange(0, b.len() as int)[i as int]);
                return false;
            }
            assert(b[i as int] == a[i as int]);
        }
        assert(b =~= a.subrange(0, b.len() as int));
        true
    }

    /// Whether the paths are the same.
    pub fn is_same(&self, other: &CleanPath) -> (r: bool)
        ensures
            r == (self.deep_view() == other.deep_view()),
    {
        let same = self.names.len() == other.names.len() && self.starts_with(other);
        proof {
            if same {
                let a = strs(self.names@);
                assert(a.subrange(0, a.len() as int) =~= a);
            } else if self.deep_view() == other.deep_view() {
                let a = strs(self.names@);
                assert(a.subrange(0, a.len() as int) =~= a);
                assert(self.names@.len() == a.len() && other.names@.len() == strs(other.names@).len());
            }
        }
        same
    }

    /// Whether one of the names is `name`.
    pub fn has_name(&self, name: &str) -> (r: bool)
        ensures
            r == self.deep_view().names.contains(name@),
    {
        contains_str(&self.names, name)
    }

    /// The last name.
    pub fn last_name(&self) -> (r: Option<&str>)
        ensures
            match r {
                Some(n) => self.deep_view().names.len() > 0 && self.deep_view().names.last() == n@,
                None => self.deep_view().names.len() == 0,
            },
    {
        if self.names.len() == 0 {
            None
        } else {
            Some(self.names[self.names.len() - 1].as_str())
        }
    }
}

/// What lies under a root that lies under another root lies under that one too.
pub proof fn containment_is_transitive(p: CleanPathView, a: CleanPathView, b: CleanPathView)
    requires
        p.under(a),
        a.under(b),
    ensures
        p.under(b),
{
    assert(b.names =~= p.names.subrange(0, b.names.len() as int));
}

// ---------------------------------------------------------------------------
// What paths mean
// ---------------------------------------------------------------------------

/// An absolute path stands for itself; any other one is taken from the base, with one
/// slash between.
pub proof fn paths_are_taken_from_their_base(base: Seq<char>, tail: Seq<char>)
    ensures
        tail.len() > 0 && tail[0] == '/' ==> joined(base, tail) == tail,
        !(tail.len() > 0 && tail[0] == '/') && base.len() > 0 && base.last() != '/' ==> joined(
            base,
            tail,
        ) == base + seq!['/'] + tail,
        !(tail.len() > 0 && tail[0] == '/') && (base.len() == 0 || base.last() == '/') ==> joined(
            base,
            tail,
        ) == base + tail,
        is_rooted(tail) <==> tail.len() > 0 && tail[0] == '/',
{
    reveal_strlit("/");
    assert("/"@ =~= seq!['/']);
}

proof fn lemma_pieces_concat(a: Seq<Seq<char>>, b: Seq<Seq<char>>)
    ensures
        pieces_components(a + b) == pieces_components(a) + pieces_components(b),
    decreases b.len(),
{
    if b.len() == 0 {
        assert(a + b =~= a);
        assert(pieces_components(a) + pieces_components(b) =~= pieces_components(a));
    } else {
        lemma_pieces_concat(a, b.drop_last());
        assert((a + b).drop_last() =~= a + b.drop_last());
        assert((a + b).last() == b.last());
        assert(pieces_components(a + b) =~= pieces_components(a) + pieces_components(b));
    }
}

proof fn lemma_one_piece(p: Seq<char>)
    ensures
        pieces_components(seq![p]) == piece_components(p),
{
    assert(seq![p].drop_last() =~= seq![]);
    assert(pieces_components(seq![p].drop_last()) =~= seq![]);
    assert(Seq::<ComponentView>::empty() + piece_components(p) =~= piece_components(p));
}

/// What a piece without a slash adds to a path: a name adds itself, two dots go up, one
/// dot and nothing at all add nothing.
pub proof fn a_piece_adds_its_component(base: Seq<char>, piece: Seq<char>)
    requires
        base.len() > 0,
        !piece.contains('/'),
    ensures
        is_name(piece) ==> components_of(joined(base, piece)) == components_of(base).push(
            ComponentView::Normal(piece),
        ),
        piece == seq!['.', '.'] ==> components_of(joined(base, piece)) == components_of(base).push(
            ComponentView::ParentDir,
        ),
        piece == seq!['.'] || piece.len() == 0 ==> components_of(joined(base, piece))
            == components_of(base),
{
    reveal_strlit("/");
    reveal_strlit(".");
    reveal_strlit("..");
    assert("/"@ =~= seq!['/']);
    assert("."@ =~= seq!['.']);
    assert(".."@ =~= seq!['.', '.']);
    if piece.len() > 0 && piece[0] == '/' {
        assert(piece.contains('/'));
    }
    let whole = joined(base, piece);
    assert(whole[0] == base[0]);
    lemma_one_piece(piece);
    lemma_split_nonempty(base, '/');
    let first = split(base, '/');
    let all = split(whole, '/');
    if base.last() == '/' {
        let front = base.drop_last();
        assert(base =~= front + seq!['/'] + Seq::<char>::empty());
        assert(whole =~= front + seq!['/'] + piece);
        splitting_goes_by_parts(front, '/', Seq::empty());
        splitting_goes_by_parts(front, '/', piece);
        lemma_split_nonempty(front, '/');
        lemma_pieces_concat(split(front, '/'), seq![piece]);
        lemma_pieces_concat(split(front, '/'), seq![Seq::<char>::empty()]);
        lemma_one_piece(Seq::empty());
        assert(first[0] == split(front, '/')[0]);
        assert(all[0] == split(front, '/')[0]);
        assert(pieces_components(first) =~= pieces_components(split(front, '/')));
    } else {
        splitting_goes_by_parts(base, '/', piece);
        lemma_pieces_concat(first, seq![piece]);
        assert(all[0] == first[0]);
    }
    assert(pieces_components(all) =~= pieces_components(first) + piece_components(piece));
    assert(components_of(whole) =~= components_of(base) + piece_components(piece));
}

/// Folding a path: a name goes below, two dots go up to the top and no further, one dot
/// stays.
pub proof fn folding_goes_down_and_up(base: Seq<char>, piece: Seq<char>)
    requires
        base.len() > 0,
        !piece.contains('/'),
    ensures
        is_name(piece) ==> normalized(joined(base, piece)) == (CleanPathView {
            absolute: normalized(base).absolute,
            names: normalized(base).names.push(piece),
        }),
        piece == seq!['.', '.'] ==> normalized(joined(base, piece)).absolute == normalized(
            base,
        ).absolute,
        piece == seq!['.', '.'] && normalized(base).names.len() > 0 ==> normalized(
            joined(base, piece),
        ).names == normalized(base).names.drop_last(),
        piece == seq!['.', '.'] && normalized(base).names.len() == 0 ==> normalized(
            joined(base, piece),
        ).names.len() == 0,
        piece == seq!['.'] || piece.len() == 0 ==> normalized(joined(base, piece)) == normalized(base),
{
    a_piece_adds_its_component(base, piece);
    let cs = components_of(base);
    assert(cs.push(ComponentView::Normal(piece)).drop_last() =~= cs);
    assert(cs.push(ComponentView::ParentDir).drop_last() =~= cs);
}

/// The root is absolute and without names; a name alone is relative.
pub proof fn paths_start_at_the_root_or_not(name: Seq<char>)
    requires
        is_name(name),
    ensures
        normalized(seq!['/']) == (CleanPathView { absolute: true, names: Seq::empty() }),
        normalized(name) == (CleanPathView { absolute: false, names: seq![name] }),
        normalized(seq!['/'] + name) == (CleanPathView { absolute: true, names: seq![name] }),
{
    reveal_strlit(".");
    let root = seq!['/'];
    assert(root =~= Seq::<char>::empty() + seq!['/'] + Seq::<char>::empty());
    splitting_goes_by_parts(Seq::empty(), '/', Seq::empty());
    assert(split(Seq::<char>::empty(), '/') =~= seq![Seq::<char>::empty()]) by {
        splitting_goes_by_parts(Seq::empty(), '/', Seq::empty());
    }
    lemma_one_piece(Seq::empty());
    lemma_pieces_concat(seq![Seq::<char>::empty()], seq![Seq::<char>::empty()]);
    assert(pieces_components(split(root, '/')) =~= seq![]);
    assert(components_of(root) =~= seq![ComponentView::RootDir]);
    let start = seq![ComponentView::RootDir];
    assert(start.drop_last() =~= seq![]);
    assert(fold_components(empty_path(), start.drop_last()) == empty_path());
    splitting_goes_by_parts(Seq::empty(), '/', name);
    lemma_one_piece(name);
    if name[0] == '/' {
        assert(name.contains('/'));
    }
    let cs = seq![ComponentView::Normal(name)];
    assert(split(name, '/') =~= seq![name]);
    assert(components_of(name) =~= cs);
    assert(cs.drop_last() =~= seq![]);
    assert(fold_components(empty_path(), cs.drop_last()) == empty_path());
    assert(Seq::<Seq<char>>::empty().push(name) =~= seq![name]);
    folding_goes_down_and_up(root, name);
    assert(joined(root, name) =~= root + name);
}

/// The file name of a path is its last name, with or without slashes behind it.
pub proof fn the_last_name_is_the_file_name(base: Seq<char>, name: Seq<char>)
    requires
        base.len() > 0,
        is_name(name),
    ensures
        file_name_of(joined(base, name)) == Some(name),
        file_name_of(joined(base, name) + seq!['/']) == Some(name),
        file_name_of(joined(base, seq!['.', '.'])) is None,
{
    a_piece_adds_its_component(base, name);
    let two = seq!['.', '.'];
    assert(!two.contains('/'));
    a_piece_adds_its_component(base, two);
    let whole = joined(base, name);
    assert(name.len() > 0 && whole.len() > 0);
    if name[0] == '/' {
        assert(name.contains('/'));
    }
    assert(whole.last() == name.last());
    if name.last() == '/' {
        assert(name[name.len() - 1] == '/');
        assert(name.contains('/'));
    }
    splitting_goes_by_parts(whole, '/', Seq::empty());
    assert(whole + seq!['/'] + Seq::<char>::empty() =~= whole + seq!['/']);
    lemma_pieces_concat(split(whole, '/'), seq![Seq::<char>::empty()]);
    lemma_one_piece(Seq::empty());
    lemma_split_nonempty(whole, '/');
    assert((whole + seq!['/'])[0] == whole[0]);
    assert(components_of(whole + seq!['/']) =~= components_of(whole));
}

/// The stem of a file name ends before the last dot, unless that dot is the first
/// character; a name without a dot is its own stem.
pub proof fn the_stem_ends_before_the_last_dot(
    base: Seq<char>,
    stem: Seq<char>,
    extension: Seq<char>,
)
    requires
        base.len() > 0,
        is_name(stem + seq!['.'] + extension),
        stem.len() > 0,
        !extension.contains('.'),
    ensures
        file_stem_of(joined(base, stem + seq!['.'] + extension)) == stem,
        stem_of(seq!['.'] + extension) == seq!['.'] + extension,
        stem_of(extension) == extension,
{
    let name = stem + seq!['.'] + extension;
    the_last_name_is_the_file_name(base, name);
    let i = stem.len() as int;
    assert forall|k: int| i < k < name.len() implies name[k] != '.' by {
        assert(name[k] == extension[k - i - 1]);
    }
    lemma_last_dot(name, i);
    assert(name.take(i) =~= stem);
    let hidden = seq!['.'] + extension;
    assert forall|k: int| 0 < k < hidden.len() implies hidden[k] != '.' by {
        assert(hidden[k] == extension[k - 1]);
    }
    lemma_last_dot(hidden, 0);
    lemma_no_dot(extension);
}

/// Two names in one place are one file just where they are the same.
pub proof fn another_name_is_another_file(base: Seq<char>, name: Seq<char>, other: Seq<char>)
    requires
        base.len() > 0,
        is_name(name),
        is_name(other),
    ensures
        same_file(base, base),
        same_file(joined(base, name), joined(base, other)) <==> name == other,
{
    a_piece_adds_its_component(base, name);
    a_piece_adds_its_component(base, other);
    let cs = components_of(base);
    let one = cs.push(ComponentView::Normal(name));
    let two = cs.push(ComponentView::Normal(other));
    assert(one.last() == ComponentView::Normal(name));
    assert(two.last() == ComponentView::Normal(other));
}

/// A dot behind a path, or a slash, names the same file; a name behind it does not.
pub proof fn spelling_makes_no_other_file(base: Seq<char>, name: Seq<char>)
    requires
        base.len() > 0,
        is_name(name),
    ensures
        same_file(joined(base, seq!['.']), base),
        same_file(joined(base, Seq::<char>::empty()), base),
        !same_file(joined(base, name), base),
{
    let dot = seq!['.'];
    assert(!dot.contains('/'));
    a_piece_adds_its_component(base, dot);
    a_piece_adds_its_component(base, Seq::empty());
    a_piece_adds_its_component(base, name);
    assert(components_of(joined(base, name)).len() == components_of(base).len() + 1);
}

/// A path lies under a root just where it is of the same kind and begins with the names
/// of the root. So it lies under itself and under what it is in, and nothing lies under
/// what is in it, or beside it.
pub proof fn containment_goes_by_names(
    root: CleanPathView,
    p: CleanPathView,
    name: Seq<char>,
    other: Seq<char>,
)
    ensures
        p.under(root) <==> p.absolute == root.absolute && root.names.len() <= p.names.len()
            && forall|k: int|
            0 <= k < root.names.len() ==> #[trigger] root.names[k] == p.names[k],
        root.under(root),
        (CleanPathView { absolute: root.absolute, names: root.names.push(name) }).under(root),
        !root.under(CleanPathView { absolute: root.absolute, names: root.names.push(name) }),
        name != other ==> !(CleanPathView {
            absolute: root.absolute,
            names: root.names.push(name),
        }).under(CleanPathView { absolute: root.absolute, names: root.names.push(other) }),
{
    let below = root.names.push(name);
    let beside = root.names.push(other);
    assert(root.names =~= below.subrange(0, root.names.len() as int));
    assert(root.names =~= root.names.subrange(0, root.names.len() as int));
    if p.absolute == root.absolute && root.names.len() <= p.names.len() && (forall|k: int|
        0 <= k < root.names.len() ==> #[trigger] root.names[k] == p.names[k]) {
        assert(root.names =~= p.names.subrange(0, root.names.len() as int));
    }
    if p.under(root) {
        let head = p.names.subrange(0, root.names.len() as int);
        assert forall|k: int| 0 <= k < root.names.len() implies #[trigger] root.names[k]
            == p.names[k] by {
            assert(head[k] == p.names[k]);
        }
    }
    if name != other {
        let n = root.names.len() as int;
        assert(below[n] == name && beside[n] == other);
        assert(below.subrange(0, n + 1)[n] == name);
    }
}

/// A path whose deepest existing ancestor is resolved goes on from there by the names
/// that do not exist yet; where the path itself exists it is where it resolves to.
pub proof fn missing_names_go_below_what_exists(
    base: Seq<char>,
    name: Seq<char>,
    missing: nat,
    resolved: CleanPathView,
)
    requires
        base.len() > 0,
        is_name(name),
        missing <= components_of(base).len(),
    ensures
        canonical(base, Some((0, resolved))) == resolved,
        canonical(joined(base, name), Some((missing + 1, resolved))) == (CleanPathView {
            absolute: canonical(base, Some((missing, resolved))).absolute,
            names: canonical(base, Some((missing, resolved))).names.push(name),
        }),
        canonical(joined(base, name), None) == (CleanPathView {
            absolute: canonical(base, None).absolute,
            names: canonical(base, None).names.push(name),
        }),
{
    let cs = components_of(base);
    assert(cs.skip(cs.len() as int) =~= seq![]);
    a_piece_adds_its_component(base, name);
    folding_goes_down_and_up(base, name);
    let more = cs.push(ComponentView::Normal(name));
    let tail = more.skip(cs.len() - missing);
    assert(tail =~= cs.skip(cs.len() - missing).push(ComponentView::Normal(name)));
    assert(tail.drop_last() =~= cs.skip(cs.len() - missing));
}

/// The ancestors of a path begin with the path itself and go up one name at a time, as
/// far as names reach.
pub proof fn ancestors_go_up_name_by_name(cs: Seq<ComponentView>, name: Seq<char>, i: int)
    ensures
        ancestors_of(cs).len() > 0,
        ancestors_of(cs)[0] == components_text(cs),
        ancestors_of(cs.push(ComponentView::Normal(name))).len() == ancestors_of(cs).len() + 1,
        0 <= i < ancestors_of(cs).len() ==> ancestors_of(cs.push(ComponentView::Normal(name)))[i
            + 1] == ancestors_of(cs)[i],
        cs.len() == 0 || cs.last() !is Normal ==> ancestors_of(cs).len() == 1,
{
    let more = cs.push(ComponentView::Normal(name));
    assert(more.drop_last() =~= cs);
    assert(cs.take(cs.len() as int) =~= cs);
    if 0 <= i < ancestors_of(cs).len() {
        lemma_trailing_names(cs);
        assert(more.take(more.len() - (i + 1)) =~= cs.take(cs.len() - i));
    }
}

/// The text of a path has a slash before each name.
pub proof fn names_are_written_behind_slashes(cs: Seq<ComponentView>, name: Seq<char>)
    requires
        cs.len() > 0,
    ensures
        components_text(seq![ComponentView::RootDir]) == seq!['/'],
        components_text(seq![ComponentView::Normal(name)]) == name,
        components_text(seq![ComponentView::RootDir, ComponentView::Normal(name)]) == seq!['/']
            + name,
        !(cs.len() == 1 && cs[0] is RootDir) ==> components_text(
            cs.push(ComponentView::Normal(name)),
        ) == components_text(cs) + seq!['/'] + name,
{
    reveal_strlit("/");
    assert("/"@ =~= seq!['/']);
    let more = cs.push(ComponentView::Normal(name));
    assert(component_texts(more).drop_last() =~= component_texts(cs));
    assert(component_texts(more).last() == name);
    let two = seq![ComponentView::RootDir, ComponentView::Normal(name)];
    assert(component_texts(two).drop_last() =~= seq![Seq::<char>::empty()]);
    reveal_with_fuel(join, 3);
    assert(Seq::<char>::empty() + "/"@ + name =~= seq!['/'] + name);
}

/// The view of a [`Component`] is made of all its parts, each as it is.
pub proof fn component_is_viewed_whole(x: &Component)
    ensures
        match x {
            Component::RootDir => x.deep_view() == (ComponentView::RootDir),
            Component::CurDir => x.deep_view() == (ComponentView::CurDir),
            Component::ParentDir => x.deep_view() == (ComponentView::ParentDir),
            Component::Normal(name) => x.deep_view() == (ComponentView::Normal(name@)),
        },
{
}

/// The view of a [`CleanPath`] is made of all its parts, each as it is.
pub proof fn clean_path_is_viewed_whole(x: &CleanPath)
    ensures
        x.deep_view() == (CleanPathView { absolute: x.absolute, names: strs(x.names@) }),
{
}

} // verus!
