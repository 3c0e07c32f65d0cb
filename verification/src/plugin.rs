//! Plugins: the marketplaces they come from, the list of enabled ones, and where
//! their files are.

use crate::pathname::{join_path, joined};
use crate::paths::{home_of, plugin_root};
use crate::sorting::{indices, name_order, sort_order};
use crate::text::{
    blank, chars_of, clone_opt_string, contains_str, find_from, first_index, first_index_is_first,
    is_blank, join, join_strings, lines, str_eq, str_lines, str_trim, string_of_range,
    strip_prefix, strs, trim,
};
use vstd::prelude::*;

verus! {

/// One plugin of a marketplace.
#[derive(Debug, PartialEq, Eq)]
pub struct MarketplacePluginEntry {
    pub name: String,
    pub description: Option<String>,
    /// Where its files are, below the root of the marketplace.
    pub source: String,
}

/// The mathematical value of a [`MarketplacePluginEntry`].
#[verifier::ext_equal]
pub struct MarketplacePluginEntryView {
    pub name: Seq<char>,
    pub description: Option<Seq<char>>,
    pub source: Seq<char>,
}

impl DeepView for MarketplacePluginEntry {
    type V = MarketplacePluginEntryView;

    open spec fn deep_view(&self) -> MarketplacePluginEntryView {
        MarketplacePluginEntryView {
            name: self.name@,
            description: self.description.deep_view(),
            source: self.source@,
        }
    }
}

impl Clone for MarketplacePluginEntry {
    fn clone(&self) -> (r: Self)
        ensures
            r.deep_view() == self.deep_view(),
    {
        let r = MarketplacePluginEntry {
            name: self.name.clone(),
            description: self.description.clone(),
            source: self.source.clone(),
        };
        r
    }
}

/// The index of a marketplace.
#[derive(Debug, PartialEq, Eq)]
pub struct MarketplaceIndex {
    pub name: String,
    pub description: Option<String>,
    pub plugins: Vec<MarketplacePluginEntry>,
}

/// The mathematical value of a [`MarketplaceIndex`].
#[verifier::ext_equal]
pub struct MarketplaceIndexView {
    pub name: Seq<char>,
    pub description: Option<Seq<char>>,
    pub plugins: Seq<MarketplacePluginEntryView>,
}

impl DeepView for MarketplaceIndex {
    type V = MarketplaceIndexView;

    open spec fn deep_view(&self) -> MarketplaceIndexView {
        MarketplaceIndexView {
            name: self.name@,
            description: self.description.deep_view(),
            plugins: self.plugins.deep_view(),
        }
    }
}

impl Clone for MarketplaceIndex {
    fn clone(&self) -> (r: Self)
        ensures
            r.deep_view() == self.deep_view(),
    {
        let r = MarketplaceIndex {
            name: self.name.clone(),
            description: self.description.clone(),
            plugins: self.plugins.clone(),
        };
        assert(r.plugins.deep_view() =~= self.plugins.deep_view());
        r
    }
}

/// What a plugin says of itself.
#[derive(Debug, PartialEq, Eq)]
pub struct PluginManifest {
    pub name: String,
    pub description: Option<String>,
    pub version: Option<String>,
}

/// The mathematical value of a [`PluginManifest`].
#[verifier::ext_equal]
pub struct PluginManifestView {
    pub name: Seq<char>,
    pub description: Option<Seq<char>>,
    pub version: Option<Seq<char>>,
}

impl DeepView for PluginManifest {
    type V = PluginManifestView;

    open spec fn deep_view(&self) -> PluginManifestView {
        PluginManifestView {
            name: self.name@,
            description: self.description.deep_view(),
            version: self.version.deep_view(),
        }
    }
}

impl Clone for PluginManifest {
    fn clone(&self) -> (r: Self)
        ensures
            r.deep_view() == self.deep_view(),
    {
        let r = PluginManifest {
            name: self.name.clone(),
            description: self.description.clone(),
            version: self.version.clone(),
        };
        r
    }
}

/// An installed plugin and the marketplace it came from.
#[derive(Debug, PartialEq, Eq)]
pub struct InstalledPlugin {
    pub name: String,
    pub root: String,
    pub marketplace: String,
}

/// The mathematical value of a [`InstalledPlugin`].
#[verifier::ext_equal]
pub struct InstalledPluginView {
    pub name: Seq<char>,
    pub root: Seq<char>,
    pub marketplace: Seq<char>,
}

impl DeepView for InstalledPlugin {
    type V = InstalledPluginView;

    open spec fn deep_view(&self) -> InstalledPluginView {
        InstalledPluginView {
            name: self.name@,
            root: self.root@,
            marketplace: self.marketplace@,
        }
    }
}

impl Clone for InstalledPlugin {
    fn clone(&self) -> (r: Self)
        ensures
            r.deep_view() == self.deep_view(),
    {
        let r = InstalledPlugin {
            name: self.name.clone(),
            root: self.root.clone(),
            marketplace: self.marketplace.clone(),
        };
        r
    }
}

/// A marketplace in the cache.
#[derive(Debug, PartialEq, Eq)]
pub struct MarketplaceRecord {
    pub slug: String,
    pub git_url: Option<String>,
    pub root: String,
    pub name: String,
    pub description: Option<String>,
    pub plugin_count: usize,
}

/// The mathematical value of a [`MarketplaceRecord`].
#[verifier::ext_equal]
pub struct MarketplaceRecordView {
    pub slug: Seq<char>,
    pub git_url: Option<Seq<char>>,
    pub root: Seq<char>,
    pub name: Seq<char>,
    pub description: Option<Seq<char>>,
    pub plugin_count: usize,
}

impl DeepView for MarketplaceRecord {
    type V = MarketplaceRecordView;

    open spec fn deep_view(&self) -> MarketplaceRecordView {
        MarketplaceRecordView {
            slug: self.slug@,
            git_url: self.git_url.deep_view(),
            root: self.root@,
            name: self.name@,
            description: self.description.deep_view(),
            plugin_count: self.plugin_count,
        }
    }
}

impl Clone for MarketplaceRecord {
    fn clone(&self) -> (r: Self)
        ensures
            r.deep_view() == self.deep_view(),
    {
        let r = MarketplaceRecord {
            slug: self.slug.clone(),
            git_url: self.git_url.clone(),
            root: self.root.clone(),
            name: self.name.clone(),
            description: self.description.clone(),
            plugin_count: self.plugin_count,
        };
        r
    }
}

/// A plugin of a marketplace, and whether it is installed.
#[derive(Debug, PartialEq, Eq)]
pub struct MarketplacePluginRecord {
    pub marketplace_slug: String,
    pub name: String,
    pub description: Option<String>,
    pub source: String,
    pub installed: bool,
}

/// The mathematical value of a [`MarketplacePluginRecord`].
#[verifier::ext_equal]
pub struct MarketplacePluginRecordView {
    pub marketplace_slug: Seq<char>,
    pub name: Seq<char>,
    pub description: Option<Seq<char>>,
    pub source: Seq<char>,
    pub installed: bool,
}

impl DeepView for MarketplacePluginRecord {
    type V = MarketplacePluginRecordView;

    open spec fn deep_view(&self) -> MarketplacePluginRecordView {
        MarketplacePluginRecordView {
            marketplace_slug: self.marketplace_slug@,
            name: self.name@,
            description: self.description.deep_view(),
            source: self.source@,
            installed: self.installed,
        }
    }
}

impl Clone for MarketplacePluginRecord {
    fn clone(&self) -> (r: Self)
        ensures
            r.deep_view() == self.deep_view(),
    {
        let r = MarketplacePluginRecord {
            marketplace_slug: self.marketplace_slug.clone(),
            name: self.name.clone(),
            description: self.description.clone(),
            source: self.source.clone(),
            installed: self.installed,
        };
        r
    }
}

/// An installed plugin with what it says of itself.
#[derive(Debug, PartialEq, Eq)]
pub struct InstalledPluginRecord {
    pub name: String,
    pub marketplace: String,
    pub root: String,
    pub description: Option<String>,
    pub version: Option<String>,
}

/// The mathematical value of a [`InstalledPluginRecord`].
#[verifier::ext_equal]
pub struct InstalledPluginRecordView {
    pub name: Seq<char>,
    pub marketplace: Seq<char>,
    pub root: Seq<char>,
    pub description: Option<Seq<char>>,
    pub version: Option<Seq<char>>,
}

impl DeepView for InstalledPluginRecord {
    type V = InstalledPluginRecordView;

    open spec fn deep_view(&self) -> InstalledPluginRecordView {
        InstalledPluginRecordView {
            name: self.name@,
            marketplace: self.marketplace@,
            root: self.root@,
            description: self.description.deep_view(),
            version: self.version.deep_view(),
        }
    }
}

impl Clone for InstalledPluginRecord {
    fn clone(&self) -> (r: Self)
        ensures
            r.deep_view() == self.deep_view(),
    {
        let r = InstalledPluginRecord {
            name: self.name.clone(),
            marketplace: self.marketplace.clone(),
            root: self.root.clone(),
            description: self.description.clone(),
            version: self.version.clone(),
        };
        r
    }
}

/// Reads and changes the plugins of a host. It holds nothing: what is installed is
/// on disk.
pub struct PluginManager;

// ---------------------------------------------------------------------------
// The list of enabled plugins
// ---------------------------------------------------------------------------

/// The name in a line of the list: the text before the first tab.
pub open spec fn line_key(line: Seq<char>) -> Seq<char> {
    line.take(first_index(line, '\t') as int)
}

fn key_of(line: &str) -> (r: String)
    ensures
        r@ == line_key(line@),
{
    let v = chars_of(line);
    assert(v@.skip(0) =~= v@);
    let i = find_from(&v, 0, '\t');
    assert(v@.subrange(0, i as int) =~= line@.take(i as int));
    string_of_range(&v, 0, i)
}

/// Whether a line says something of another plugin.
pub open spec fn about_another(name: Seq<char>) -> spec_fn(Seq<char>) -> bool {
    |line: Seq<char>| !blank(line) && line_key(line) != name
}

/// The lines about other plugins.
pub open spec fn other_lines(existing: Seq<char>, name: Seq<char>) -> Seq<Seq<char>> {
    lines(existing).filter(about_another(name))
}

fn keep_others(existing: &str, name: &str) -> (r: Vec<String>)
    ensures
        strs(r@) == other_lines(existing@, name@),
{
    let ls = str_lines(existing);
    let ghost all = lines(existing@);
    let ghost keep = about_another(name@);
    let mut out: Vec<String> = Vec::new();
    reveal(Seq::filter);
    assert(all.take(0).filter(keep) =~= seq![]);
    for i in 0..ls.len()
        invariant
            strs(ls@) == all,
            keep == about_another(name@),
            strs(out@) == all.take(i as int).filter(keep),
    {
        let ghost before = strs(out@);
        reveal(Seq::filter);
        assert(all.take(i + 1).drop_last() =~= all.take(i as int));
        assert(all.take(i + 1).last() == all[i as int]);
        assert(all[i as int] == ls@[i as int]@);
        if !is_blank(ls[i].as_str()) && !str_eq(key_of(ls[i].as_str()).as_str(), name) {
            out.push(ls[i].clone());
            assert(strs(out@) =~= before.push(all[i as int]));
        }
    }
    assert(all.take(ls@.len() as int) =~= all);
    out
}

/// The lines, each ended.
pub open spec fn ended_lines(ls: Seq<Seq<char>>) -> Seq<char> {
    if ls.len() == 0 {
        seq![]
    } else {
        join(ls, "\n"@) + "\n"@
    }
}

/// The line of a plugin.
pub open spec fn plugin_line(name: Seq<char>, marketplace: Seq<char>) -> Seq<char> {
    name + "\t"@ + marketplace
}

/// The list with a plugin added: any earlier line about it is dropped, by its
/// name and not by a prefix of it, and the new line comes last.
pub fn compose_enabled_body(existing: &str, name: &str, marketplace: &str) -> (r: String)
    ensures
        r@ == ended_lines(other_lines(existing@, name@)) + plugin_line(name@, marketplace@)
            + "\n"@,
{
    let kept = keep_others(existing, name);
    let mut body = join_strings(&kept, "\n");
    if kept.len() > 0 {
        body.append("\n");
    }
    assert(body@ =~= ended_lines(other_lines(existing@, name@)));
    body.append(name);
    body.append("\t");
    body.append(marketplace);
    body.append("\n");
    assert(body@ =~= ended_lines(other_lines(existing@, name@)) + plugin_line(name@, marketplace@)
        + "\n"@);
    body
}

/// The list with a plugin taken off.
pub fn remove_enabled_body(existing: &str, name: &str) -> (r: String)
    ensures
        r@ == ended_lines(other_lines(existing@, name@)),
{
    let kept = keep_others(existing, name);
    let mut body = join_strings(&kept, "\n");
    if kept.len() > 0 {
        body.append("\n");
    }
    assert(body@ =~= ended_lines(other_lines(existing@, name@)));
    body
}

/// A line that comes back as it is when a list of such lines is read.
pub open spec fn plain_line(line: Seq<char>) -> bool {
    !line.contains('\n') && !(line.len() > 0 && line.last() == '\r')
}

proof fn lemma_first_index_of_line(line: Seq<char>, rest: Seq<char>)
    requires
        !line.contains('\n'),
    ensures
        first_index(line + "\n"@ + rest, '\n') == line.len(),
{
    reveal_strlit("\n");
    let s = line + "\n"@ + rest;
    first_index_is_first(s, '\n');
    let i = first_index(s, '\n') as int;
    assert(s[line.len() as int] == '\n');
    if i < line.len() {
        assert(s[i] == line[i]);
        assert(line.contains(line[i]));
    }
}

proof fn lemma_lines_of_ended(ls: Seq<Seq<char>>, rest: Seq<char>)
    requires
        forall|i: int| 0 <= i < ls.len() ==> plain_line(#[trigger] ls[i]),
    ensures
        lines(ended_lines(ls) + rest) == ls + lines(rest),
    decreases ls.len(),
{
    reveal_strlit("\n");
    if ls.len() == 0 {
        assert(ended_lines(ls) + rest =~= rest);
        assert(ls + lines(rest) =~= lines(rest));
    } else {
        let front = ls.drop_last();
        let last = ls.last();
        let tail = last + "\n"@ + rest;
        assert(plain_line(ls[ls.len() - 1]));
        assert forall|i: int| 0 <= i < front.len() implies plain_line(#[trigger] front[i]) by {
            assert(front[i] == ls[i]);
        }
        lemma_lines_of_ended(front, tail);
        assert(ended_lines(ls) + rest =~= ended_lines(front) + tail) by {
            if ls.len() == 1 {
                assert(join(ls, "\n"@) == ls[0]);
                assert(ended_lines(front) =~= seq![]);
            } else {
                assert(join(ls, "\n"@) == join(front, "\n"@) + "\n"@ + last);
            }
        }
        lemma_first_index_of_line(last, rest);
        let n = last.len() as int;
        assert(tail.take(n) =~= last);
        assert(tail.skip(n + 1) =~= rest);
        assert(lines(tail) == seq![crate::text::strip_cr(last)] + lines(rest));
        assert(crate::text::strip_cr(last) == last);
        assert(front + (seq![last] + lines(rest)) =~= ls + lines(rest));
    }
}

/// Adding a plugin leaves the lines about other plugins as they are and puts one
/// line about this one behind them; taking it off leaves the others alone. Texts
/// with carriage returns are left out: reading a list drops those at a line's
/// end.
pub proof fn the_list_changes_by_one_plugin(
    existing: Seq<char>,
    name: Seq<char>,
    marketplace: Seq<char>,
)
    requires
        forall|i: int|
            0 <= i < other_lines(existing, name).len() ==> plain_line(
                #[trigger] other_lines(existing, name)[i],
            ),
        plain_line(plugin_line(name, marketplace)),
    ensures
        lines(
            ended_lines(other_lines(existing, name)) + plugin_line(name, marketplace) + "\n"@,
        ) == other_lines(existing, name).push(plugin_line(name, marketplace)),
        lines(ended_lines(other_lines(existing, name))) == other_lines(existing, name),
{
    reveal_strlit("\n");
    let kept = other_lines(existing, name);
    let line = plugin_line(name, marketplace);
    let none = Seq::<char>::empty();
    lemma_lines_of_ended(kept, none);
    assert(ended_lines(kept) + none =~= ended_lines(kept));
    assert(lines(none) =~= seq![]);
    assert(kept + lines(none) =~= kept);
    let tail = line + "\n"@;
    lemma_lines_of_ended(kept, tail);
    assert(ended_lines(kept) + tail =~= ended_lines(kept) + line + "\n"@);
    lemma_first_index_of_line(line, none);
    assert(line + "\n"@ + none =~= tail);
    let n = line.len() as int;
    assert(tail.take(n) =~= line);
    assert(tail.skip(n + 1) =~= none);
    assert(lines(tail) =~= seq![line]);
    assert(kept + seq![line] =~= kept.push(line));
}

// ---------------------------------------------------------------------------
// Installed plugins
// ---------------------------------------------------------------------------

/// A plugin named in the list, with its marketplace.
#[derive(Debug, PartialEq, Eq)]
pub struct EnabledEntry {
    pub name: String,
    pub marketplace: String,
}

/// The name and marketplace in a trimmed line.
pub open spec fn entry_of(line: Seq<char>) -> (Seq<char>, Seq<char>) {
    let i = first_index(line, '\t') as int;
    if i < line.len() {
        (line.take(i), line.skip(i + 1))
    } else {
        (line, seq![])
    }
}

/// The plugins that the list names, in its order.
pub open spec fn named_plugins(ls: Seq<Seq<char>>) -> Seq<(Seq<char>, Seq<char>)>
    decreases ls.len(),
{
    if ls.len() == 0 {
        seq![]
    } else {
        let rest = named_plugins(ls.drop_last());
        let line = trim(ls.last());
        if line.len() == 0 {
            rest
        } else {
            rest.push(entry_of(line))
        }
    }
}

pub open spec fn entry_views(es: Seq<EnabledEntry>) -> Seq<(Seq<char>, Seq<char>)> {
    Seq::new(es.len(), |i: int| (es[i].name@, es[i].marketplace@))
}

/// Reads the list of enabled plugins.
pub fn parse_enabled(raw: &str) -> (r: Vec<EnabledEntry>)
    ensures
        entry_views(r@) == named_plugins(lines(raw@)),
{
    let ls = str_lines(raw);
    let ghost all = lines(raw@);
    let mut out: Vec<EnabledEntry> = Vec::new();
    assert(entry_views(out@) =~= named_plugins(all.take(0)));
    for i in 0..ls.len()
        invariant
            strs(ls@) == all,
            entry_views(out@) == named_plugins(all.take(i as int)),
    {
        let ghost before = entry_views(out@);
        assert(all.take(i + 1).drop_last() =~= all.take(i as int));
        assert(all.take(i + 1).last() == ls@[i as int]@);
        let line = str_trim(ls[i].as_str());
        let v = chars_of(line.as_str());
        if v.len() > 0 {
            assert(v@.skip(0) =~= v@);
            let k = find_from(&v, 0, '\t');
            let name = string_of_range(&v, 0, k);
            let marketplace = if k < v.len() {
                string_of_range(&v, k + 1, v.len())
            } else {
                String::new()
            };
            proof {
                assert(v@.subrange(0, k as int) =~= line@.take(k as int));
                if k < v@.len() {
                    assert(v@.subrange(k + 1, v@.len() as int) =~= line@.skip(k + 1));
                } else {
                    assert(line@.take(k as int) =~= line@);
                    assert(marketplace@ =~= seq![]);
                }
            }
            out.push(EnabledEntry { name, marketplace });
            assert(entry_views(out@) =~= before.push(entry_of(line@)));
        }
    }
    assert(all.take(ls@.len() as int) =~= all);
    out
}

/// The plugins whose files are present.
pub open spec fn present_plugins(
    es: Seq<(Seq<char>, Seq<char>)>,
    base: Seq<char>,
    present: Seq<Seq<char>>,
) -> Seq<InstalledPluginView>
    decreases es.len(),
{
    if es.len() == 0 {
        seq![]
    } else {
        let rest = present_plugins(es.drop_last(), base, present);
        let (name, marketplace) = es.last();
        if present.contains(name) {
            rest.push(
                InstalledPluginView {
                    name,
                    root: joined(joined(home_of(base), "plugins"@), name),
                    marketplace,
                },
            )
        } else {
            rest
        }
    }
}

pub open spec fn installed_names(ps: Seq<InstalledPluginView>) -> Seq<Seq<char>> {
    Seq::new(ps.len(), |i: int| ps[i].name)
}

pub open spec fn sorted_installed(ps: Seq<InstalledPluginView>) -> Seq<InstalledPluginView> {
    let order = name_order(installed_names(ps), ps.len());
    Seq::new(order.len(), |i: int| ps[order[i]])
}

fn sort_installed(ps: &Vec<InstalledPlugin>) -> (r: Vec<InstalledPlugin>)
    ensures
        r.deep_view() == sorted_installed(ps.deep_view()),
{
    let ghost all = ps.deep_view();
    let mut names: Vec<String> = Vec::new();
    for i in 0..ps.len()
        invariant
            all == ps.deep_view(),
            strs(names@) == installed_names(all).take(i as int),
    {
        let ghost before = strs(names@);
        names.push(ps[i].name.clone());
        assert(strs(names@) =~= before.push(installed_names(all)[i as int]));
        assert(strs(names@) =~= installed_names(all).take(i + 1));
    }
    assert(strs(names@) =~= installed_names(all));
    let order = sort_order(&names);
    let ghost wanted = sorted_installed(all);
    let mut out: Vec<InstalledPlugin> = Vec::new();
    assert(wanted.len() == order@.len()) by {
        assert(indices(order@).len() == order@.len());
    }
    for i in 0..order.len()
        invariant
            all == ps.deep_view(),
            names@.len() == ps@.len(),
            wanted == sorted_installed(all),
            indices(order@) == name_order(installed_names(all), all.len()),
            wanted.len() == order@.len(),
            forall|i: int| 0 <= i < order@.len() ==> (#[trigger] order@[i]) < names@.len(),
            out.deep_view() == wanted.take(i as int),
    {
        let ghost before = out.deep_view();
        let p = ps[order[i]].clone();
        assert(indices(order@)[i as int] == order@[i as int] as int);
        assert(p.deep_view() == wanted[i as int]);
        out.push(p);
        assert(out.deep_view() =~= before.push(wanted[i as int]));
        assert(out.deep_view() =~= wanted.take(i + 1));
    }
    assert(out.deep_view() =~= wanted);
    out
}

impl PluginManager {
    /// The installed plugins, by name: those that the list `raw` names and whose
    /// files are present.
    pub fn installed(raw: &str, base: &str, present: &Vec<String>) -> (r: Vec<InstalledPlugin>)
        ensures
            r.deep_view() == sorted_installed(
                present_plugins(named_plugins(lines(raw@)), base@, strs(present@)),
            ),
    {
        let es = parse_enabled(raw);
        let ghost all = named_plugins(lines(raw@));
        let mut out: Vec<InstalledPlugin> = Vec::new();
        assert(out.deep_view() =~= present_plugins(all.take(0), base@, strs(present@)));
        for i in 0..es.len()
            invariant
                entry_views(es@) == all,
                out.deep_view() == present_plugins(all.take(i as int), base@, strs(present@)),
        {
            let ghost before = out.deep_view();
            let e = &es[i];
            assert(all.take(i + 1).drop_last() =~= all.take(i as int));
            assert(all.take(i + 1).last() == (e.name@, e.marketplace@));
            if contains_str(present, e.name.as_str()) {
                let p = InstalledPlugin {
                    name: e.name.clone(),
                    root: plugin_root(base, e.name.as_str()),
                    marketplace: e.marketplace.clone(),
                };
                out.push(p);
                assert(out.deep_view() =~= before.push(p.deep_view()));
            }
        }
        assert(all.take(es@.len() as int) =~= all);
        sort_installed(&out)
    }
}

/// Installed plugins come in the order of their names.
pub proof fn installed_plugins_come_by_name(ps: Seq<InstalledPluginView>, i: int, j: int)
    requires
        0 <= i < j < sorted_installed(ps).len(),
    ensures
        !crate::table::before(sorted_installed(ps)[j].name, sorted_installed(ps)[i].name),
        sorted_installed(ps).len() == ps.len(),
{
    let names = installed_names(ps);
    let order = name_order(names, ps.len());
    crate::sorting::sorting_orders_and_keeps_all(names, ps.len());
    assert(0 <= order[i] < ps.len() && 0 <= order[j] < ps.len());
    assert(!crate::table::before(names[order[j]], names[order[i]]));
}

/// An installed plugin with the description and version of its manifest, if that
/// could be read.
pub fn installed_record(plugin: InstalledPlugin, manifest: Option<PluginManifest>) -> (r:
    InstalledPluginRecord)
    ensures
        r.deep_view() == (InstalledPluginRecordView {
            name: plugin.name@,
            marketplace: plugin.marketplace@,
            root: plugin.root@,
            description: match manifest {
                Some(m) => m.description.deep_view(),
                None => None,
            },
            version: match manifest {
                Some(m) => m.version.deep_view(),
                None => None,
            },
        }),
{
    let (description, version) = match manifest {
        Some(m) => (m.description, m.version),
        None => (None, None),
    };
    InstalledPluginRecord {
        name: plugin.name,
        marketplace: plugin.marketplace,
        root: plugin.root,
        description,
        version,
    }
}

// ---------------------------------------------------------------------------
// Marketplaces
// ---------------------------------------------------------------------------

pub open spec fn plugin_record(
    slug: Seq<char>,
    p: MarketplacePluginEntryView,
    installed: Seq<Seq<char>>,
) -> MarketplacePluginRecordView {
    MarketplacePluginRecordView {
        marketplace_slug: slug,
        name: p.name,
        description: p.description,
        source: p.source,
        installed: installed.contains(p.name),
    }
}

pub open spec fn entry_names(ps: Seq<MarketplacePluginEntryView>) -> Seq<Seq<char>> {
    Seq::new(ps.len(), |i: int| ps[i].name)
}

/// The plugins of a marketplace, by name.
pub open spec fn plugin_records(
    slug: Seq<char>,
    ps: Seq<MarketplacePluginEntryView>,
    installed: Seq<Seq<char>>,
) -> Seq<MarketplacePluginRecordView> {
    let order = name_order(entry_names(ps), ps.len());
    Seq::new(order.len(), |i: int| plugin_record(slug, ps[order[i]], installed))
}

impl PluginManager {
    /// The plugins of a marketplace, by name, each with whether it is installed.
    pub fn list_marketplace_plugins(
        slug: &str,
        index: &MarketplaceIndex,
        installed: &Vec<String>,
    ) -> (r: Vec<MarketplacePluginRecord>)
        ensures
            r.deep_view() == plugin_records(
                slug@,
                index.deep_view().plugins,
                strs(installed@),
            ),
    {
        let ps = &index.plugins;
        let ghost all = ps.deep_view();
        let mut names: Vec<String> = Vec::new();
        for i in 0..ps.len()
            invariant
                all == ps.deep_view(),
                strs(names@) == entry_names(all).take(i as int),
        {
            let ghost before = strs(names@);
            names.push(ps[i].name.clone());
            assert(strs(names@) =~= before.push(entry_names(all)[i as int]));
            assert(strs(names@) =~= entry_names(all).take(i + 1));
        }
        assert(strs(names@) =~= entry_names(all));
        let order = sort_order(&names);
        let ghost wanted = plugin_records(slug@, all, strs(installed@));
        let mut out: Vec<MarketplacePluginRecord> = Vec::new();
        assert(wanted.len() == order@.len()) by {
            assert(indices(order@).len() == order@.len());
        }
        for i in 0..order.len()
            invariant
                all == ps.deep_view(),
                names@.len() == ps@.len(),
                wanted == plugin_records(slug@, all, strs(installed@)),
                indices(order@) == name_order(entry_names(all), all.len()),
                wanted.len() == order@.len(),
                forall|i: int| 0 <= i < order@.len() ==> (#[trigger] order@[i]) < names@.len(),
                out.deep_view() == wanted.take(i as int),
        {
            let ghost before = out.deep_view();
            let p = &ps[order[i]];
            assert(indices(order@)[i as int] == order@[i as int] as int);
            assert(all[order@[i as int] as int] == p.deep_view());
            let r = MarketplacePluginRecord {
                marketplace_slug: slug.to_owned(),
                name: p.name.clone(),
                description: clone_opt_string(&p.description),
                source: p.source.clone(),
                installed: contains_str(installed, p.name.as_str()),
            };
            assert(r.deep_view() == wanted[i as int]);
            out.push(r);
            assert(out.deep_view() =~= before.push(wanted[i as int]));
            assert(out.deep_view() =~= wanted.take(i + 1));
        }
        assert(out.deep_view() =~= wanted);
        out
    }
}

/// The position of the plugin with this name.
pub open spec fn plugin_at(ps: Seq<MarketplacePluginEntryView>, name: Seq<char>, i: int) -> int
    decreases ps.len() - i,
{
    if i >= ps.len() || ps[i].name == name {
        i
    } else {
        plugin_at(ps, name, i + 1)
    }
}

/// Where the files of a plugin are below the root of its marketplace.
pub open spec fn source_path(repo_root: Seq<char>, source: Seq<char>) -> Seq<char> {
    match crate::text::after_prefix(source, "./"@) {
        Some(s) => joined(repo_root, s),
        None => joined(repo_root, source),
    }
}

/// Where the files to install a plugin from are.
pub fn install_source(
    index: &MarketplaceIndex,
    repo_root: &str,
    marketplace_slug: &str,
    plugin_name: &str,
) -> (r: Result<String, String>)
    ensures
        ({
            let ps = index.deep_view().plugins;
            let i = plugin_at(ps, plugin_name@, 0);
            match r {
                Ok(path) => i < ps.len() && path@ == source_path(repo_root@, ps[i].source),
                Err(e) => i >= ps.len() && e@ == "plugin "@ + plugin_name@ + " not in marketplace "@
                    + marketplace_slug@,
            }
        }),
{
    let ps = &index.plugins;
    let ghost all = index.deep_view().plugins;
    let mut i: usize = 0;
    while i < ps.len()
        invariant
            i <= ps@.len(),
            all == ps.deep_view(),
            all == index.deep_view().plugins,
            plugin_at(all, plugin_name@, 0) == plugin_at(all, plugin_name@, i as int),
        decreases ps@.len() - i,
    {
        assert(all[i as int] == ps@[i as int].deep_view());
        if str_eq(ps[i].name.as_str(), plugin_name) {
            let source = ps[i].source.as_str();
            let path = match strip_prefix(source, "./") {
                Some(s) => join_path(repo_root, s.as_str()),
                None => join_path(repo_root, source),
            };
            return Ok(path);
        }
        i += 1;
    }
    let mut e = "plugin ".to_owned();
    e.append(plugin_name);
    e.append(" not in marketplace ");
    e.append(marketplace_slug);
    Err(e)
}

/// The origin of a clone: what git printed, without the space around it.
pub fn git_remote_origin(printed: Option<&str>) -> (r: Option<String>)
    ensures
        r.deep_view() == match printed {
            Some(s) => if trim(s@).len() > 0 {
                Some(trim(s@))
            } else {
                None
            },
            None => None,
        },
{
    match printed {
        Some(s) => {
            let s = str_trim(s);
            if crate::text::char_count(s.as_str()) > 0 {
                Some(s)
            } else {
                None
            }
        },
        None => None,
    }
}

// ---------------------------------------------------------------------------
// What the list of plugins says
// ---------------------------------------------------------------------------

/// A line names a plugin and the marketplace it came from, with a tab between; a line
/// without a tab names a plugin alone. What is written is read back.
pub proof fn a_line_names_plugin_and_marketplace(name: Seq<char>, marketplace: Seq<char>)
    requires
        !name.contains('\t'),
    ensures
        plugin_line(name, marketplace) == name + seq!['\t'] + marketplace,
        line_key(plugin_line(name, marketplace)) == name,
        entry_of(plugin_line(name, marketplace)) == (name, marketplace),
        line_key(name) == name,
        entry_of(name) == (name, Seq::<char>::empty()),
{
    reveal_strlit("\t");
    assert("\t"@ =~= seq!['\t']);
    let line = plugin_line(name, marketplace);
    crate::text::first_index_is_first(line, '\t');
    crate::text::first_index_is_first(name, '\t');
    let n = name.len() as int;
    assert(line[n] == '\t');
    let i = first_index(line, '\t') as int;
    if i < n {
        assert(line[i] == name[i]);
        assert(name.contains('\t'));
    }
    assert(i == n);
    assert(line.take(n) =~= name);
    assert(line.skip(n + 1) =~= marketplace);
    assert(name.take(n) =~= name);
}

/// Enabling or removing a plugin leaves the lines of every other plugin, and only those:
/// blank lines and lines of the plugin itself go.
pub proof fn lines_of_other_plugins_stay(existing: Seq<char>, name: Seq<char>, line: Seq<char>)
    ensures
        other_lines(existing, name).contains(line) <==> lines(existing).contains(line) && !blank(
            line,
        ) && line_key(line) != name,
        ended_lines(Seq::<Seq<char>>::empty()).len() == 0,
        ended_lines(seq![line]) == line + seq!['\n'],
{
    reveal_strlit("\n");
    assert("\n"@ =~= seq!['\n']);
    let keep = about_another(name);
    let all = lines(existing);
    let kept = other_lines(existing, name);
    if kept.contains(line) {
        all.lemma_filter_contains_rev(keep, line);
        let k = choose|k: int| 0 <= k < kept.len() && kept[k] == line;
        all.lemma_filter_pred(keep, k);
    }
    if all.contains(line) && !blank(line) && line_key(line) != name {
        let k = choose|k: int| 0 <= k < all.len() && all[k] == line;
        all.lemma_filter_contains(keep, k);
    }
    assert(join(seq![line], "\n"@) == line);
}

/// Each line that is not blank names a plugin, in order; white space around it does not
/// count.
pub proof fn each_line_names_a_plugin(ls: Seq<Seq<char>>, line: Seq<char>)
    ensures
        named_plugins(Seq::<Seq<char>>::empty()).len() == 0,
        blank(line) ==> named_plugins(ls.push(line)) == named_plugins(ls),
        !blank(line) ==> named_plugins(ls.push(line)) == named_plugins(ls).push(
            entry_of(trim(line)),
        ),
{
    assert(ls.push(line).drop_last() =~= ls);
}

/// A plugin that is named counts as installed where its directory is there, and lies in
/// the directory of plugins under its name.
pub proof fn a_named_plugin_is_installed_where_it_is_there(
    es: Seq<(Seq<char>, Seq<char>)>,
    name: Seq<char>,
    marketplace: Seq<char>,
    base: Seq<char>,
    present: Seq<Seq<char>>,
)
    ensures
        present_plugins(Seq::<(Seq<char>, Seq<char>)>::empty(), base, present).len() == 0,
        !present.contains(name) ==> present_plugins(es.push((name, marketplace)), base, present)
            == present_plugins(es, base, present),
        present.contains(name) ==> present_plugins(es.push((name, marketplace)), base, present)
            == present_plugins(es, base, present).push(
            InstalledPluginView {
                name,
                root: joined(joined(home_of(base), "plugins"@), name),
                marketplace,
            },
        ),
{
    assert(es.push((name, marketplace)).drop_last() =~= es);
}

/// Sorting by name keeps every plugin, whole.
pub proof fn sorting_keeps_every_plugin(ps: Seq<InstalledPluginView>, k: int)
    requires
        0 <= k < ps.len(),
    ensures
        sorted_installed(ps).len() == ps.len(),
        sorted_installed(ps).contains(ps[k]),
        ps.contains(sorted_installed(ps)[k]),
{
    let order = name_order(installed_names(ps), ps.len());
    crate::sorting::sorting_orders_and_keeps_all(installed_names(ps), ps.len());
    assert(order.contains(k));
    let i = choose|i: int| 0 <= i < order.len() && order[i] == k;
    assert(sorted_installed(ps)[i] == ps[k]);
    assert(sorted_installed(ps)[k] == ps[order[k]]);
}

/// A plugin of a marketplace is listed with its name, its description and its source,
/// and as installed just where its name is among those installed. The list holds every
/// plugin.
pub proof fn marketplace_plugins_are_listed(
    slug: Seq<char>,
    ps: Seq<MarketplacePluginEntryView>,
    installed: Seq<Seq<char>>,
    k: int,
)
    requires
        0 <= k < ps.len(),
    ensures
        plugin_records(slug, ps, installed).len() == ps.len(),
        plugin_records(slug, ps, installed).contains(
            MarketplacePluginRecordView {
                marketplace_slug: slug,
                name: ps[k].name,
                description: ps[k].description,
                source: ps[k].source,
                installed: installed.contains(ps[k].name),
            },
        ),
{
    let order = name_order(entry_names(ps), ps.len());
    crate::sorting::sorting_orders_and_keeps_all(entry_names(ps), ps.len());
    assert(order.contains(k));
    let i = choose|i: int| 0 <= i < order.len() && order[i] == k;
    assert(plugin_records(slug, ps, installed)[i] == plugin_record(slug, ps[k], installed));
}

/// The plugin to install is the first in the marketplace with its name.
pub proof fn the_first_plugin_of_a_name_is_installed(
    ps: Seq<MarketplacePluginEntryView>,
    name: Seq<char>,
    other: int,
)
    requires
        0 <= other < ps.len(),
    ensures
        0 <= plugin_at(ps, name, 0) <= ps.len(),
        plugin_at(ps, name, 0) < ps.len() ==> ps[plugin_at(ps, name, 0)].name == name,
        other < plugin_at(ps, name, 0) ==> ps[other].name != name,
{
    lemma_plugin_at(ps, name, 0, other);
}

proof fn lemma_plugin_at(ps: Seq<MarketplacePluginEntryView>, name: Seq<char>, i: int, other: int)
    requires
        0 <= i <= ps.len(),
        0 <= other < ps.len(),
    ensures
        i <= plugin_at(ps, name, i) <= ps.len(),
        plugin_at(ps, name, i) < ps.len() ==> ps[plugin_at(ps, name, i)].name == name,
        i <= other < plugin_at(ps, name, i) ==> ps[other].name != name,
    decreases ps.len() - i,
{
    if i < ps.len() && ps[i].name != name {
        lemma_plugin_at(ps, name, i + 1, other);
    }
}

/// The source of a plugin lies in the repository of its marketplace, with or without a
/// dot in front.
pub proof fn sources_lie_in_the_repository(repo: Seq<char>, source: Seq<char>)
    ensures
        source_path(repo, "./"@ + source) == joined(repo, source),
        !"./"@.is_prefix_of(source) ==> source_path(repo, source) == joined(repo, source),
{
    crate::text::a_prefix_comes_off(source, "./"@, source);
}

/// The view of a [`MarketplacePluginEntry`] is made of all its parts, each as it is.
pub proof fn marketplace_plugin_entry_is_viewed_whole(x: &MarketplacePluginEntry)
    ensures
        x.deep_view() == (MarketplacePluginEntryView {
            name: x.name@,
            description: x.description.deep_view(),
            source: x.source@,
        }),
{
}

/// The view of a [`MarketplaceIndex`] is made of all its parts, each as it is.
pub proof fn marketplace_index_is_viewed_whole(x: &MarketplaceIndex)
    ensures
        x.deep_view() == (MarketplaceIndexView {
            name: x.name@,
            description: x.description.deep_view(),
            plugins: x.plugins.deep_view(),
        }),
{
}

/// The view of a [`PluginManifest`] is made of all its parts, each as it is.
pub proof fn plugin_manifest_is_viewed_whole(x: &PluginManifest)
    ensures
        x.deep_view() == (PluginManifestView {
            name: x.name@,
            description: x.description.deep_view(),
            version: x.version.deep_view(),
        }),
{
}

/// The view of an [`InstalledPlugin`] is made of all its parts, each as it is.
pub proof fn installed_plugin_is_viewed_whole(x: &InstalledPlugin)
    ensures
        x.deep_view() == (InstalledPluginView {
            name: x.name@,
            root: x.root@,
            marketplace: x.marketplace@,
        }),
{
}

/// The view of a [`MarketplaceRecord`] is made of all its parts, each as it is.
pub proof fn marketplace_record_is_viewed_whole(x: &MarketplaceRecord)
    ensures
        x.deep_view() == (MarketplaceRecordView {
            slug: x.slug@,
            git_url: x.git_url.deep_view(),
            root: x.root@,
            name: x.name@,
            description: x.description.deep_view(),
            plugin_count: x.plugin_count,
        }),
{
}

/// The view of a [`MarketplacePluginRecord`] is made of all its parts, each as it is.
pub proof fn marketplace_plugin_record_is_viewed_whole(x: &MarketplacePluginRecord)
    ensures
        x.deep_view() == (MarketplacePluginRecordView {
            marketplace_slug: x.marketplace_slug@,
            name: x.name@,
            description: x.description.deep_view(),
            source: x.source@,
            installed: x.installed,
        }),
{
}

/// The view of an [`InstalledPluginRecord`] is made of all its parts, each as it is.
pub proof fn installed_plugin_record_is_viewed_whole(x: &InstalledPluginRecord)
    ensures
        x.deep_view() == (InstalledPluginRecordView {
            name: x.name@,
            marketplace: x.marketplace@,
            root: x.root@,
            description: x.description.deep_view(),
            version: x.version.deep_view(),
        }),
{
}

} // verus!
