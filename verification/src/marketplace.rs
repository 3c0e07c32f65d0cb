//! Marketplaces: clones of git repositories that offer plugins.

use crate::plugin::{
    installed_record, InstalledPlugin, InstalledPluginRecord, InstalledPluginRecordView,
    MarketplaceIndex, MarketplaceIndexView, MarketplaceRecord,
    MarketplaceRecordView, PluginManager, PluginManifest, PluginManifestView,
};
use crate::paths::plugin_root;
use crate::sorting::{indices, name_order, sort_order};
use crate::text::{clone_opt_string, dec_signed, push_dec, strs};
use vstd::prelude::*;

verus! {

// ---------------------------------------------------------------------------
// Cloning and refreshing
// ---------------------------------------------------------------------------

/// Work on the clone of a marketplace.
#[derive(Debug, Clone, Copy, PartialEq, Eq, Structural)]
pub enum CloneWork {
    Clone,
    Fetch,
    /// Reset the files to what was fetched.
    Reset,
    /// Read the index; nothing is left to do with git.
    LoadIndex,
}

/// The exit code as Rust shows it, `None` where a signal ended the program.
pub open spec fn shown_code(code: Option<i32>) -> Seq<char> {
    match code {
        Some(c) => "Some("@ + dec_signed(c as int) + ")"@,
        None => "None"@,
    }
}

fn code_text(code: Option<i32>) -> (r: String)
    ensures
        r@ == shown_code(code),
{
    match code {
        Some(c) => {
            let mut out = "Some(".to_owned();
            if c < 0 {
                out.push('-');
                push_dec(&mut out, (-(c as i64)) as u64);
            } else {
                push_dec(&mut out, c as u64);
            }
            out.append(")");
            assert(out@ =~= shown_code(code));
            out
        },
        None => "None".to_owned(),
    }
}

/// What follows a step of adding a marketplace. A clone that fails is an error; a
/// refresh that fails leaves the clone as it was.
pub open spec fn next_of_adding(work: CloneWork, success: bool) -> Option<CloneWork> {
    match work {
        CloneWork::Clone => if success {
            Some(CloneWork::LoadIndex)
        } else {
            None
        },
        CloneWork::Fetch => if success {
            Some(CloneWork::Reset)
        } else {
            Some(CloneWork::LoadIndex)
        },
        CloneWork::Reset => Some(CloneWork::LoadIndex),
        CloneWork::LoadIndex => Some(CloneWork::LoadIndex),
    }
}

/// What follows a step of refreshing a marketplace: every failure is an error.
pub open spec fn next_of_refreshing(work: CloneWork, success: bool) -> Option<CloneWork> {
    match work {
        CloneWork::Fetch => if success {
            Some(CloneWork::Reset)
        } else {
            None
        },
        CloneWork::Reset => if success {
            Some(CloneWork::LoadIndex)
        } else {
            None
        },
        other => Some(CloneWork::LoadIndex),
    }
}

pub open spec fn refresh_failure(work: CloneWork, dir: Seq<char>) -> Seq<char> {
    if work == CloneWork::Fetch {
        "git fetch failed for "@ + dir
    } else {
        "git reset failed for "@ + dir
    }
}

impl PluginManager {
    /// The first step of adding a marketplace: one that is cloned already is
    /// refreshed.
    pub fn add_marketplace(cloned: bool) -> (r: CloneWork)
        ensures
            r == if cloned {
                CloneWork::Fetch
            } else {
                CloneWork::Clone
            },
    {
        if cloned {
            CloneWork::Fetch
        } else {
            CloneWork::Clone
        }
    }

    /// What follows a step of adding the marketplace at `git_url`; `code` is the
    /// exit code of git.
    pub fn added(git_url: &str, work: CloneWork, success: bool, code: Option<i32>) -> (r: Result<
        CloneWork,
        String,
    >)
        ensures
            match next_of_adding(work, success) {
                Some(next) => r == Ok::<CloneWork, String>(next),
                None => r matches Err(e) && e@ == "git clone failed: "@ + git_url@ + " (exit "@
                    + shown_code(code) + ")"@,
            },
    {
        match work {
            CloneWork::Clone => if success {
                Ok(CloneWork::LoadIndex)
            } else {
                let mut e = "git clone failed: ".to_owned();
                e.append(git_url);
                e.append(" (exit ");
                let shown = code_text(code);
                e.append(shown.as_str());
                e.append(")");
                Err(e)
            },
            CloneWork::Fetch => if success {
                Ok(CloneWork::Reset)
            } else {
                Ok(CloneWork::LoadIndex)
            },
            CloneWork::Reset => Ok(CloneWork::LoadIndex),
            CloneWork::LoadIndex => Ok(CloneWork::LoadIndex),
        }
    }

    /// The first step of refreshing the marketplace in `dir`.
    pub fn refresh_marketplace(dir: &str, cloned: bool) -> (r: Result<CloneWork, String>)
        ensures
            if cloned {
                r == Ok::<CloneWork, String>(CloneWork::Fetch)
            } else {
                r matches Err(e) && e@ == "marketplace clone missing at "@ + dir@
            },
    {
        if cloned {
            Ok(CloneWork::Fetch)
        } else {
            let mut e = "marketplace clone missing at ".to_owned();
            e.append(dir);
            Err(e)
        }
    }

    /// What follows a step of refreshing the marketplace in `dir`.
    pub fn refreshed(dir: &str, work: CloneWork, success: bool) -> (r: Result<CloneWork, String>)
        ensures
            match next_of_refreshing(work, success) {
                Some(next) => r == Ok::<CloneWork, String>(next),
                None => r matches Err(e) && e@ == refresh_failure(work, dir@),
            },
    {
        match work {
            CloneWork::Fetch => if success {
                Ok(CloneWork::Reset)
            } else {
                let mut e = "git fetch failed for ".to_owned();
                e.append(dir);
                Err(e)
            },
            CloneWork::Reset => if success {
                Ok(CloneWork::LoadIndex)
            } else {
                let mut e = "git reset failed for ".to_owned();
                e.append(dir);
                Err(e)
            },
            _ => Ok(CloneWork::LoadIndex),
        }
    }
}

/// Adding a marketplace that is cloned already never fails in git: it comes to
/// reading the index of the clone, refreshed or not.
pub proof fn adding_again_comes_to_the_index(fetched: bool, reset: bool)
    ensures
        next_of_adding(CloneWork::Fetch, fetched) is Some,
        fetched ==> next_of_adding(CloneWork::Fetch, fetched) == Some(CloneWork::Reset),
        !fetched ==> next_of_adding(CloneWork::Fetch, fetched) == Some(CloneWork::LoadIndex),
        next_of_adding(CloneWork::Reset, reset) == Some(CloneWork::LoadIndex),
{
}

/// The steps of a refresh in order: what is fetched is what the files are reset
/// to, and only then the index is read.
pub proof fn a_refresh_resets_before_it_reads(work: CloneWork, success: bool)
    requires
        next_of_refreshing(work, success) == Some(CloneWork::LoadIndex),
    ensures
        work != CloneWork::Fetch,
{
}

// ---------------------------------------------------------------------------
// Installing
// ---------------------------------------------------------------------------

/// The failure of an installation whose files are missing.
pub fn source_missing(source: &str) -> (r: String)
    ensures
        r@ == "plugin source "@ + source@ + " missing"@,
{
    let mut out = "plugin source ".to_owned();
    out.append(source);
    out.append(" missing");
    out
}

/// Where a plugin is copied from and to.
#[derive(Debug, PartialEq, Eq)]
pub struct Installation {
    pub source: String,
    pub dest: String,
}

impl PluginManager {
    /// Plans an installation: `present` tells whether the files of the plugin are
    /// there, once [`crate::plugin::install_source`] has said where to look.
    pub fn install(base: &str, plugin_name: &str, source: String, present: bool) -> (r: Result<
        Installation,
        String,
    >)
        ensures
            if present {
                r matches Ok(i) && i.source@ == source@ && i.dest@ == crate::pathname::joined(
                    crate::pathname::joined(crate::paths::home_of(base@), "plugins"@),
                    plugin_name@,
                )
            } else {
                r matches Err(e) && e@ == "plugin source "@ + source@ + " missing"@
            },
    {
        if !present {
            return Err(source_missing(source.as_str()));
        }
        let dest = plugin_root(base, plugin_name);
        Ok(Installation { source, dest })
    }
}

// ---------------------------------------------------------------------------
// Lists
// ---------------------------------------------------------------------------

/// A directory of the marketplace cache.
#[derive(Debug)]
pub struct CachedMarketplace {
    pub slug: String,
    pub root: String,
    /// Whether it is a clone.
    pub cloned: bool,
    pub git_url: Option<String>,
    /// Its index, if that could be read.
    pub index: Option<MarketplaceIndex>,
}

pub open spec fn cloned_slugs(found: Seq<CachedMarketplace>) -> Seq<Seq<char>>
    decreases found.len(),
{
    if found.len() == 0 {
        seq![]
    } else if found.last().cloned {
        cloned_slugs(found.drop_last()).push(found.last().slug@)
    } else {
        cloned_slugs(found.drop_last())
    }
}

pub open spec fn record_of(m: CachedMarketplace, index: MarketplaceIndexView) -> MarketplaceRecordView {
    MarketplaceRecordView {
        slug: m.slug@,
        git_url: m.git_url.deep_view(),
        root: m.root@,
        name: index.name,
        description: index.description,
        plugin_count: index.plugins.len() as usize,
    }
}

/// The records of the clones whose index could be read.
pub open spec fn readable_records(found: Seq<CachedMarketplace>) -> Seq<MarketplaceRecordView>
    decreases found.len(),
{
    if found.len() == 0 {
        seq![]
    } else {
        let rest = readable_records(found.drop_last());
        match found.last().index {
            Some(index) => if found.last().cloned {
                rest.push(record_of(found.last(), index.deep_view()))
            } else {
                rest
            },
            None => rest,
        }
    }
}

pub open spec fn record_slugs(rs: Seq<MarketplaceRecordView>) -> Seq<Seq<char>> {
    Seq::new(rs.len(), |i: int| rs[i].slug)
}

pub open spec fn by_slug(rs: Seq<MarketplaceRecordView>) -> Seq<MarketplaceRecordView> {
    let order = name_order(record_slugs(rs), rs.len());
    Seq::new(order.len(), |i: int| rs[order[i]])
}

fn sort_records(rs: &Vec<MarketplaceRecord>) -> (r: Vec<MarketplaceRecord>)
    ensures
        r.deep_view() == by_slug(rs.deep_view()),
{
    let ghost all = rs.deep_view();
    let mut slugs: Vec<String> = Vec::new();
    for i in 0..rs.len()
        invariant
            all == rs.deep_view(),
            strs(slugs@) == record_slugs(all).take(i as int),
    {
        let ghost before = strs(slugs@);
        slugs.push(rs[i].slug.clone());
        assert(strs(slugs@) =~= before.push(record_slugs(all)[i as int]));
        assert(strs(slugs@) =~= record_slugs(all).take(i + 1));
    }
    assert(strs(slugs@) =~= record_slugs(all));
    let order = sort_order(&slugs);
    let ghost wanted = by_slug(all);
    let mut out: Vec<MarketplaceRecord> = Vec::new();
    assert(wanted.len() == order@.len()) by {
        assert(indices(order@).len() == order@.len());
    }
    for i in 0..order.len()
        invariant
            all == rs.deep_view(),
            slugs@.len() == rs@.len(),
            wanted == by_slug(all),
            indices(order@) == name_order(record_slugs(all), all.len()),
            wanted.len() == order@.len(),
            forall|i: int| 0 <= i < order@.len() ==> (#[trigger] order@[i]) < slugs@.len(),
            out.deep_view() == wanted.take(i as int),
    {
        let ghost before = out.deep_view();
        let record = rs[order[i]].clone();
        assert(indices(order@)[i as int] == order@[i as int] as int);
        assert(record.deep_view() == wanted[i as int]);
        out.push(record);
        assert(out.deep_view() =~= before.push(wanted[i as int]));
        assert(out.deep_view() =~= wanted.take(i + 1));
    }
    assert(out.deep_view() =~= wanted);
    out
}

/// An installed plugin, and its manifest if that could be read.
#[derive(Debug)]
pub struct InspectedPlugin {
    pub plugin: InstalledPlugin,
    pub manifest: Option<PluginManifest>,
}

pub open spec fn detail_of(p: InspectedPlugin) -> InstalledPluginRecordView {
    let manifest: Option<PluginManifestView> = p.manifest.deep_view();
    InstalledPluginRecordView {
        name: p.plugin.name@,
        marketplace: p.plugin.marketplace@,
        root: p.plugin.root@,
        description: match manifest {
            Some(m) => m.description,
            None => None,
        },
        version: match manifest {
            Some(m) => m.version,
            None => None,
        },
    }
}

pub open spec fn inspected_names(ps: Seq<InspectedPlugin>) -> Seq<Seq<char>> {
    Seq::new(ps.len(), |i: int| ps[i].plugin.name@)
}

/// The details of the plugins, by name.
pub open spec fn details_of(ps: Seq<InspectedPlugin>) -> Seq<InstalledPluginRecordView> {
    let order = name_order(inspected_names(ps), ps.len());
    Seq::new(order.len(), |i: int| detail_of(ps[order[i]]))
}

impl PluginManager {
    /// The slugs of the marketplaces in the cache.
    pub fn list_marketplaces(found: &Vec<CachedMarketplace>) -> (r: Vec<String>)
        ensures
            strs(r@) == cloned_slugs(found@),
    {
        let mut out: Vec<String> = Vec::new();
        assert(strs(out@) =~= seq![]);
        for i in 0..found.len()
            invariant
                strs(out@) == cloned_slugs(found@.take(i as int)),
        {
            let ghost before = strs(out@);
            assert(found@.take(i + 1).drop_last() =~= found@.take(i as int));
            if found[i].cloned {
                out.push(found[i].slug.clone());
                assert(strs(out@) =~= before.push(found@[i as int].slug@));
            }
        }
        assert(found@.take(found@.len() as int) =~= found@);
        out
    }

    /// The marketplaces in the cache whose index could be read, by slug.
    pub fn list_marketplace_records(found: &Vec<CachedMarketplace>) -> (r: Vec<MarketplaceRecord>)
        ensures
            r.deep_view() == by_slug(readable_records(found@)),
    {
        let mut out: Vec<MarketplaceRecord> = Vec::new();
        assert(out.deep_view() =~= seq![]);
        for i in 0..found.len()
            invariant
                out.deep_view() == readable_records(found@.take(i as int)),
        {
            let ghost before = out.deep_view();
            let m = &found[i];
            assert(found@.take(i + 1).drop_last() =~= found@.take(i as int));
            match &m.index {
                Some(index) => {
                    if m.cloned {
                        let record = MarketplaceRecord {
                            slug: m.slug.clone(),
                            git_url: clone_opt_string(&m.git_url),
                            root: m.root.clone(),
                            name: index.name.clone(),
                            description: clone_opt_string(&index.description),
                            plugin_count: index.plugins.len(),
                        };
                        assert(record.deep_view() =~= record_of(*m, index.deep_view()));
                        out.push(record);
                        assert(out.deep_view() =~= before.push(record.deep_view()));
                    }
                },
                None => {},
            }
        }
        assert(found@.take(found@.len() as int) =~= found@);
        sort_records(&out)
    }

    /// The installed plugins with what their manifests say, by name.
    pub fn installed_details(plugins: &Vec<InspectedPlugin>) -> (r: Vec<InstalledPluginRecord>)
        ensures
            r.deep_view() == details_of(plugins@),
    {
        let mut names: Vec<String> = Vec::new();
        for i in 0..plugins.len()
            invariant
                strs(names@) == inspected_names(plugins@).take(i as int),
        {
            let ghost before = strs(names@);
            names.push(plugins[i].plugin.name.clone());
            assert(strs(names@) =~= before.push(inspected_names(plugins@)[i as int]));
            assert(strs(names@) =~= inspected_names(plugins@).take(i + 1));
        }
        assert(strs(names@) =~= inspected_names(plugins@));
        let order = sort_order(&names);
        let ghost wanted = details_of(plugins@);
        let mut out: Vec<InstalledPluginRecord> = Vec::new();
        assert(wanted.len() == order@.len()) by {
            assert(indices(order@).len() == order@.len());
        }
        for i in 0..order.len()
            invariant
                names@.len() == plugins@.len(),
                wanted == details_of(plugins@),
                indices(order@) == name_order(inspected_names(plugins@), plugins@.len()),
                wanted.len() == order@.len(),
                forall|i: int| 0 <= i < order@.len() ==> (#[trigger] order@[i]) < names@.len(),
                out.deep_view() == wanted.take(i as int),
        {
            let ghost before = out.deep_view();
            let p = &plugins[order[i]];
            assert(indices(order@)[i as int] == order@[i as int] as int);
            let manifest = match &p.manifest {
                Some(m) => Some(m.clone()),
                None => None,
            };
            let record = installed_record(p.plugin.clone(), manifest);
            assert(record.deep_view() =~= wanted[i as int]);
            out.push(record);
            assert(out.deep_view() =~= before.push(wanted[i as int]));
            assert(out.deep_view() =~= wanted.take(i + 1));
        }
        assert(out.deep_view() =~= wanted);
        out
    }
}

/// Adding a marketplace clones it, and a clone that fails ends it; everything else comes
/// to the index.
pub proof fn adding_ends_only_with_a_failed_clone(work: CloneWork, success: bool)
    ensures
        next_of_adding(work, success) is None <==> work == CloneWork::Clone && !success,
        next_of_adding(CloneWork::Clone, true) == Some(CloneWork::LoadIndex),
        next_of_refreshing(CloneWork::Fetch, true) == Some(CloneWork::Reset),
        next_of_refreshing(CloneWork::Reset, true) == Some(CloneWork::LoadIndex),
        next_of_refreshing(CloneWork::Fetch, false) is None,
        next_of_refreshing(CloneWork::Reset, false) is None,
{
}

/// A failure names what failed, where, and with what code.
pub proof fn failures_name_what_failed(dir: Seq<char>, code: i32)
    ensures
        refresh_failure(CloneWork::Fetch, dir) == "git fetch failed for "@ + dir,
        refresh_failure(CloneWork::Reset, dir) == "git reset failed for "@ + dir,
        shown_code(Some(code)) == "Some("@ + dec_signed(code as int) + ")"@,
        shown_code(None) == "None"@,
{
}

/// The marketplaces are those that are cloned, in the order in which they are found;
/// those whose index can be read are told in full.
pub proof fn cloned_marketplaces_are_listed(
    found: Seq<CachedMarketplace>,
    next: CachedMarketplace,
)
    ensures
        cloned_slugs(Seq::<CachedMarketplace>::empty()).len() == 0,
        readable_records(Seq::<CachedMarketplace>::empty()).len() == 0,
        next.cloned ==> cloned_slugs(found.push(next)) == cloned_slugs(found).push(next.slug@),
        !next.cloned ==> cloned_slugs(found.push(next)) == cloned_slugs(found),
        !next.cloned || next.index is None ==> readable_records(found.push(next))
            == readable_records(found),
        next.cloned ==> (next.index matches Some(index) ==> readable_records(found.push(next))
            == readable_records(found).push(
            MarketplaceRecordView {
                slug: next.slug@,
                git_url: next.git_url.deep_view(),
                root: next.root@,
                name: index.deep_view().name,
                description: index.deep_view().description,
                plugin_count: index.deep_view().plugins.len() as usize,
            },
        )),
{
    assert(found.push(next).drop_last() =~= found);
}

/// Marketplaces are told by their short names, in order, each of them and no other.
pub proof fn marketplaces_come_by_short_name(rs: Seq<MarketplaceRecordView>, i: int, j: int)
    requires
        0 <= i < j < rs.len(),
    ensures
        by_slug(rs).len() == rs.len(),
        !crate::table::before(by_slug(rs)[j].slug, by_slug(rs)[i].slug),
        by_slug(rs).contains(rs[i]),
        rs.contains(by_slug(rs)[i]),
{
    let order = name_order(record_slugs(rs), rs.len());
    crate::sorting::sorting_orders_and_keeps_all(record_slugs(rs), rs.len());
    assert(order.contains(i));
    let k = choose|k: int| 0 <= k < order.len() && order[k] == i;
    assert(by_slug(rs)[k] == rs[i]);
    assert(by_slug(rs)[i] == rs[order[i]]);
    assert(record_slugs(rs)[order[j]] == by_slug(rs)[j].slug);
    assert(record_slugs(rs)[order[i]] == by_slug(rs)[i].slug);
}

/// The details of the installed plugins come by name, each with what its manifest says
/// of it, and without a manifest with nothing more.
pub proof fn installed_plugins_are_told_in_full(ps: Seq<InspectedPlugin>, k: int)
    requires
        0 <= k < ps.len(),
    ensures
        details_of(ps).len() == ps.len(),
        details_of(ps).contains(detail_of(ps[k])),
        detail_of(ps[k]).name == ps[k].plugin.name@,
        detail_of(ps[k]).marketplace == ps[k].plugin.marketplace@,
        detail_of(ps[k]).root == ps[k].plugin.root@,
        ps[k].manifest is None ==> detail_of(ps[k]).description is None && detail_of(
            ps[k],
        ).version is None,
        ps[k].manifest matches Some(m) ==> detail_of(ps[k]).description
            == m.description.deep_view() && detail_of(ps[k]).version == m.version.deep_view(),
{
    let order = name_order(inspected_names(ps), ps.len());
    crate::sorting::sorting_orders_and_keeps_all(inspected_names(ps), ps.len());
    assert(order.contains(k));
    let i = choose|i: int| 0 <= i < order.len() && order[i] == k;
    assert(details_of(ps)[i] == detail_of(ps[k]));
}

} // verus!
