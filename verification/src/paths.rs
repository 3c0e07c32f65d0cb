//! Where persistent state lives: everything under `.manox` in the user's home.

use crate::pathname::{join_path, joined};
use crate::text::{chars_of, string_of_range};
use vstd::prelude::*;

verus! {

/// The user's home from the `HOME` variable; an empty one counts as unset.
pub fn home_dir(var: Option<String>) -> (r: Option<String>)
    ensures
        r == (match var {
            Some(v) => if v@.len() > 0 {
                Some(v)
            } else {
                None
            },
            None => None,
        }),
{
    match var {
        Some(v) => if v.as_str().is_empty() {
            None
        } else {
            Some(v)
        },
        None => None,
    }
}

/// The directory that holds `.manox`: the home, else the working directory.
pub fn state_base(home: Option<String>, cwd: Option<String>) -> (r: String)
    ensures
        r@ == (match home {
            Some(h) => h@,
            None => match cwd {
                Some(c) => c@,
                None => "."@,
            },
        }),
{
    match home {
        Some(h) => h,
        None => match cwd {
            Some(c) => c,
            None => ".".to_owned(),
        },
    }
}

/// `.manox` below the base directory.
pub open spec fn home_of(base: Seq<char>) -> Seq<char> {
    joined(base, ".manox"@)
}

/// `<base>/.manox`: the single root for all persistent state.
pub fn manox_home(base: &str) -> (r: String)
    ensures
        r@ == home_of(base@),
{
    join_path(base, ".manox")
}

/// `<base>/.manox`: config and state root.
pub fn manox_config_dir(base: &str) -> (r: String)
    ensures
        r@ == home_of(base@),
{
    manox_home(base)
}

fn below(base: &str, name: &str) -> (r: String)
    ensures
        r@ == joined(home_of(base@), name@),
{
    let dir = manox_config_dir(base);
    join_path(dir.as_str(), name)
}

/// Subagent definition markdown files.
pub fn agents_dir(base: &str) -> (r: String)
    ensures
        r@ == joined(home_of(base@), "agents"@),
{
    below(base, "agents")
}

/// User-authored skills.
pub fn skills_dir(base: &str) -> (r: String)
    ensures
        r@ == joined(home_of(base@), "skills"@),
{
    below(base, "skills")
}

/// User-authored slash commands.
pub fn commands_dir(base: &str) -> (r: String)
    ensures
        r@ == joined(home_of(base@), "commands"@),
{
    below(base, "commands")
}

/// Installed plugin roots, one subdirectory per plugin.
pub fn plugins_dir(base: &str) -> (r: String)
    ensures
        r@ == joined(home_of(base@), "plugins"@),
{
    below(base, "plugins")
}

/// Root directory of a single installed plugin.
pub fn plugin_root(base: &str, name: &str) -> (r: String)
    ensures
        r@ == joined(joined(home_of(base@), "plugins"@), name@),
{
    let dir = plugins_dir(base);
    join_path(dir.as_str(), name)
}

/// Cloned marketplace repositories, one per remote.
pub fn marketplace_cache_dir(base: &str) -> (r: String)
    ensures
        r@ == joined(home_of(base@), "marketplaces"@),
{
    below(base, "marketplaces")
}

/// The text without the slashes at its end.
pub open spec fn without_slashes(s: Seq<char>) -> Seq<char>
    decreases s.len(),
{
    if s.len() > 0 && s.last() == '/' {
        without_slashes(s.drop_last())
    } else {
        s
    }
}

/// What follows the last slash.
pub open spec fn last_segment(s: Seq<char>) -> Seq<char>
    decreases s.len(),
{
    if s.len() == 0 || s.last() == '/' {
        seq![]
    } else {
        last_segment(s.drop_last()).push(s.last())
    }
}

/// The text without the `.git` endings.
pub open spec fn without_git(s: Seq<char>) -> Seq<char>
    decreases s.len(),
{
    if s.len() >= 4 && s.skip(s.len() - 4) == seq!['.', 'g', 'i', 't'] {
        without_git(s.take(s.len() - 4))
    } else {
        s
    }
}

/// The name of a marketplace: the last segment of its URL without `.git`.
pub open spec fn slug_of(url: Seq<char>) -> Seq<char> {
    without_git(last_segment(without_slashes(url)))
}

/// Stable slug for a marketplace git URL. Two URLs with the same slug share a
/// cache entry, and a trailing slash is tolerated.
pub fn marketplace_slug(git_url: &str) -> (r: String)
    ensures
        r@ == slug_of(git_url@),
{
    let v = chars_of(git_url);
    let mut end: usize = v.len();
    assert(v@.take(end as int) =~= git_url@);
    while end > 0 && v[end - 1] == '/'
        invariant
            end <= v@.len(),
            v@ == git_url@,
            without_slashes(git_url@) == without_slashes(v@.take(end as int)),
        decreases end,
    {
        assert(v@.take(end as int).drop_last() =~= v@.take(end - 1));
        end -= 1;
    }
    let ghost trimmed = v@.take(end as int);
    assert(without_slashes(git_url@) == trimmed);
    let mut start: usize = end;
    assert(trimmed.take(start as int) =~= trimmed);
    assert(trimmed.skip(start as int) =~= seq![]);
    assert(last_segment(trimmed) + seq![] =~= last_segment(trimmed));
    while start > 0 && v[start - 1] != '/'
        invariant
            start <= end <= v@.len(),
            trimmed == v@.take(end as int),
            last_segment(trimmed) == last_segment(trimmed.take(start as int)) + trimmed.skip(
                start as int,
            ),
        decreases start,
    {
        let ghost head = trimmed.take(start as int);
        assert(head.drop_last() =~= trimmed.take(start - 1));
        assert(trimmed.skip(start - 1) =~= seq![head.last()] + trimmed.skip(start as int));
        assert(last_segment(trimmed.take(start - 1)).push(head.last()) + trimmed.skip(start as int)
            =~= last_segment(trimmed.take(start - 1)) + trimmed.skip(start - 1));
        start -= 1;
    }
    assert(last_segment(trimmed.take(start as int)) =~= seq![]) by {
        if start > 0 {
            assert(trimmed.take(start as int).last() == '/');
        }
    }
    let ghost tail = v@.subrange(start as int, end as int);
    assert(last_segment(trimmed) =~= tail);
    let mut stop: usize = end;
    while stop - start >= 4 && v[stop - 4] == '.' && v[stop - 3] == 'g' && v[stop - 2] == 'i' && v[
        stop - 1] == 't'
        invariant
            start <= stop <= end <= v@.len(),
            without_git(tail) == without_git(v@.subrange(start as int, stop as int)),
        decreases stop,
    {
        let ghost s = v@.subrange(start as int, stop as int);
        assert(s.skip(s.len() - 4) =~= seq!['.', 'g', 'i', 't']);
        assert(s.take(s.len() - 4) =~= v@.subrange(start as int, stop - 4));
        stop -= 4;
    }
    proof {
        let s = v@.subrange(start as int, stop as int);
        if s.len() >= 4 && s.skip(s.len() - 4) == seq!['.', 'g', 'i', 't'] {
            let t = s.skip(s.len() - 4);
            assert(t[0] == '.' && t[1] == 'g' && t[2] == 'i' && t[3] == 't');
            assert(v@[stop - 4] == t[0] && v@[stop - 3] == t[1] && v@[stop - 2] == t[2] && v@[stop
                - 1] == t[3]);
        }
    }
    string_of_range(&v, start, stop)
}

/// Directory holding the cloned marketplace repository for `git_url`.
pub fn marketplace_dir(base: &str, git_url: &str) -> (r: String)
    ensures
        r@ == joined(joined(home_of(base@), "marketplaces"@), slug_of(git_url@)),
{
    let dir = marketplace_cache_dir(base);
    let slug = marketplace_slug(git_url);
    join_path(dir.as_str(), slug.as_str())
}

/// File recording which plugins are enabled, one name per line.
pub fn enabled_plugins_file(base: &str) -> (r: String)
    ensures
        r@ == joined(home_of(base@), "enabled_plugins.txt"@),
{
    below(base, "enabled_plugins.txt")
}

/// File recording installed plugins that are explicitly disabled.
pub fn disabled_plugins_file(base: &str) -> (r: String)
    ensures
        r@ == joined(home_of(base@), "disabled_plugins.txt"@),
{
    below(base, "disabled_plugins.txt")
}

/// Plain-file user preferences.
pub fn settings_file(base: &str) -> (r: String)
    ensures
        r@ == joined(home_of(base@), "settings.toml"@),
{
    below(base, "settings.toml")
}

/// Terminal color themes.
pub fn themes_dir(base: &str) -> (r: String)
    ensures
        r@ == joined(home_of(base@), "themes"@),
{
    below(base, "themes")
}

/// Global plan-file directory.
pub fn plans_dir(base: &str) -> (r: String)
    ensures
        r@ == joined(home_of(base@), "plans"@),
{
    below(base, "plans")
}

/// A slash at the end of a marketplace URL does not change its slug.
pub proof fn slug_ignores_a_trailing_slash(url: Seq<char>)
    ensures
        slug_of(url.push('/')) == slug_of(url),
{
    assert(url.push('/').drop_last() =~= url);
}

/// The state directory lies below its base.
pub proof fn the_state_directory_is_below_its_base(base: Seq<char>)
    ensures
        home_of(base) == joined(base, ".manox"@),
{
}

/// The short name of a marketplace is the last part of its address, without the ending
/// of a repository.
pub proof fn the_short_name_is_the_last_part(front: Seq<char>, name: Seq<char>)
    requires
        name.len() > 0,
        !name.contains('/'),
        !(name.len() >= 4 && name.skip(name.len() - 4) == seq!['.', 'g', 'i', 't']),
    ensures
        slug_of(front + seq!['/'] + name) == name,
        slug_of(front + seq!['/'] + name + seq!['.', 'g', 'i', 't']) == name,
        slug_of(name) == name,
{
    let plain = front + seq!['/'] + name;
    let full = name + seq!['.', 'g', 'i', 't'];
    let git = front + seq!['/'] + full;
    assert(front + seq!['/'] + name + seq!['.', 'g', 'i', 't'] =~= git);
    if name.last() == '/' {
        assert(name[name.len() - 1] == '/');
        assert(name.contains('/'));
    }
    assert(plain.last() == name.last());
    assert(git.last() == 't');
    assert(without_slashes(plain) == plain);
    assert(without_slashes(git) == git);
    assert(without_slashes(name) == name);
    assert forall|i: int| 0 <= i < full.len() implies full[i] != '/' by {
        if i < name.len() {
            assert(full[i] == name[i]);
        }
    }
    lemma_last_part(front, name);
    lemma_last_part(front, full);
    lemma_only_part(name);
    assert(full.skip(full.len() - 4) =~= seq!['.', 'g', 'i', 't']);
    assert(full.take(full.len() - 4) =~= name);
    assert(without_git(name) == name);
    assert(without_git(full) == without_git(name));
}

proof fn lemma_last_part(front: Seq<char>, part: Seq<char>)
    requires
        forall|i: int| 0 <= i < part.len() ==> part[i] != '/',
    ensures
        last_segment(front + seq!['/'] + part) == part,
    decreases part.len(),
{
    let s = front + seq!['/'] + part;
    if part.len() == 0 {
        assert(s.last() == '/');
        assert(last_segment(s) =~= part);
    } else {
        let less = part.drop_last();
        lemma_last_part(front, less);
        assert(s.drop_last() =~= front + seq!['/'] + less);
        assert(s.last() == part.last());
        assert(less.push(part.last()) =~= part);
    }
}

proof fn lemma_only_part(part: Seq<char>)
    requires
        forall|i: int| 0 <= i < part.len() ==> part[i] != '/',
    ensures
        last_segment(part) == part,
    decreases part.len(),
{
    if part.len() > 0 {
        let less = part.drop_last();
        lemma_only_part(less);
        assert(less.push(part.last()) =~= part);
    } else {
        assert(last_segment(part) =~= part);
    }
}

} // verus!
