//! Path policy for the file tools: a read deny-list over sensitive user
//! locations and a write confinement. Block reasons are shown to the model and
//! stay English.

use crate::pathname::{
    file_name, file_name_of, is_absolute, join_path, joined, normalize_lexical, normalized,
    CleanPath, CleanPathView,
};
use crate::text::{starts_with, str_eq, strs};
use vstd::prelude::*;

verus! {

/// The sensitive subtrees below the user's home. The `.manox` state root is
/// denied per item, so that its plans stay readable.
pub const SENSITIVE: [&'static str; 13] = [
    ".ssh",
    ".aws",
    ".gnupg",
    ".config",
    ".manox/cx.providers.config.yaml",
    ".manox/cx.db",
    ".manox/sessions",
    ".manox/.codex",
    ".manox/.patch_source",
    "Library",
    "Music",
    "Pictures",
    "Photos Library.photoslibrary",
];

/// The sensitive paths below `home`; none without a home.
pub open spec fn sensitive_paths(home: Option<Seq<char>>) -> Seq<Seq<char>> {
    match home {
        Some(h) => Seq::new(13, |i: int| joined(h, SENSITIVE@[i]@)),
        None => seq![],
    }
}

/// The paths to resolve for a [`ReadPolicy`].
pub fn home_denied_paths(home: Option<&str>) -> (r: Vec<String>)
    ensures
        strs(r@) == sensitive_paths(crate::text::opt_str_view(home)),
{
    let mut out: Vec<String> = Vec::new();
    match home {
        None => {
            assert(strs(out@) =~= seq![]);
            out
        },
        Some(h) => {
            for i in 0..13usize
                invariant
                    strs(out@) == sensitive_paths(Some(h@)).take(i as int),
            {
                let ghost before = strs(out@);
                out.push(join_path(h, SENSITIVE[i]));
                assert(strs(out@) =~= before.push(joined(h@, SENSITIVE@[i as int]@)));
                assert(strs(out@) =~= sensitive_paths(Some(h@)).take(i + 1));
            }
            assert(strs(out@) =~= sensitive_paths(Some(h@)));
            out
        },
    }
}

/// File names that conventionally hold secrets: `.env` and `.env.*`, private
/// key material, and per-tool credential files.
pub open spec fn is_secret_name(name: Seq<char>) -> bool {
    ||| name == ".env"@
    ||| ".env."@.is_prefix_of(name)
    ||| name == "id_rsa"@ || name == "id_ed25519"@ || name == "id_ecdsa"@ || name == "id_dsa"@
    ||| name == "id_x25519"@
    ||| name == ".npmrc"@ || name == ".pypirc"@ || name == ".netrc"@
    ||| name == "credentials"@
}

fn secret_name(name: &str) -> (r: bool)
    ensures
        r == is_secret_name(name@),
{
    str_eq(name, ".env") || starts_with(name, ".env.") || str_eq(name, "id_rsa") || str_eq(
        name,
        "id_ed25519",
    ) || str_eq(name, "id_ecdsa") || str_eq(name, "id_dsa") || str_eq(name, "id_x25519") || str_eq(
        name,
        ".npmrc",
    ) || str_eq(name, ".pypirc") || str_eq(name, ".netrc") || str_eq(name, "credentials")
}

/// Whether the file a path points at has a secret-bearing name. The match is on
/// the exact name, so that public keys are not blocked.
pub fn is_likely_secret_file(path: &str) -> (r: bool)
    ensures
        r == (file_name_of(path@) matches Some(name) && is_secret_name(name)),
{
    match file_name(path) {
        Some(name) => secret_name(name.as_str()),
        None => false,
    }
}

/// Read deny-list for the read tools.
#[derive(Debug, PartialEq, Eq)]
pub struct ReadPolicy {
    pub denied_roots: Vec<CleanPath>,
}

/// Whether a path lies under one of the roots.
pub open spec fn under_any(p: CleanPathView, roots: Seq<CleanPathView>) -> bool {
    exists|i: int| 0 <= i < roots.len() && p.under(#[trigger] roots[i])
}

/// Whether a path may not be read: it lies in a sensitive subtree, or its name
/// bears a secret.
pub open spec fn read_denied(p: CleanPathView, roots: Seq<CleanPathView>) -> bool {
    under_any(p, roots) || (p.names.len() > 0 && is_secret_name(p.names.last()))
}

pub fn is_under_any(p: &CleanPath, roots: &Vec<CleanPath>) -> (r: bool)
    ensures
        r == under_any(p.deep_view(), roots.deep_view()),
{
    for i in 0..roots.len()
        invariant
            forall|k: int| 0 <= k < i ==> !p.deep_view().under(#[trigger] roots.deep_view()[k]),
    {
        if p.starts_with(&roots[i]) {
            assert(p.deep_view().under(roots.deep_view()[i as int]));
            return true;
        }
    }
    false
}

pub open spec fn read_block_reason(path: Seq<char>) -> Seq<char> {
    "Read blocked by path policy (sensitive path or secret file): "@ + path
        + ". If you genuinely need it, use the bash tool and pass user approval."@
}

impl ReadPolicy {
    /// The policy over the resolved sensitive subtrees; none where there is no
    /// home.
    pub fn new(denied_roots: Vec<CleanPath>) -> (r: Self)
        ensures
            r.denied_roots == denied_roots,
    {
        ReadPolicy { denied_roots }
    }

    /// Canonicalized denied subtrees.
    pub fn denied_roots(&self) -> (r: &Vec<CleanPath>)
        ensures
            *r == self.denied_roots,
    {
        &self.denied_roots
    }

    /// Whether the path with the canonical form `canon` is denied for reading.
    pub fn is_denied(&self, canon: &CleanPath) -> (r: bool)
        ensures
            r == read_denied(canon.deep_view(), self.denied_roots.deep_view()),
    {
        if is_under_any(canon, &self.denied_roots) {
            return true;
        }
        match canon.last_name() {
            Some(name) => secret_name(name),
            None => false,
        }
    }

    /// Check `path`, whose canonical form is `canon`; an error carries the
    /// block reason and points at the approval-gated way round.
    pub fn check(&self, path: &str, canon: &CleanPath) -> (r: Result<(), String>)
        ensures
            match r {
                Ok(_) => !read_denied(canon.deep_view(), self.denied_roots.deep_view()),
                Err(e) => read_denied(canon.deep_view(), self.denied_roots.deep_view()) && e@
                    == read_block_reason(path@),
            },
    {
        if self.is_denied(canon) {
            let mut e = "Read blocked by path policy (sensitive path or secret file): ".to_owned();
            e.append(path);
            e.append(". If you genuinely need it, use the bash tool and pass user approval.");
            Err(e)
        } else {
            Ok(())
        }
    }
}

/// More denied roots never let a path through that fewer denied.
pub proof fn denying_is_monotone(
    p: CleanPathView,
    roots: Seq<CleanPathView>,
    more: Seq<CleanPathView>,
)
    requires
        read_denied(p, roots),
    ensures
        read_denied(p, roots + more),
{
    if under_any(p, roots) {
        let i = choose|i: int| 0 <= i < roots.len() && p.under(#[trigger] roots[i]);
        assert((roots + more)[i] == roots[i]);
    }
}

/// Everything below a denied root is denied.
pub proof fn denied_roots_are_closed(
    p: CleanPathView,
    root: CleanPathView,
    roots: Seq<CleanPathView>,
    i: int,
)
    requires
        0 <= i < roots.len(),
        roots[i] == root,
        p.under(root),
    ensures
        read_denied(p, roots),
{
    assert(p.under(roots[i]));
}

/// Write confinement for the write tools: the writable roots, without anything
/// in a `.git` directory.
#[derive(Debug, PartialEq, Eq)]
pub struct WritePolicy {
    pub writable_roots: Vec<CleanPath>,
}

/// The roots a project may write to: itself, the temp scratch, and the plans.
pub open spec fn project_roots(project: CleanPathView, plans: Option<CleanPathView>) -> Seq<
    CleanPathView,
> {
    let base = seq![project, normalized("/tmp"@), normalized("/private/tmp"@)];
    match plans {
        Some(p) => base.push(p),
        None => base,
    }
}

pub open spec fn is_git_path(p: CleanPathView) -> bool {
    p.names.contains(".git"@)
}

pub open spec fn write_allowed(p: CleanPathView, roots: Seq<CleanPathView>) -> bool {
    !is_git_path(p) && under_any(p, roots)
}

pub open spec fn write_block_reason(path: Seq<char>, git: bool) -> Seq<char> {
    if git {
        "Write blocked by path policy (`.git` is protected): "@ + path
            + ". Use git commands through bash (user-approved) for git state."@
    } else {
        "Write blocked by path policy (outside the project root, temp scratch, and plans dir): "@
            + path + ". Write inside the project, or use bash with user approval."@
    }
}

/// A file that an edit touches: where it is, and in canonical form.
#[derive(Debug, PartialEq, Eq)]
pub struct EditTarget {
    pub path: String,
    pub canon: CleanPath,
}

/// Where an edited file is: paths in a patch are relative to the working
/// directory.
pub fn edit_target_path(path: &str, cwd: &str) -> (r: String)
    ensures
        r@ == joined(cwd@, path@),
{
    if is_absolute(path) {
        path.to_owned()
    } else {
        join_path(cwd, path)
    }
}

/// The position of the first target that may not be written.
pub open spec fn first_blocked(targets: Seq<EditTarget>, roots: Seq<CleanPathView>) -> nat
    decreases targets.len(),
{
    if targets.len() == 0 || !write_allowed(targets[0].canon.deep_view(), roots) {
        0
    } else {
        first_blocked(targets.skip(1), roots) + 1
    }
}

impl WritePolicy {
    /// Writable set for a project: the project root, the system temp dirs and
    /// the plan-file directory.
    pub fn for_project(project_root: CleanPath, plans: Option<CleanPath>) -> (r: Self)
        ensures
            r.writable_roots.deep_view() == project_roots(
                project_root.deep_view(),
                plans.deep_view(),
            ),
    {
        let mut roots: Vec<CleanPath> = Vec::new();
        roots.push(project_root);
        roots.push(normalize_lexical("/tmp"));
        roots.push(normalize_lexical("/private/tmp"));
        match plans {
            Some(p) => roots.push(p),
            None => {},
        }
        assert(roots.deep_view() =~= project_roots(project_root.deep_view(), plans.deep_view()));
        WritePolicy { writable_roots: roots }
    }

    /// Whether `path`, whose canonical form is `canon`, may be written: under a
    /// writable root, and not inside a `.git` directory.
    pub fn check(&self, path: &str, canon: &CleanPath) -> (r: Result<(), String>)
        ensures
            match r {
                Ok(_) => write_allowed(canon.deep_view(), self.writable_roots.deep_view()),
                Err(e) => !write_allowed(canon.deep_view(), self.writable_roots.deep_view()) && e@
                    == write_block_reason(path@, is_git_path(canon.deep_view())),
            },
    {
        if canon.has_name(".git") {
            let mut e = "Write blocked by path policy (`.git` is protected): ".to_owned();
            e.append(path);
            e.append(". Use git commands through bash (user-approved) for git state.");
            return Err(e);
        }
        if is_under_any(canon, &self.writable_roots) {
            return Ok(());
        }
        let mut e =
            "Write blocked by path policy (outside the project root, temp scratch, and plans dir): ".to_owned();
        e.append(path);
        e.append(". Write inside the project, or use bash with user approval.");
        Err(e)
    }

    /// Check an edit by the targets of its patch; a patch that cannot be read
    /// is blocked.
    pub fn check_edit_patch(&self, targets: &Result<Vec<EditTarget>, String>) -> (r: Result<
        (),
        String,
    >)
        ensures
            match *targets {
                Err(why) => r matches Err(e) && e@
                    == "Edit blocked by path policy (patch targets unverifiable: "@ + why@
                    + "). Fix the hashline patch grammar and retry."@,
                Ok(ts) => {
                    let roots = self.writable_roots.deep_view();
                    let n = first_blocked(ts@, roots) as int;
                    match r {
                        Ok(_) => n >= ts@.len(),
                        Err(e) => n < ts@.len() && e@ == write_block_reason(
                            ts@[n].path@,
                            is_git_path(ts@[n].canon.deep_view()),
                        ),
                    }
                },
            },
    {
        match targets {
            Err(why) => {
                let mut e =
                    "Edit blocked by path policy (patch targets unverifiable: ".to_owned();
                e.append(why.as_str());
                e.append("). Fix the hashline patch grammar and retry.");
                Err(e)
            },
            Ok(ts) => {
                let ghost roots = self.writable_roots.deep_view();
                assert(ts@.skip(0) =~= ts@);
                for i in 0..ts.len()
                    invariant
                        targets == Ok::<Vec<EditTarget>, String>(*ts),
                        roots == self.writable_roots.deep_view(),
                        first_blocked(ts@, roots) == i + first_blocked(ts@.skip(i as int), roots),
                {
                    assert(ts@.skip(i as int)[0] == ts@[i as int]);
                    assert(ts@.skip(i as int).skip(1) =~= ts@.skip(i + 1));
                    match self.check(ts[i].path.as_str(), &ts[i].canon) {
                        Ok(_) => {},
                        Err(e) => {
                            return Err(e);
                        },
                    }
                }
                Ok(())
            },
        }
    }
}

/// An edit passes only if every file it touches may be written.
pub proof fn an_edit_passes_only_whole(targets: Seq<EditTarget>, roots: Seq<CleanPathView>, i: int)
    requires
        first_blocked(targets, roots) >= targets.len(),
        0 <= i < targets.len(),
    ensures
        write_allowed(targets[i].canon.deep_view(), roots),
    decreases targets.len(),
{
    if i > 0 {
        an_edit_passes_only_whole(targets.skip(1), roots, i - 1);
    }
}

/// Nothing inside a `.git` directory may be written, wherever the writable roots
/// are.
pub proof fn git_state_is_never_written(canon: CleanPathView, roots: Seq<CleanPathView>)
    requires
        canon.names.contains(".git"@),
    ensures
        !write_allowed(canon, roots),
{
}

/// Nothing below a denied directory may be read, nor a file whose name bears a secret;
/// everything else may.
pub proof fn reading_is_denied_in_private_places(
    p: CleanPathView,
    roots: Seq<CleanPathView>,
)
    ensures
        read_denied(p, roots) <==> (exists|i: int|
            0 <= i < roots.len() && p.absolute == (#[trigger] roots[i]).absolute
                && roots[i].names.is_prefix_of(p.names)) || (p.names.len() > 0 && is_secret_name(
            p.names.last(),
        )),
{
    if under_any(p, roots) {
        let i = choose|i: int| 0 <= i < roots.len() && p.under(#[trigger] roots[i]);
        assert(roots[i].names.is_prefix_of(p.names));
    }
    if exists|i: int|
        0 <= i < roots.len() && p.absolute == (#[trigger] roots[i]).absolute
            && roots[i].names.is_prefix_of(p.names) {
        let i = choose|i: int|
            0 <= i < roots.len() && p.absolute == (#[trigger] roots[i]).absolute
                && roots[i].names.is_prefix_of(p.names);
        assert(p.under(roots[i]));
    }
}

/// The names that bear secrets: environment files, private keys and the credential
/// files of tools. A longer name that merely begins like a key does not.
pub proof fn names_that_bear_secrets(name: Seq<char>, rest: Seq<char>)
    ensures
        is_secret_name(".env"@),
        is_secret_name(".env."@ + rest),
        is_secret_name("id_rsa"@) && is_secret_name("id_ed25519"@) && is_secret_name("id_ecdsa"@)
            && is_secret_name("id_dsa"@) && is_secret_name("id_x25519"@),
        is_secret_name(".npmrc"@) && is_secret_name(".pypirc"@) && is_secret_name(".netrc"@),
        is_secret_name("credentials"@),
        !is_secret_name("id_rsa.pub"@),
        name.len() > 0 && name[0] != '.' && name[0] != 'i' && name[0] != 'c' ==> !is_secret_name(
            name,
        ),
        name.len() > 11 && name[0] != '.' ==> !is_secret_name(name),
{
    reveal_strlit(".env");
    reveal_strlit(".env.");
    reveal_strlit("id_rsa");
    reveal_strlit("id_rsa.pub");
    reveal_strlit("id_ed25519");
    reveal_strlit("id_ecdsa");
    reveal_strlit("id_dsa");
    reveal_strlit("id_x25519");
    reveal_strlit(".npmrc");
    reveal_strlit(".pypirc");
    reveal_strlit(".netrc");
    reveal_strlit("credentials");
    assert(".env."@ =~= (".env."@ + rest).subrange(0, 5));
    assert("id_rsa.pub"@[0] == 'i');
    assert("id_rsa.pub"@.len() == 10 && "id_ed25519"@.len() == 10);
    assert("id_rsa.pub"@[3] != "id_ed25519"@[3]);
    if ".env."@.is_prefix_of(name) {
        assert(name[0] == ".env."@[0]);
    }
}

/// What is sensitive below a home directory, and nothing where there is no home.
pub proof fn what_is_sensitive_below_home(home: Seq<char>)
    ensures
        sensitive_paths(None).len() == 0,
        sensitive_paths(Some(home)).len() == 13,
        sensitive_paths(Some(home))[0] == joined(home, ".ssh"@),
        sensitive_paths(Some(home))[1] == joined(home, ".aws"@),
        sensitive_paths(Some(home))[2] == joined(home, ".gnupg"@),
        sensitive_paths(Some(home))[3] == joined(home, ".config"@),
        sensitive_paths(Some(home))[4] == joined(home, ".manox/cx.providers.config.yaml"@),
        sensitive_paths(Some(home))[5] == joined(home, ".manox/cx.db"@),
        sensitive_paths(Some(home))[6] == joined(home, ".manox/sessions"@),
        sensitive_paths(Some(home))[7] == joined(home, ".manox/.codex"@),
        sensitive_paths(Some(home))[8] == joined(home, ".manox/.patch_source"@),
        sensitive_paths(Some(home))[9] == joined(home, "Library"@),
        sensitive_paths(Some(home))[10] == joined(home, "Music"@),
        sensitive_paths(Some(home))[11] == joined(home, "Pictures"@),
        sensitive_paths(Some(home))[12] == joined(home, "Photos Library.photoslibrary"@),
{
}

/// A file may be written just where no part of its path is `.git` and it lies under a
/// writable directory.
pub proof fn writing_is_confined(p: CleanPathView, roots: Seq<CleanPathView>, i: int)
    ensures
        write_allowed(p, roots) ==> (forall|k: int|
            0 <= k < p.names.len() ==> #[trigger] p.names[k] != ".git"@) && exists|j: int|
            0 <= j < roots.len() && p.absolute == (#[trigger] roots[j]).absolute
                && roots[j].names.is_prefix_of(p.names),
        0 <= i < roots.len() && p.absolute == roots[i].absolute && roots[i].names.is_prefix_of(
            p.names,
        ) && !p.names.contains(".git"@) ==> write_allowed(p, roots),
{
    if write_allowed(p, roots) {
        let j = choose|j: int| 0 <= j < roots.len() && p.under(#[trigger] roots[j]);
        assert(roots[j].names.is_prefix_of(p.names));
    }
    if 0 <= i < roots.len() && p.absolute == roots[i].absolute && roots[i].names.is_prefix_of(
        p.names,
    ) {
        assert(p.under(roots[i]));
    }
}

/// A project writes to itself, to the temporary directories and to its plans.
pub proof fn a_project_writes_to_itself(project: CleanPathView, plans: CleanPathView)
    ensures
        project_roots(project, None).len() == 3,
        project_roots(project, None)[0] == project,
        project_roots(project, None)[1] == normalized("/tmp"@),
        project_roots(project, None)[2] == normalized("/private/tmp"@),
        project_roots(project, Some(plans)).len() == 4,
        project_roots(project, Some(plans)).take(3) == project_roots(project, None),
        project_roots(project, Some(plans))[3] == plans,
{
    assert(project_roots(project, Some(plans)).take(3) =~= project_roots(project, None));
}

/// A refusal names the path that was refused.
pub proof fn refusals_name_the_path(path: Seq<char>)
    ensures
        read_block_reason(path)
            == "Read blocked by path policy (sensitive path or secret file): "@ + path
            + ". If you genuinely need it, use the bash tool and pass user approval."@,
        write_block_reason(path, true) == "Write blocked by path policy (`.git` is protected): "@
            + path + ". Use git commands through bash (user-approved) for git state."@,
        write_block_reason(path, false)
            == "Write blocked by path policy (outside the project root, temp scratch, and plans dir): "@
            + path + ". Write inside the project, or use bash with user approval."@,
{
}

/// An edit is refused for the first file that may not be written: every file before it
/// may, and where no file is refused every one may be written.
pub proof fn an_edit_is_refused_for_its_first_bad_file(
    targets: Seq<EditTarget>,
    roots: Seq<CleanPathView>,
    i: int,
)
    requires
        0 <= i < targets.len(),
    ensures
        first_blocked(targets, roots) <= targets.len(),
        i < first_blocked(targets, roots) ==> write_allowed(targets[i].canon.deep_view(), roots),
        i == first_blocked(targets, roots) ==> !write_allowed(targets[i].canon.deep_view(), roots),
        !write_allowed(targets[i].canon.deep_view(), roots) ==> first_blocked(targets, roots) <= i,
    decreases targets.len(),
{
    if write_allowed(targets[0].canon.deep_view(), roots) {
        let rest = targets.skip(1);
        if i > 0 {
            an_edit_is_refused_for_its_first_bad_file(rest, roots, i - 1);
            assert(rest[i - 1] == targets[i]);
        } else if rest.len() > 0 {
            an_edit_is_refused_for_its_first_bad_file(rest, roots, 0);
        }
    }
}

} // verus!
