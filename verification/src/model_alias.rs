//! Model references: an exact id, an alias such as `sonnet`, or the leading
//! token of a segment of an id.
//!
//! Tokens are compared whole, so `o3` finds `o3-mini` but not `proto3-server`,
//! and `sonnet` finds `sonnet-4` but not `crimsonsonnet-x`.

use crate::models::{Model, ModelView};
use crate::outside::{lowercase, lowercased};
use crate::text::{
    chars_of, opt_str_view, split, split_char, str_eq, str_trim, string_of_range, strs, trim,
};
use vstd::prelude::*;

verus! {

/// Pairs of an alias and the token it stands for.
pub const ALIASES: [(&'static str, &'static str); 6] = [
    ("sonnet", "sonnet"),
    ("opus", "opus"),
    ("haiku", "haiku"),
    ("gpt-4o", "gpt-4o"),
    ("gpt-5", "gpt-5"),
    ("o3", "o3"),
];

/// Families that the name of their vendor, a dash and the family stand for too.
pub const VENDOR_FAMILIES: [&'static str; 3] = ["sonnet", "opus", "haiku"];

pub open spec fn ends_token(c: char) -> bool {
    c == '-' || c == '.' || c == '_'
}

/// How many characters stand in front of the first end of a token.
pub open spec fn token_len(seg: Seq<char>) -> nat
    decreases seg.len(),
{
    if seg.len() == 0 || ends_token(seg[0]) {
        0
    } else {
        token_len(seg.skip(1)) + 1
    }
}

pub open spec fn first_token(seg: Seq<char>) -> Seq<char> {
    seg.take(token_len(seg) as int)
}

proof fn lemma_token_len(seg: Seq<char>, n: int)
    requires
        0 <= n <= seg.len(),
        forall|i: int| 0 <= i < n ==> !ends_token(#[trigger] seg[i]),
        n < seg.len() ==> ends_token(seg[n]),
    ensures
        token_len(seg) == n,
    decreases n,
{
    if n > 0 {
        assert(!ends_token(seg[0]));
        let rest = seg.skip(1);
        assert forall|i: int| 0 <= i < n - 1 implies !ends_token(#[trigger] rest[i]) by {
            assert(rest[i] == seg[i + 1]);
        }
        lemma_token_len(rest, n - 1);
    }
}

/// The leading token of a segment, up to the first `-`, `.` or `_`.
pub fn segment_first_token(seg: &str) -> (r: String)
    ensures
        r@ == first_token(seg@),
{
    let v = chars_of(seg);
    let mut n: usize = 0;
    while n < v.len() && v[n] != '-' && v[n] != '.' && v[n] != '_'
        invariant
            n <= v@.len(),
            v@ == seg@,
            forall|i: int| 0 <= i < n ==> !ends_token(#[trigger] seg@[i]),
        decreases v@.len() - n,
    {
        n += 1;
    }
    proof {
        lemma_token_len(seg@, n as int);
    }
    assert(v@.subrange(0, n as int) =~= seg@.take(n as int));
    string_of_range(&v, 0, n)
}

/// Whether one of the pieces between colons starts with the token.
pub open spec fn piece_starts_with(piece: Seq<char>, token: Seq<char>) -> bool {
    exists|j: int|
        0 <= j < split(piece, ':').len() && first_token(#[trigger] split(piece, ':')[j]) == token
}

/// Whether a segment of `id`, between slashes and colons, starts with the token.
pub open spec fn segment_starts_with(id: Seq<char>, token: Seq<char>) -> bool {
    exists|i: int|
        0 <= i < split(id, '/').len() && piece_starts_with(#[trigger] split(id, '/')[i], token)
}

fn has_piece(piece: &str, token: &str) -> (r: bool)
    ensures
        r == piece_starts_with(piece@, token@),
{
    let parts = split_char(piece, ':');
    let ghost all = split(piece@, ':');
    for j in 0..parts.len()
        invariant
            strs(parts@) == all,
            all == split(piece@, ':'),
            forall|k: int| 0 <= k < j ==> first_token(#[trigger] all[k]) != token@,
    {
        assert(all[j as int] == parts@[j as int]@);
        if str_eq(segment_first_token(parts[j].as_str()).as_str(), token) {
            return true;
        }
    }
    false
}

/// [`matches_segment`] on texts in lower case.
pub fn lowered_matches_segment(id: &str, token: &str) -> (r: bool)
    ensures
        r == segment_starts_with(id@, token@),
{
    let parts = split_char(id, '/');
    let ghost all = split(id@, '/');
    for i in 0..parts.len()
        invariant
            strs(parts@) == all,
            all == split(id@, '/'),
            forall|k: int| 0 <= k < i ==> !piece_starts_with(#[trigger] all[k], token@),
    {
        assert(all[i as int] == parts@[i as int]@);
        if has_piece(parts[i].as_str(), token) {
            return true;
        }
    }
    false
}

/// Whether `id` has a segment, between slashes and colons, whose first token is
/// `probe`, without regard to case.
pub fn matches_segment(id: &str, probe: &str) -> (r: bool)
    ensures
        r == segment_starts_with(lowercased(id@), lowercased(probe@)),
{
    let probe = lowercase(probe);
    let id = lowercase(id);
    lowered_matches_segment(id.as_str(), probe.as_str())
}

/// What the first alias at or behind `i` with this name stands for.
pub open spec fn alias_from(name: Seq<char>, i: int) -> Option<Seq<char>>
    decreases ALIASES@.len() - i,
{
    if i < 0 || i >= ALIASES@.len() {
        None
    } else if ALIASES@[i].0@ == name {
        Some(ALIASES@[i].1@)
    } else {
        alias_from(name, i + 1)
    }
}

/// The first family at or behind `i` that is named after its vendor.
pub open spec fn family_from(name: Seq<char>, vendor: Seq<char>, i: int) -> Option<Seq<char>>
    decreases VENDOR_FAMILIES@.len() - i,
{
    if i < 0 || i >= VENDOR_FAMILIES@.len() {
        None
    } else if name == vendor + "-"@ + VENDOR_FAMILIES@[i]@ {
        Some(VENDOR_FAMILIES@[i]@)
    } else {
        family_from(name, vendor, i + 1)
    }
}

/// What an alias stands for: a family named after its vendor, or an entry of the
/// table.
pub open spec fn alias_of(name: Seq<char>, vendor: Seq<char>) -> Option<Seq<char>> {
    match family_from(name, vendor, 0) {
        Some(f) => Some(f),
        None => alias_from(name, 0),
    }
}

/// The token to look for: what the alias stands for, else the reference itself.
/// `lowered` is the reference in lower case.
pub open spec fn probe_of(model_ref: Seq<char>, lowered: Seq<char>, vendor: Seq<char>) -> Seq<char> {
    match alias_of(lowered, vendor) {
        Some(p) => p,
        None => model_ref,
    }
}

/// The token to look for, given the reference as it is and in lower case.
/// `vendor` names the vendor of the families.
pub fn alias_probe(model_ref: &str, lowered: &str, vendor: &str) -> (r: String)
    ensures
        r@ == probe_of(model_ref@, lowered@, vendor@),
{
    let families = VENDOR_FAMILIES;
    for i in 0..families.len()
        invariant
            families@ == VENDOR_FAMILIES@,
            family_from(lowered@, vendor@, 0) == family_from(lowered@, vendor@, i as int),
    {
        let mut name = vendor.to_owned();
        name.append("-");
        name.append(families[i]);
        if str_eq(name.as_str(), lowered) {
            return families[i].to_owned();
        }
    }
    let aliases = ALIASES;
    for i in 0..aliases.len()
        invariant
            aliases@ == ALIASES@,
            family_from(lowered@, vendor@, 0) is None,
            alias_from(lowered@, 0) == alias_from(lowered@, i as int),
    {
        if str_eq(aliases[i].0, lowered) {
            return aliases[i].1.to_owned();
        }
    }
    model_ref.to_owned()
}

/// The position of the first model with this id.
pub open spec fn exact_at(models: Seq<ModelView>, id: Seq<char>, i: int) -> int
    decreases models.len() - i,
{
    if i >= models.len() || models[i].id == id {
        i
    } else {
        exact_at(models, id, i + 1)
    }
}

/// The position of the first model that the token finds.
pub open spec fn probed_at(models: Seq<ModelView>, probe: Seq<char>, i: int) -> int
    decreases models.len() - i,
{
    if i >= models.len() || segment_starts_with(lowercased(models[i].id), lowercased(probe)) {
        i
    } else {
        probed_at(models, probe, i + 1)
    }
}

/// The model that a reference names: an exact id, else the first model that the
/// token of the reference finds.
pub open spec fn resolved_ref(
    models: Seq<ModelView>,
    model_ref: Seq<char>,
    vendor: Seq<char>,
) -> Option<ModelView> {
    let exact = exact_at(models, model_ref, 0);
    let probed = probed_at(models, probe_of(model_ref, lowercased(model_ref), vendor), 0);
    if exact < models.len() {
        Some(models[exact])
    } else if probed < models.len() {
        Some(models[probed])
    } else {
        None
    }
}

/// Resolves a model reference against the registered models: an exact id wins,
/// then the alias table and the reference itself give a token to look for.
pub fn resolve_pi_model_ref(models: &Vec<Model>, model_ref: &str, vendor: &str) -> (r: Option<
    Model,
>)
    ensures
        r.deep_view() == resolved_ref(models.deep_view(), model_ref@, vendor@),
{
    let ghost all = models.deep_view();
    let mut i: usize = 0;
    while i < models.len()
        invariant
            i <= models@.len(),
            all == models.deep_view(),
            exact_at(all, model_ref@, 0) == exact_at(all, model_ref@, i as int),
        decreases models@.len() - i,
    {
        assert(all[i as int] == models@[i as int].deep_view());
        if str_eq(models[i].id.as_str(), model_ref) {
            return Some(models[i].clone());
        }
        i += 1;
    }
    let lowered = lowercase(model_ref);
    let probe = alias_probe(model_ref, lowered.as_str(), vendor);
    let mut i: usize = 0;
    while i < models.len()
        invariant
            i <= models@.len(),
            all == models.deep_view(),
            exact_at(all, model_ref@, 0) >= all.len(),
            probe@ == probe_of(model_ref@, lowercased(model_ref@), vendor@),
            probed_at(all, probe@, 0) == probed_at(all, probe@, i as int),
        decreases models@.len() - i,
    {
        assert(all[i as int] == models@[i as int].deep_view());
        if matches_segment(models[i].id.as_str(), probe.as_str()) {
            return Some(models[i].clone());
        }
        i += 1;
    }
    None
}

// ---------------------------------------------------------------------------
// Defaults
// ---------------------------------------------------------------------------

/// A registered model, and whether agents of this class see it.
#[derive(Debug)]
pub struct ListedModel {
    pub model: Model,
    pub visible: bool,
}

/// The position of the first visible model.
pub open spec fn visible_at(ms: Seq<ListedModel>, i: int) -> int
    decreases ms.len() - i,
{
    if i >= ms.len() || ms[i].visible {
        i
    } else {
        visible_at(ms, i + 1)
    }
}

/// The first visible model, else the first one.
pub open spec fn first_choice(ms: Seq<ListedModel>) -> Option<ModelView> {
    let i = visible_at(ms, 0);
    if i < ms.len() {
        Some(ms[i].model.deep_view())
    } else if ms.len() > 0 {
        Some(ms[0].model.deep_view())
    } else {
        None
    }
}

/// The reference that a setting holds, if it is not blank.
pub open spec fn set_reference(setting: Option<Seq<char>>) -> Option<Seq<char>> {
    match setting {
        Some(s) => if trim(s).len() == 0 {
            None
        } else {
            Some(trim(s))
        },
        None => None,
    }
}

/// The reference to look up in the registry for a setting, if there is one.
pub fn model_reference(setting: Option<&str>) -> (r: Option<String>)
    ensures
        r.deep_view() == set_reference(opt_str_view(setting)),
{
    match setting {
        Some(s) => {
            let reference = str_trim(s);
            if reference.as_str().is_empty() {
                None
            } else {
                Some(reference)
            }
        },
        None => None,
    }
}

/// The default model for a new thread: what the registry found for the configured
/// reference, else the first model that agents of this class see, else the first
/// one.
pub fn default_model(
    setting: Option<&str>,
    resolved: Option<Model>,
    listed: &Vec<ListedModel>,
) -> (r: Option<Model>)
    ensures
        r.deep_view() == (if set_reference(opt_str_view(setting)) is Some && resolved is Some {
            resolved.deep_view()
        } else {
            first_choice(listed@)
        }),
{
    if model_reference(setting).is_some() && resolved.is_some() {
        return resolved;
    }
    let mut i: usize = 0;
    while i < listed.len()
        invariant
            i <= listed@.len(),
            visible_at(listed@, 0) == visible_at(listed@, i as int),
            !(set_reference(opt_str_view(setting)) is Some && resolved is Some),
        decreases listed@.len() - i,
    {
        if listed[i].visible {
            return Some(listed[i].model.clone());
        }
        i += 1;
    }
    if listed.len() > 0 {
        Some(listed[0].model.clone())
    } else {
        None
    }
}

/// The model of a side call: what the registry found for the reference. A blank
/// reference and one that names nothing inherit the model of the session.
pub fn resolve_side_call_model_in(setting: &str, resolved: Option<Model>) -> (r: Option<Model>)
    ensures
        r == (if set_reference(Some(setting@)) is Some {
            resolved
        } else {
            None
        }),
{
    if model_reference(Some(setting)).is_some() {
        resolved
    } else {
        None
    }
}

/// An exact id always wins, whatever the aliases say.
pub proof fn an_exact_id_wins(models: Seq<ModelView>, vendor: Seq<char>, i: int)
    requires
        0 <= i < models.len(),
    ensures
        resolved_ref(models, models[i].id, vendor) matches Some(m) && m.id == models[i].id,
{
    lemma_exact_at(models, models[i].id, i, 0);
}

proof fn lemma_exact_at(models: Seq<ModelView>, id: Seq<char>, i: int, from: int)
    requires
        0 <= from <= i < models.len(),
        models[i].id == id,
    ensures
        from <= exact_at(models, id, from) <= i,
        models[exact_at(models, id, from)].id == id,
    decreases i - from,
{
    if models[from].id != id {
        lemma_exact_at(models, id, i, from + 1);
    }
}

/// The first word of a part ends before the first hyphen, dot or underscore.
pub proof fn the_first_word_ends_at_a_mark(word: Seq<char>, mark: char, rest: Seq<char>)
    requires
        forall|i: int|
            0 <= i < word.len() ==> #[trigger] word[i] != '-' && word[i] != '.' && word[i] != '_',
        mark == '-' || mark == '.' || mark == '_',
    ensures
        first_token(word) == word,
        first_token(word + seq![mark] + rest) == word,
{
    let whole = word + seq![mark] + rest;
    assert forall|i: int| 0 <= i < word.len() implies !ends_token(#[trigger] whole[i]) by {
        assert(whole[i] == word[i]);
    }
    assert forall|i: int| 0 <= i < word.len() implies !ends_token(#[trigger] word[i]) by {}
    lemma_token_len(whole, word.len() as int);
    lemma_token_len(word, word.len() as int);
    assert(whole.take(word.len() as int) =~= word);
    assert(word.take(word.len() as int) =~= word);
}

/// An id matches where one of its parts, between slashes and colons, begins with the
/// word.
pub proof fn an_id_matches_by_its_parts(id: Seq<char>, token: Seq<char>, i: int, j: int)
    requires
        0 <= i < split(id, '/').len(),
        0 <= j < split(split(id, '/')[i], ':').len(),
    ensures
        first_token(split(split(id, '/')[i], ':')[j]) == token ==> segment_starts_with(id, token),
        !segment_starts_with(id, token) ==> first_token(split(split(id, '/')[i], ':')[j]) != token,
{
    let piece = split(id, '/')[i];
    if first_token(split(piece, ':')[j]) == token {
        assert(piece_starts_with(piece, token));
    }
}

/// A family of the vendor is asked for by the vendor's name and its own, and an alias by
/// its name; any other reference is taken as it is.
pub proof fn aliases_stand_for_families(
    model_ref: Seq<char>,
    lowered: Seq<char>,
    vendor: Seq<char>,
)
    ensures
        alias_of(lowered, vendor) is None ==> probe_of(model_ref, lowered, vendor) == model_ref,
        alias_of(lowered, vendor) matches Some(p) ==> probe_of(model_ref, lowered, vendor) == p,
        alias_of(vendor + "-"@ + "sonnet"@, vendor) == Some("sonnet"@),
        alias_of(vendor + "-"@ + "opus"@, vendor) == Some("opus"@),
        alias_of(vendor + "-"@ + "haiku"@, vendor) == Some("haiku"@),
{
    reveal_with_fuel(family_from, 4);
    reveal_strlit("sonnet");
    reveal_strlit("opus");
    reveal_strlit("haiku");
    let prefix = vendor + "-"@;
    assert((prefix + "sonnet"@).len() == prefix.len() + 6);
    assert((prefix + "opus"@).len() == prefix.len() + 4);
    assert((prefix + "haiku"@).len() == prefix.len() + 5);
}

/// A reference finds the first model with that very id; where none has it, the first
/// whose id matches what it stands for, upper and lower case apart; and else none.
pub proof fn the_first_matching_model_is_taken(
    models: Seq<ModelView>,
    model_ref: Seq<char>,
    vendor: Seq<char>,
    at: int,
)
    ensures
        0 <= at < models.len() && models[at].id == model_ref && (forall|k: int|
            0 <= k < at ==> (#[trigger] models[k]).id != model_ref) ==> resolved_ref(
            models,
            model_ref,
            vendor,
        ) == Some(models[at]),
        (forall|k: int| 0 <= k < models.len() ==> (#[trigger] models[k]).id != model_ref) && 0 <= at
            < models.len() && segment_starts_with(
            lowercased(models[at].id),
            lowercased(probe_of(model_ref, lowercased(model_ref), vendor)),
        ) && (forall|k: int|
            0 <= k < at ==> !segment_starts_with(
                lowercased((#[trigger] models[k]).id),
                lowercased(probe_of(model_ref, lowercased(model_ref), vendor)),
            )) ==> resolved_ref(models, model_ref, vendor) == Some(models[at]),
        (forall|k: int|
            0 <= k < models.len() ==> (#[trigger] models[k]).id != model_ref
                && !segment_starts_with(
                lowercased(models[k].id),
                lowercased(probe_of(model_ref, lowercased(model_ref), vendor)),
            )) ==> resolved_ref(models, model_ref, vendor) is None,
{
    let probe = probe_of(model_ref, lowercased(model_ref), vendor);
    lemma_first_exact(models, model_ref, 0);
    lemma_first_probed(models, probe, 0);
    let e = exact_at(models, model_ref, 0);
    let p = probed_at(models, probe, 0);
    if e < models.len() {
        assert(models[e].id == model_ref);
    }
    if p < models.len() {
        assert(models[p] == models[p]);
    }
}

proof fn lemma_first_exact(models: Seq<ModelView>, id: Seq<char>, i: int)
    requires
        0 <= i <= models.len(),
    ensures
        i <= exact_at(models, id, i) <= models.len(),
        exact_at(models, id, i) < models.len() ==> models[exact_at(models, id, i)].id == id,
        forall|k: int| i <= k < exact_at(models, id, i) ==> (#[trigger] models[k]).id != id,
    decreases models.len() - i,
{
    if i < models.len() && models[i].id != id {
        lemma_first_exact(models, id, i + 1);
    }
}

proof fn lemma_first_probed(models: Seq<ModelView>, probe: Seq<char>, i: int)
    requires
        0 <= i <= models.len(),
    ensures
        i <= probed_at(models, probe, i) <= models.len(),
        probed_at(models, probe, i) < models.len() ==> segment_starts_with(
            lowercased(models[probed_at(models, probe, i)].id),
            lowercased(probe),
        ),
        forall|k: int|
            i <= k < probed_at(models, probe, i) ==> !segment_starts_with(
                lowercased((#[trigger] models[k]).id),
                lowercased(probe),
            ),
    decreases models.len() - i,
{
    if i < models.len() && !segment_starts_with(lowercased(models[i].id), lowercased(probe)) {
        lemma_first_probed(models, probe, i + 1);
    }
}

/// Without a setting the first model that is visible is taken, and where none is, the
/// first of all.
pub proof fn the_first_visible_model_is_the_default(ms: Seq<ListedModel>, at: int)
    ensures
        ms.len() == 0 ==> first_choice(ms) is None,
        0 <= at < ms.len() && ms[at].visible && (forall|k: int|
            0 <= k < at ==> !(#[trigger] ms[k]).visible) ==> first_choice(ms) == Some(
            ms[at].model.deep_view(),
        ),
        ms.len() > 0 && (forall|k: int| 0 <= k < ms.len() ==> !(#[trigger] ms[k]).visible)
            ==> first_choice(ms) == Some(ms[0].model.deep_view()),
{
    lemma_first_visible(ms, 0);
}

proof fn lemma_first_visible(ms: Seq<ListedModel>, i: int)
    requires
        0 <= i <= ms.len(),
    ensures
        i <= visible_at(ms, i) <= ms.len(),
        visible_at(ms, i) < ms.len() ==> ms[visible_at(ms, i)].visible,
        forall|k: int| i <= k < visible_at(ms, i) ==> !(#[trigger] ms[k]).visible,
    decreases ms.len() - i,
{
    if i < ms.len() && !ms[i].visible {
        lemma_first_visible(ms, i + 1);
    }
}

/// A setting counts without the white space around it; a blank one is none.
pub proof fn a_blank_setting_is_none(setting: Seq<char>)
    ensures
        crate::text::blank(setting) ==> set_reference(Some(setting)) is None,
        !crate::text::blank(setting) ==> set_reference(Some(setting)) == Some(trim(setting)),
        set_reference(None) is None,
{
}

/// The short names stand for the families of that name; another name stands for
/// nothing.
pub proof fn short_names_stand_for_families(name: Seq<char>)
    ensures
        alias_from("sonnet"@, 0) == Some("sonnet"@),
        alias_from("opus"@, 0) == Some("opus"@),
        alias_from("haiku"@, 0) == Some("haiku"@),
        alias_from("gpt-4o"@, 0) == Some("gpt-4o"@),
        alias_from("gpt-5"@, 0) == Some("gpt-5"@),
        alias_from("o3"@, 0) == Some("o3"@),
        name != "sonnet"@ && name != "opus"@ && name != "haiku"@ && name != "gpt-4o"@ && name
            != "gpt-5"@ && name != "o3"@ ==> alias_from(name, 0) is None,
{
    reveal_with_fuel(alias_from, 8);
    reveal_strlit("sonnet");
    reveal_strlit("opus");
    reveal_strlit("haiku");
    reveal_strlit("gpt-4o");
    reveal_strlit("gpt-5");
    reveal_strlit("o3");
    assert("sonnet"@[0] == 's' && "haiku"@[0] == 'h' && "gpt-4o"@[0] == 'g' && "gpt-5"@[0] == 'g');
    assert("opus"@.len() == 4 && "o3"@.len() == 2 && "gpt-4o"@.len() == 6 && "gpt-5"@.len() == 5);
    assert("opus"@[0] == 'o' && "o3"@[0] == 'o');
}

} // verus!
