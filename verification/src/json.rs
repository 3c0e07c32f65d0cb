//! JSON values as the agent reads and builds them: tool inputs, schemas and
//! protocol messages.

use crate::outside::{
    json_of, json_pretty_text, json_text, parse_json, write_json, write_pretty_json,
};
use crate::text::str_eq;
use vstd::prelude::*;

verus! {

/// A JSON value. An object keeps its entries in order; a number that is no
/// 64-bit integer is kept by its text.
#[derive(Debug, PartialEq, Eq)]
pub enum Json {
    Null,
    Bool(bool),
    Unsigned(u64),
    Negative(i64),
    Decimal(String),
    Str(String),
    Array(Vec<Json>),
    Object(Vec<(String, Json)>),
}

/// The mathematical value of a [`Json`].
pub enum JsonView {
    Null,
    Bool(bool),
    Unsigned(u64),
    Negative(i64),
    Decimal(Seq<char>),
    Str(Seq<char>),
    Array(Seq<JsonView>),
    Object(Seq<(Seq<char>, JsonView)>),
}

impl Json {
    pub open spec fn model(self) -> JsonView
        decreases self,
    {
        match self {
            Json::Null => JsonView::Null,
            Json::Bool(b) => JsonView::Bool(b),
            Json::Unsigned(n) => JsonView::Unsigned(n),
            Json::Negative(n) => JsonView::Negative(n),
            Json::Decimal(s) => JsonView::Decimal(s@),
            Json::Str(s) => JsonView::Str(s@),
            Json::Array(v) => JsonView::Array(
                Seq::new(
                    v@.len(),
                    |i: int|
                        if 0 <= i < v@.len() {
                            v@[i].model()
                        } else {
                            JsonView::Null
                        },
                ),
            ),
            Json::Object(v) => JsonView::Object(
                Seq::new(
                    v@.len(),
                    |i: int|
                        if 0 <= i < v@.len() {
                            (v@[i].0@, v@[i].1.model())
                        } else {
                            (seq![], JsonView::Null)
                        },
                ),
            ),
        }
    }
}

impl DeepView for Json {
    type V = JsonView;

    open spec fn deep_view(&self) -> JsonView {
        self.model()
    }
}

impl Clone for Json {
    fn clone(&self) -> (r: Self)
        ensures
            r.model() == self.model(),
        decreases self,
    {
        match self {
            Json::Null => Json::Null,
            Json::Bool(b) => Json::Bool(*b),
            Json::Unsigned(n) => Json::Unsigned(*n),
            Json::Negative(n) => Json::Negative(*n),
            Json::Decimal(s) => Json::Decimal(s.clone()),
            Json::Str(s) => Json::Str(s.clone()),
            Json::Array(v) => {
                let mut out: Vec<Json> = Vec::new();
                for i in 0..v.len()
                    invariant
                        *self == Json::Array(*v),
                        out@.len() == i,
                        forall|k: int| 0 <= k < i ==> out@[k].model() == v@[k].model(),
                {
                    assert(decreases_to!(self => self->Array_0@[i as int]));
                    out.push(v[i].clone());
                }
                let r = Json::Array(out);
                assert(r.model()->Array_0 =~= self.model()->Array_0);
                r
            },
            Json::Object(v) => {
                let mut out: Vec<(String, Json)> = Vec::new();
                for i in 0..v.len()
                    invariant
                        *self == Json::Object(*v),
                        out@.len() == i,
                        forall|k: int|
                            0 <= k < i ==> out@[k].0@ == v@[k].0@ && out@[k].1.model()
                                == v@[k].1.model(),
                {
                    assert(decreases_to!(self => self->Object_0@[i as int].1));
                    out.push((v[i].0.clone(), v[i].1.clone()));
                }
                let r = Json::Object(out);
                assert(r.model()->Object_0 =~= self.model()->Object_0);
                r
            },
        }
    }
}

// ---------------------------------------------------------------------------
// Reading
// ---------------------------------------------------------------------------

/// The value of the first entry with the key `key`.
pub open spec fn lookup(entries: Seq<(Seq<char>, JsonView)>, key: Seq<char>) -> Option<JsonView>
    decreases entries.len(),
{
    if entries.len() == 0 {
        None
    } else if entries[0].0 == key {
        Some(entries[0].1)
    } else {
        lookup(entries.skip(1), key)
    }
}

impl JsonView {
    /// The member `key` of an object; nothing else has members.
    pub open spec fn get(self, key: Seq<char>) -> Option<JsonView> {
        match self {
            JsonView::Object(entries) => lookup(entries, key),
            _ => None,
        }
    }

    pub open spec fn as_str(self) -> Option<Seq<char>> {
        match self {
            JsonView::Str(s) => Some(s),
            _ => None,
        }
    }

    pub open spec fn as_bool(self) -> Option<bool> {
        match self {
            JsonView::Bool(b) => Some(b),
            _ => None,
        }
    }

    pub open spec fn as_u64(self) -> Option<u64> {
        match self {
            JsonView::Unsigned(n) => Some(n),
            _ => None,
        }
    }

    pub open spec fn as_array(self) -> Option<Seq<JsonView>> {
        match self {
            JsonView::Array(v) => Some(v),
            _ => None,
        }
    }

    /// The string member `key`.
    pub open spec fn str_at(self, key: Seq<char>) -> Option<Seq<char>> {
        match self.get(key) {
            Some(v) => v.as_str(),
            None => None,
        }
    }

    /// The boolean member `key`.
    pub open spec fn bool_at(self, key: Seq<char>) -> Option<bool> {
        match self.get(key) {
            Some(v) => v.as_bool(),
            None => None,
        }
    }
}

pub open spec fn models(v: Seq<Json>) -> Seq<JsonView> {
    Seq::new(v.len(), |i: int| v[i].model())
}

pub open spec fn entry_models(v: Seq<(String, Json)>) -> Seq<(Seq<char>, JsonView)> {
    Seq::new(v.len(), |i: int| (v[i].0@, v[i].1.model()))
}

pub proof fn lemma_model_of_array(v: Vec<Json>)
    ensures
        Json::Array(v).model() == JsonView::Array(models(v@)),
{
    assert(Json::Array(v).model()->Array_0 =~= models(v@));
}

pub proof fn lemma_model_of_object(v: Vec<(String, Json)>)
    ensures
        Json::Object(v).model() == JsonView::Object(entry_models(v@)),
{
    assert(Json::Object(v).model()->Object_0 =~= entry_models(v@));
}

impl Json {
    /// The member `key` of an object.
    pub fn get(&self, key: &str) -> (r: Option<&Json>)
        ensures
            match r {
                Some(x) => self.model().get(key@) == Some(x.model()),
                None => self.model().get(key@) is None,
            },
    {
        match self {
            Json::Object(entries) => {
                let ghost all = entry_models(entries@);
                proof {
                    lemma_model_of_object(*entries);
                    assert(all.skip(0) =~= all);
                }
                for i in 0..entries.len()
                    invariant
                        self.model() == JsonView::Object(all),
                        all == entry_models(entries@),
                        lookup(all, key@) == lookup(all.skip(i as int), key@),
                {
                    if str_eq(entries[i].0.as_str(), key) {
                        assert(all.skip(i as int)[0] == all[i as int]);
                        return Some(&entries[i].1);
                    }
                    assert(all.skip(i as int)[0] == all[i as int]);
                    assert(all.skip(i as int).skip(1) =~= all.skip(i + 1));
                }
                None
            },
            _ => None,
        }
    }

    pub fn as_str(&self) -> (r: Option<&str>)
        ensures
            match r {
                Some(x) => self.model().as_str() == Some(x@),
                None => self.model().as_str() is None,
            },
    {
        match self {
            Json::Str(s) => Some(s.as_str()),
            _ => None,
        }
    }

    pub fn as_bool(&self) -> (r: Option<bool>)
        ensures
            r == self.model().as_bool(),
    {
        match self {
            Json::Bool(b) => Some(*b),
            _ => None,
        }
    }

    pub fn as_u64(&self) -> (r: Option<u64>)
        ensures
            r == self.model().as_u64(),
    {
        match self {
            Json::Unsigned(n) => Some(*n),
            _ => None,
        }
    }

    pub fn as_array(&self) -> (r: Option<&Vec<Json>>)
        ensures
            match r {
                Some(x) => self.model().as_array() == Some(models(x@)) && decreases_to!(self => x),
                None => self.model().as_array() is None,
            },
    {
        match self {
            Json::Array(v) => {
                proof {
                    lemma_model_of_array(*v);
                }
                Some(v)
            },
            _ => None,
        }
    }

    /// The string member `key`.
    pub fn str_at(&self, key: &str) -> (r: Option<&str>)
        ensures
            match r {
                Some(x) => self.model().str_at(key@) == Some(x@),
                None => self.model().str_at(key@) is None,
            },
    {
        match self.get(key) {
            Some(v) => v.as_str(),
            None => None,
        }
    }

    /// The boolean member `key`.
    pub fn bool_at(&self, key: &str) -> (r: Option<bool>)
        ensures
            r == self.model().bool_at(key@),
    {
        match self.get(key) {
            Some(v) => v.as_bool(),
            None => None,
        }
    }
}

// ---------------------------------------------------------------------------
// Building
// ---------------------------------------------------------------------------

pub fn jstr(s: &str) -> (r: Json)
    ensures
        r.model() == JsonView::Str(s@),
{
    Json::Str(s.to_owned())
}

pub fn jarr(v: Vec<Json>) -> (r: Json)
    ensures
        r.model() == JsonView::Array(models(v@)),
{
    proof {
        lemma_model_of_array(v);
    }
    Json::Array(v)
}

pub fn jobj(v: Vec<(String, Json)>) -> (r: Json)
    ensures
        r.model() == JsonView::Object(entry_models(v@)),
{
    proof {
        lemma_model_of_object(v);
    }
    Json::Object(v)
}

/// The entries with the value of `key` set: in its place where there is one,
/// behind the others where there is none.
pub open spec fn with_member(
    es: Seq<(Seq<char>, JsonView)>,
    key: Seq<char>,
    value: JsonView,
) -> Seq<(Seq<char>, JsonView)>
    decreases es.len(),
{
    if es.len() == 0 {
        seq![(key, value)]
    } else if es[0].0 == key {
        seq![(key, value)] + es.skip(1)
    } else {
        seq![es[0]] + with_member(es.skip(1), key, value)
    }
}

/// The entries without those with the key `key`.
pub open spec fn without_member(es: Seq<(Seq<char>, JsonView)>, key: Seq<char>) -> Seq<
    (Seq<char>, JsonView),
> {
    es.filter(other_than(key))
}

pub open spec fn other_than(key: Seq<char>) -> spec_fn((Seq<char>, JsonView)) -> bool {
    |e: (Seq<char>, JsonView)| e.0 != key
}

/// Setting a member changes what it holds and nothing else.
pub proof fn setting_a_member_sets_only_it(
    es: Seq<(Seq<char>, JsonView)>,
    key: Seq<char>,
    value: JsonView,
    other: Seq<char>,
)
    ensures
        lookup(with_member(es, key, value), key) == Some(value),
        other != key ==> lookup(with_member(es, key, value), other) == lookup(es, other),
    decreases es.len(),
{
    let after = with_member(es, key, value);
    if es.len() == 0 {
        assert(after.skip(1) =~= seq![]);
        assert(lookup(after.skip(1), other) is None);
        assert(lookup(es, other) is None);
    } else if es[0].0 == key {
        assert(after.skip(1) =~= es.skip(1));
    } else {
        setting_a_member_sets_only_it(es.skip(1), key, value, other);
        assert(after.skip(1) =~= with_member(es.skip(1), key, value));
    }
}

/// Removing a member leaves every other one as it was.
pub proof fn removing_a_member_removes_only_it(
    es: Seq<(Seq<char>, JsonView)>,
    key: Seq<char>,
    other: Seq<char>,
)
    ensures
        lookup(without_member(es, key), key) is None,
        other != key ==> lookup(without_member(es, key), other) == lookup(es, other),
    decreases es.len(),
{
    let keep = other_than(key);
    if es.len() == 0 {
        assert(es.filter(keep) =~= es) by {
            reveal(Seq::filter);
        }
    } else {
        let rest = es.skip(1);
        removing_a_member_removes_only_it(rest, key, other);
        rest.lemma_filter_prepend(es[0], keep);
        assert(es =~= seq![es[0]] + rest);
        let kept = es.filter(keep);
        if keep(es[0]) {
            assert(kept =~= seq![es[0]] + rest.filter(keep));
            assert(kept.skip(1) =~= rest.filter(keep));
        } else {
            assert(kept =~= rest.filter(keep));
        }
    }
}

/// Sets the value of a member.
pub fn set_member(entries: &mut Vec<(String, Json)>, key: &str, value: Json)
    ensures
        entry_models(final(entries)@) == with_member(
            entry_models(old(entries)@),
            key@,
            value.model(),
        ),
{
    let ghost es = entry_models(entries@);
    let ghost v = value.model();
    assert(es.skip(0) =~= es);
    assert(es.take(0) + with_member(es, key@, v) =~= with_member(es, key@, v));
    let n: usize = entries.len();
    let mut i: usize = 0;
    while i < n
        invariant
            i <= n,
            n == entries@.len(),
            es == entry_models(entries@),
            es == entry_models(old(entries)@),
            with_member(es, key@, v) == es.take(i as int) + with_member(
                es.skip(i as int),
                key@,
                v,
            ),
            v == value.model(),
        decreases n - i,
    {
        let ghost rest = es.skip(i as int);
        assert(rest[0] == es[i as int]);
        if str_eq(entries[i].0.as_str(), key) {
            let entry = (key.to_owned(), value);
            entries.set(i, entry);
            assert(entry_models(entries@) =~= es.update(i as int, (key@, v)));
            assert(es.take(i as int) + (seq![(key@, v)] + rest.skip(1)) =~= es.update(
                i as int,
                (key@, v),
            ));
            return ;
        }
        assert(rest.skip(1) =~= es.skip(i + 1));
        assert(es.take(i as int) + (seq![rest[0]] + with_member(es.skip(i + 1), key@, v))
            =~= es.take(i + 1) + with_member(es.skip(i + 1), key@, v));
        i += 1;
    }
    assert(es.take(i as int) =~= es);
    assert(es.skip(i as int).len() == 0);
    entries.push((key.to_owned(), value));
    assert(entry_models(entries@) =~= es + seq![(key@, v)]);
}

/// Removes a member.
pub fn remove_member(entries: &mut Vec<(String, Json)>, key: &str)
    ensures
        entry_models(final(entries)@) == without_member(entry_models(old(entries)@), key@),
{
    let ghost es = entry_models(entries@);
    let ghost keep = other_than(key@);
    let mut out: Vec<(String, Json)> = Vec::new();
    let n: usize = entries.len();
    assert(entry_models(out@) =~= es.take(0).filter(keep)) by {
        reveal(Seq::filter);
    }
    for i in 0..n
        invariant
            n == entries@.len(),
            es == entry_models(entries@),
            keep == other_than(key@),
            entry_models(out@) == es.take(i as int).filter(keep),
    {
        reveal(Seq::filter);
        let ghost before = entry_models(out@);
        assert(es.take(i + 1).drop_last() =~= es.take(i as int));
        assert(es.take(i + 1).last() == es[i as int]);
        if !str_eq(entries[i].0.as_str(), key) {
            let entry = (entries[i].0.clone(), entries[i].1.clone());
            out.push(entry);
            assert(entry_models(out@) =~= before.push(es[i as int]));
        }
    }
    assert(es.take(es.len() as int) =~= es);
    *entries = out;
}

/// A copy of the members.
pub fn clone_entries(es: &Vec<(String, Json)>) -> (r: Vec<(String, Json)>)
    ensures
        entry_models(r@) == entry_models(es@),
{
    let mut out: Vec<(String, Json)> = Vec::new();
    for i in 0..es.len()
        invariant
            entry_models(out@) == entry_models(es@).take(i as int),
    {
        let ghost before = entry_models(out@);
        let entry = (es[i].0.clone(), es[i].1.clone());
        out.push(entry);
        assert(entry_models(out@) =~= before.push(entry_models(es@)[i as int]));
        assert(entry_models(out@) =~= entry_models(es@).take(i + 1));
    }
    assert(entry_models(out@) =~= entry_models(es@));
    out
}

// ---------------------------------------------------------------------------
// Comparing
// ---------------------------------------------------------------------------

impl Json {
    /// Whether both are the same value, with the members in the same order.
    pub fn same(&self, other: &Json) -> (r: bool)
        ensures
            r == (self.model() == other.model()),
        decreases self,
    {
        match (self, other) {
            (Json::Null, Json::Null) => true,
            (Json::Bool(a), Json::Bool(b)) => *a == *b,
            (Json::Unsigned(a), Json::Unsigned(b)) => *a == *b,
            (Json::Negative(a), Json::Negative(b)) => *a == *b,
            (Json::Decimal(a), Json::Decimal(b)) => str_eq(a.as_str(), b.as_str()),
            (Json::Str(a), Json::Str(b)) => str_eq(a.as_str(), b.as_str()),
            (Json::Array(a), Json::Array(b)) => {
                proof {
                    lemma_model_of_array(*a);
                    lemma_model_of_array(*b);
                }
                if a.len() != b.len() {
                    assert(models(a@).len() != models(b@).len());
                    return false;
                }
                for i in 0..a.len()
                    invariant
                        *self == Json::Array(*a),
                        *other == Json::Array(*b),
                        a@.len() == b@.len(),
                        self.model() == JsonView::Array(models(a@)),
                        other.model() == JsonView::Array(models(b@)),
                        forall|k: int| 0 <= k < i ==> a@[k].model() == b@[k].model(),
                {
                    assert(decreases_to!(self => self->Array_0@[i as int]));
                    if !a[i].same(&b[i]) {
                        assert(models(a@)[i as int] != models(b@)[i as int]);
                        return false;
                    }
                }
                assert(models(a@) =~= models(b@));
                true
            },
            (Json::Object(a), Json::Object(b)) => {
                proof {
                    lemma_model_of_object(*a);
                    lemma_model_of_object(*b);
                }
                if a.len() != b.len() {
                    assert(entry_models(a@).len() != entry_models(b@).len());
                    return false;
                }
                for i in 0..a.len()
                    invariant
                        *self == Json::Object(*a),
                        *other == Json::Object(*b),
                        a@.len() == b@.len(),
                        self.model() == JsonView::Object(entry_models(a@)),
                        other.model() == JsonView::Object(entry_models(b@)),
                        forall|k: int|
                            0 <= k < i ==> a@[k].0@ == b@[k].0@ && a@[k].1.model()
                                == b@[k].1.model(),
                {
                    assert(decreases_to!(self => self->Object_0@[i as int].1));
                    if !str_eq(a[i].0.as_str(), b[i].0.as_str()) || !a[i].1.same(&b[i].1) {
                        assert(entry_models(a@)[i as int] != entry_models(b@)[i as int]);
                        return false;
                    }
                }
                assert(entry_models(a@) =~= entry_models(b@));
                true
            },
            _ => false,
        }
    }
}

// ---------------------------------------------------------------------------
// Reading and writing texts
// ---------------------------------------------------------------------------

impl Json {
    /// The value that a text stands for, if it is JSON.
    pub fn parse(text: &str) -> (r: Option<Json>)
        ensures
            r.deep_view() == json_of(text@),
    {
        parse_json(text)
    }

    /// The compact text of the value.
    pub fn to_text(&self) -> (r: String)
        ensures
            r@ == json_text(self.model()),
    {
        write_json(self)
    }

    /// The indented text of the value.
    pub fn to_pretty_text(&self) -> (r: String)
        ensures
            r@ == json_pretty_text(self.model()),
    {
        write_pretty_json(self)
    }
}

/// A member is found by its key, the first one where several have it; a key that no
/// member has finds nothing.
pub proof fn members_are_found_by_key(es: Seq<(Seq<char>, JsonView)>, i: int, key: Seq<char>)
    ensures
        0 <= i < es.len() && (forall|k: int| 0 <= k < i ==> (#[trigger] es[k]).0 != es[i].0)
            ==> lookup(es, es[i].0) == Some(es[i].1),
        (forall|k: int| 0 <= k < es.len() ==> (#[trigger] es[k]).0 != key) ==> lookup(es, key)
            is None,
    decreases es.len(),
{
    if es.len() > 0 {
        let rest = es.skip(1);
        assert forall|k: int| 0 <= k < rest.len() implies (#[trigger] rest[k]) == es[k + 1] by {}
        members_are_found_by_key(rest, i - 1, key);
        if i > 0 && i < es.len() {
            assert(rest[i - 1] == es[i]);
            assert(es[0] == es[0]);
        }
        if forall|k: int| 0 <= k < es.len() ==> (#[trigger] es[k]).0 != key {
            assert(es[0].0 != key);
            assert forall|k: int| 0 <= k < rest.len() implies (#[trigger] rest[k]).0 != key by {
                assert(rest[k] == es[k + 1]);
            }
        }
    }
}

/// Only objects have members, and a member is a text or a truth value only where it is
/// written as one.
pub proof fn members_keep_their_kind(v: JsonView, key: Seq<char>)
    ensures
        v !is Object ==> v.get(key) is None,
        v matches JsonView::Object(es) ==> v.get(key) == lookup(es, key),
        v.str_at(key) matches Some(s) ==> v.get(key) == Some(JsonView::Str(s)),
        v.get(key) matches Some(JsonView::Str(s)) ==> v.str_at(key) == Some(s),
        v.bool_at(key) matches Some(b) ==> v.get(key) == Some(JsonView::Bool(b)),
        v.get(key) matches Some(JsonView::Bool(b)) ==> v.bool_at(key) == Some(b),
        v.get(key) is None ==> v.str_at(key) is None && v.bool_at(key) is None,
{
}

/// The view of a [`Json`] is made of all its parts, each as it is.
pub proof fn json_is_viewed_whole(x: &Json, i: int)
    ensures
        x.deep_view() == x.model(),
        match x {
            Json::Null => x.model() == JsonView::Null,
            Json::Bool(b) => x.model() == JsonView::Bool(*b),
            Json::Unsigned(n) => x.model() == JsonView::Unsigned(*n),
            Json::Negative(n) => x.model() == JsonView::Negative(*n),
            Json::Decimal(s) => x.model() == JsonView::Decimal(s@),
            Json::Str(s) => x.model() == JsonView::Str(s@),
            Json::Array(v) => x.model() matches JsonView::Array(xs) && xs.len() == v@.len() && (0
                <= i < v@.len() ==> xs[i] == v@[i].model()),
            Json::Object(v) => x.model() matches JsonView::Object(es) && es.len() == v@.len() && (0
                <= i < v@.len() ==> es[i] == (v@[i].0@, v@[i].1.model())),
        },
{
}

/// A value is what it is written as, and nothing else.
pub proof fn values_keep_their_kind(v: JsonView)
    ensures
        match v {
            JsonView::Str(s) => v.as_str() == Some(s),
            _ => v.as_str() is None,
        },
        match v {
            JsonView::Bool(b) => v.as_bool() == Some(b),
            _ => v.as_bool() is None,
        },
        match v {
            JsonView::Unsigned(n) => v.as_u64() == Some(n),
            _ => v.as_u64() is None,
        },
        match v {
            JsonView::Array(xs) => v.as_array() == Some(xs),
            _ => v.as_array() is None,
        },
{
}

} // verus!
