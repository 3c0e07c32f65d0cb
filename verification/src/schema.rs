//! Building blocks of tool input schemas.

use crate::json::{
    entry_models, jarr, jobj, jstr, members_are_found_by_key, models, Json, JsonView,
};
use crate::text::str_refs;
use vstd::prelude::*;

verus! {

pub open spec fn str_models(names: Seq<Seq<char>>) -> Seq<JsonView> {
    Seq::new(names.len(), |i: int| JsonView::Str(names[i]))
}

/// A list of strings.
pub fn str_list(names: &[&str]) -> (r: Json)
    ensures
        r.model() == JsonView::Array(str_models(str_refs(names@))),
{
    let mut out: Vec<Json> = Vec::new();
    for i in 0..names.len()
        invariant
            models(out@) == str_models(str_refs(names@)).take(i as int),
    {
        let ghost before = models(out@);
        out.push(jstr(names[i]));
        assert(models(out@) =~= before.push(JsonView::Str(names@[i as int]@)));
        assert(models(out@) =~= str_models(str_refs(names@)).take(i + 1));
    }
    assert(models(out@) =~= str_models(str_refs(names@)));
    jarr(out)
}

/// The schema of a value of a plain type.
pub open spec fn typed(kind: Seq<char>, description: Seq<char>) -> JsonView {
    JsonView::Object(
        seq![
            ("type"@, JsonView::Str(kind)),
            ("description"@, JsonView::Str(description)),
        ],
    )
}

pub fn typed_schema(kind: &str, description: &str) -> (r: Json)
    ensures
        r.model() == typed(kind@, description@),
{
    let mut es: Vec<(String, Json)> = Vec::new();
    es.push(("type".to_owned(), jstr(kind)));
    es.push(("description".to_owned(), jstr(description)));
    assert(entry_models(es@) =~= typed(kind@, description@)->Object_0);
    jobj(es)
}

/// The schema of an object.
pub open spec fn object_of(
    properties: Seq<(Seq<char>, JsonView)>,
    required: Seq<Seq<char>>,
) -> JsonView {
    JsonView::Object(
        seq![
            ("type"@, JsonView::Str("object"@)),
            ("properties"@, JsonView::Object(properties)),
            ("required"@, JsonView::Array(str_models(required))),
        ],
    )
}

pub fn object_schema(properties: Vec<(String, Json)>, required: &[&str]) -> (r: Json)
    ensures
        r.model() == object_of(entry_models(properties@), str_refs(required@)),
{
    let ghost props = entry_models(properties@);
    let mut es: Vec<(String, Json)> = Vec::new();
    es.push(("type".to_owned(), jstr("object")));
    es.push(("properties".to_owned(), jobj(properties)));
    es.push(("required".to_owned(), str_list(required)));
    assert(entry_models(es@) =~= object_of(props, str_refs(required@))->Object_0);
    jobj(es)
}

/// The schema of a list of `min` to `max` items.
pub open spec fn array_of(
    description: Seq<char>,
    min: u64,
    max: u64,
    items: JsonView,
) -> JsonView {
    JsonView::Object(
        seq![
            ("type"@, JsonView::Str("array"@)),
            ("description"@, JsonView::Str(description)),
            ("minItems"@, JsonView::Unsigned(min)),
            ("maxItems"@, JsonView::Unsigned(max)),
            ("items"@, items),
        ],
    )
}

pub fn array_schema(description: &str, min: u64, max: u64, items: Json) -> (r: Json)
    ensures
        r.model() == array_of(description@, min, max, items.model()),
{
    let mut es: Vec<(String, Json)> = Vec::new();
    es.push(("type".to_owned(), jstr("array")));
    es.push(("description".to_owned(), jstr(description)));
    es.push(("minItems".to_owned(), Json::Unsigned(min)));
    es.push(("maxItems".to_owned(), Json::Unsigned(max)));
    es.push(("items".to_owned(), items));
    assert(entry_models(es@) =~= array_of(description@, min, max, items.model())->Object_0);
    jobj(es)
}

/// A schema says what it describes: the type and the description of a value, the
/// properties of an object and which of them are required, and the bounds and the items
/// of a list.
pub proof fn schemas_say_what_they_describe(
    kind: Seq<char>,
    description: Seq<char>,
    properties: Seq<(Seq<char>, JsonView)>,
    required: Seq<Seq<char>>,
    min: u64,
    max: u64,
    items: JsonView,
    i: int,
)
    ensures
        typed(kind, description).str_at("type"@) == Some(kind),
        typed(kind, description).str_at("description"@) == Some(description),
        object_of(properties, required).str_at("type"@) == Some("object"@),
        object_of(properties, required).get("properties"@) == Some(JsonView::Object(properties)),
        object_of(properties, required).get("required"@) matches Some(JsonView::Array(names))
            && names.len() == required.len() && (0 <= i < required.len() ==> names[i]
            == JsonView::Str(required[i])),
        array_of(description, min, max, items).str_at("type"@) == Some("array"@),
        array_of(description, min, max, items).str_at("description"@) == Some(description),
        array_of(description, min, max, items).get("minItems"@) == Some(JsonView::Unsigned(min)),
        array_of(description, min, max, items).get("maxItems"@) == Some(JsonView::Unsigned(max)),
        array_of(description, min, max, items).get("items"@) == Some(items),
{
    reveal_strlit("type");
    reveal_strlit("description");
    reveal_strlit("properties");
    reveal_strlit("required");
    reveal_strlit("minItems");
    reveal_strlit("maxItems");
    reveal_strlit("items");
    assert("type"@.len() == 4 && "description"@.len() == 11 && "properties"@.len() == 10
        && "required"@.len() == 8 && "minItems"@.len() == 8 && "maxItems"@.len() == 8
        && "items"@.len() == 5);
    assert("minItems"@[1] != "maxItems"@[1]);
    let one = typed(kind, description)->Object_0;
    members_are_found_by_key(one, 0, kind);
    members_are_found_by_key(one, 1, kind);
    let two = object_of(properties, required)->Object_0;
    members_are_found_by_key(two, 0, kind);
    members_are_found_by_key(two, 1, kind);
    members_are_found_by_key(two, 2, kind);
    let three = array_of(description, min, max, items)->Object_0;
    members_are_found_by_key(three, 0, kind);
    members_are_found_by_key(three, 1, kind);
    members_are_found_by_key(three, 2, kind);
    members_are_found_by_key(three, 3, kind);
    members_are_found_by_key(three, 4, kind);
}

} // verus!
