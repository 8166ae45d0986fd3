//! What is read of JSON values, and how they are built, with `serde_json`.

use vstd::prelude::*;

verus! {

/// A JSON value of `serde_json`.
#[verifier::external_type_specification]
#[verifier::external_body]
pub struct ExValue(serde_json::Value);

/// What an object holds: its members, in the order in which its map is
/// walked. Nothing, where the value is not an object.
pub uninterp spec fn json_members(value: serde_json::Value) -> Option<
    Seq<(Seq<char>, serde_json::Value)>,
>;

/// What an array holds. Nothing, where the value is not an array.
pub uninterp spec fn json_items(value: serde_json::Value) -> Option<Seq<serde_json::Value>>;

/// The text of a string. Nothing, where the value is not a string.
pub uninterp spec fn json_text(value: serde_json::Value) -> Option<Seq<char>>;

/// Whether the value is `null`.
pub uninterp spec fn json_is_null(value: serde_json::Value) -> bool;

/// No two members have the same name.
pub open spec fn distinct_names(members: Seq<(Seq<char>, serde_json::Value)>) -> bool {
    forall|i: int, j: int|
        #![trigger members[i], members[j]]
        0 <= i < j < members.len() ==> members[i].0 != members[j].0
}

/// The members of an object, as the contracts speak of them.
pub open spec fn member_models(members: Seq<(String, serde_json::Value)>) -> Seq<
    (Seq<char>, serde_json::Value),
> {
    members.map_values(|member: (String, serde_json::Value)| (member.0@, member.1))
}

/// `serde_json::Value::as_str` gives the text of a string, and nothing for any
/// other value.
pub assume_specification[ serde_json::Value::as_str ](value: &serde_json::Value) -> (r: Option<
    &str,
>)
    ensures
        r is Some == json_text(*value) is Some,
        r matches Some(text) ==> text@ == json_text(*value)->0,
;

/// `serde_json::Value::is_null` tells `null` from every other value.
pub assume_specification[ serde_json::Value::is_null ](value: &serde_json::Value) -> (r: bool)
    ensures
        r == json_is_null(*value),
;

/// `serde_json::Value::as_object` gives the map of an object, and nothing for
/// any other value; `serde_json::Map::values` walks the values of that map.
#[verifier::external_body]
pub(crate) fn json_member_values(value: &serde_json::Value) -> (r: Option<Vec<&serde_json::Value>>)
    ensures
        r is Some == json_members(*value) is Some,
        r matches Some(values) ==> {
            &&& values@.len() == json_members(*value)->0.len()
            &&& forall|i: int|
                0 <= i < values@.len() ==> *#[trigger] values@[i] == json_members(*value)->0[i].1
        },
{
    value.as_object().map(|map| map.values().collect())
}

/// The map in a `serde_json::Value::Object` is walked by value; its keys are
/// distinct. Every other value has none.
#[verifier::external_body]
pub(crate) fn json_into_members(value: serde_json::Value) -> (r: Option<
    Vec<(String, serde_json::Value)>,
>)
    ensures
        r is Some == json_members(value) is Some,
        r matches Some(members) ==> {
            &&& member_models(members@) == json_members(value)->0
            &&& distinct_names(member_models(members@))
        },
{
    match value {
        serde_json::Value::Object(map) => Some(map.into_iter().collect()),
        _ => None,
    }
}

/// A `serde_json::Value::String` holds the text that it is made of.
#[verifier::external_body]
pub(crate) fn json_string(text: String) -> (r: serde_json::Value)
    ensures
        json_text(r) == Some(text@),
        json_members(r) is None,
        json_items(r) is None,
        !json_is_null(r),
{
    serde_json::Value::String(text)
}

/// A `serde_json::Value::Array` holds the values that it is made of.
#[verifier::external_body]
pub(crate) fn json_array(items: Vec<serde_json::Value>) -> (r: serde_json::Value)
    ensures
        json_items(r) == Some(items@),
        json_members(r) is None,
        json_text(r) is None,
        !json_is_null(r),
{
    serde_json::Value::Array(items)
}

/// A `serde_json::Value::Object` over a map that was collected from members
/// with distinct names holds these members, in this order: with the feature
/// `preserve_order` the map keeps the order in which keys were first inserted.
#[verifier::external_body]
pub(crate) fn json_object(members: Vec<(String, serde_json::Value)>) -> (r: serde_json::Value)
    requires
        distinct_names(member_models(members@)),
    ensures
        json_members(r) == Some(member_models(members@)),
        json_items(r) is None,
        json_text(r) is None,
        !json_is_null(r),
{
    serde_json::Value::Object(members.into_iter().collect())
}

/// The text of an object's only member, where that is a string.
pub open spec fn only_text(value: serde_json::Value) -> Option<Seq<char>> {
    match json_members(value) {
        Some(members) => if members.len() == 1 {
            json_text(members[0].1)
        } else {
            None
        },
        None => None,
    }
}

/// The text of an object's only member, where that is a string.
pub fn single_string_arg(input: &serde_json::Value) -> (r: Option<&str>)
    ensures
        r is Some == only_text(*input) is Some,
        r matches Some(text) ==> text@ == only_text(*input)->0,
{
    let values = match json_member_values(input) {
        Some(values) => values,
        None => {
            return None;
        },
    };
    if values.len() != 1 {
        return None;
    }
    values[0].as_str()
}

/// Whether a value is the schema of an object without properties.
pub open spec fn is_empty_object_schema(value: serde_json::Value) -> bool {
    &&& json_members(value) is Some
    &&& json_members(value)->0.len() == 2
    &&& json_members(value)->0[0].0 == "type"@
    &&& json_text(json_members(value)->0[0].1) == Some("object"@)
    &&& json_members(value)->0[1].0 == "properties"@
    &&& json_items(json_members(value)->0[1].1) == Some(Seq::<serde_json::Value>::empty())
}

/// Whether a value says nothing as a schema: `null`, or an object without
/// members.
pub open spec fn is_blank_schema(value: serde_json::Value) -> bool {
    json_is_null(value) || json_members(value) == Some(
        Seq::<(Seq<char>, serde_json::Value)>::empty(),
    )
}

/// The schema of an object without properties.
fn empty_object_schema() -> (r: serde_json::Value)
    ensures
        is_empty_object_schema(r),
{
    let mut members: Vec<(String, serde_json::Value)> = Vec::new();
    members.push(("type".to_owned(), json_string("object".to_owned())));
    members.push(("properties".to_owned(), json_array(Vec::new())));
    proof {
        reveal_strlit("type");
        reveal_strlit("properties");
        assert("type"@.len() != "properties"@.len());
        assert(member_models(members@)[0].0 == "type"@);
        assert(member_models(members@)[1].0 == "properties"@);
    }
    json_object(members)
}

/// A schema as a language model can take it: one that says nothing is replaced
/// by that of an object without properties, any other is kept.
pub fn complete_schema(schema: serde_json::Value) -> (r: serde_json::Value)
    ensures
        is_blank_schema(schema) ==> is_empty_object_schema(r),
        !is_blank_schema(schema) ==> r == schema,
{
    if schema.is_null() {
        return empty_object_schema();
    }
    let blank = match json_member_values(&schema) {
        Some(values) => values.len() == 0,
        None => false,
    };
    if blank {
        assert(json_members(schema)->0 =~= Seq::<(Seq<char>, serde_json::Value)>::empty());
        empty_object_schema()
    } else {
        schema
    }
}

/// The text of an input is that of its only member: there is none where the
/// input is no object, or has no member or more than one, or where its member
/// is no text.
pub proof fn only_member_is_the_text(value: serde_json::Value, name: Seq<char>, member: serde_json::Value)
    ensures
        json_members(value) is None ==> only_text(value) is None,
        json_members(value) is Some && json_members(value)->0.len() != 1 ==> only_text(
            value,
        ) is None,
        json_members(value) == Some(seq![(name, member)]) ==> only_text(value) == json_text(member),
{
}

/// A schema says nothing exactly where it is `null`, or an object without
/// members.
pub proof fn blank_schemas_are_null_or_empty(value: serde_json::Value)
    ensures
        json_is_null(value) ==> is_blank_schema(value),
        json_members(value) matches Some(members) ==> members.len() == 0 ==> is_blank_schema(value),
        !json_is_null(value) && json_members(value) is None ==> !is_blank_schema(value),
        !json_is_null(value) && json_members(value) is Some && json_members(value)->0.len() > 0
            ==> !is_blank_schema(value),
{
    if let Some(members) = json_members(value) {
        if members.len() == 0 {
            assert(members =~= Seq::<(Seq<char>, serde_json::Value)>::empty());
        }
    }
}

/// The schema that stands in for one that says nothing has two members: its
/// type, which is that of an object, and its properties, of which there are
/// none.
pub proof fn empty_object_schema_has_two_members(value: serde_json::Value)
    requires
        is_empty_object_schema(value),
    ensures
        json_members(value) matches Some(members) && {
            &&& members.len() == 2
            &&& members[0].0 == "type"@
            &&& json_text(members[0].1) == Some("object"@)
            &&& members[1].0 == "properties"@
            &&& json_items(members[1].1) matches Some(items) && items.len() == 0
        },
{
}

/// The members of an object are taken one for one, each with its name and its
/// value. Names are distinct where none occurs in two places.
pub proof fn members_are_taken_one_for_one(
    members: Seq<(String, serde_json::Value)>,
    i: int,
    j: int,
)
    ensures
        member_models(members).len() == members.len(),
        0 <= i < members.len() ==> {
            &&& member_models(members)[i].0 == members[i].0@
            &&& member_models(members)[i].1 == members[i].1
        },
        distinct_names(member_models(members)) && 0 <= i < j < members.len() ==> members[i].0@
            != members[j].0@,
        members.len() <= 1 ==> distinct_names(member_models(members)),
{
    if distinct_names(member_models(members)) && 0 <= i < j < members.len() {
        assert(member_models(members)[i].0 != member_models(members)[j].0);
    }
}

} // verus!
