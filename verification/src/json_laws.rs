//! Laws of documents: what their members and values are, and how the executable values stand
//! for them.

use vstd::prelude::*;

use crate::json::{documents, view_of, Json, JsonNumber, Number, Value};

verus! {

/// A member of an object is what the object holds under its key.
pub proof fn lemma_member_is_what_is_held(members: Map<Seq<char>, Json>, key: Seq<char>)
    ensures
        members.dom().contains(key) ==> Json::Object(members).member(key) == Some(members[key])
            && Json::Object(members).member_or_null(key) == members[key],
        !members.dom().contains(key) ==> Json::Object(members).member(key) is None
            && Json::Object(members).member_or_null(key) == Json::Null,
{
}

/// Only objects have members.
pub proof fn lemma_only_objects_have_members(document: Json, key: Seq<char>)
    requires
        !(document is Object),
    ensures
        document.member(key) is None,
        document.member_or_null(key) == Json::Null,
        document.member_text(key) is None,
        document.member_elements(key) is None,
{
}

/// The text of a member is there exactly where the member is a string, and its elements
/// exactly where it is an array.
pub proof fn lemma_member_by_kind(members: Map<Seq<char>, Json>, key: Seq<char>)
    ensures
        forall|text: Seq<char>|
            Json::Object(members).member_text(key) == Some(text) <==> #[trigger] members.contains_pair(
                key,
                Json::String(text),
            ),
        forall|elements: Seq<Json>|
            Json::Object(members).member_elements(key) == Some(elements)
                <==> #[trigger] members.contains_pair(key, Json::Array(elements)),
{
}

/// A value is read as what it is, and as nothing else.
pub proof fn lemma_value_by_kind(text: Seq<char>, elements: Seq<Json>, n: u64, document: Json)
    ensures
        Json::String(text).text() == Some(text),
        document.text() is Some <==> document is String,
        Json::Array(elements).elements() == Some(elements),
        document.elements() is Some <==> document is Array,
        Json::Number(JsonNumber::PosInt(n)).unsigned() == Some(n),
        document.unsigned() is Some <==> document is Number && document->Number_0 is PosInt,
{
}

/// Numbers, lists and options stand for what they hold.
pub proof fn lemma_views_hold(
    positive: u64,
    negative: i64,
    values: Seq<Value>,
    value: Option<Value>,
    text: Option<&str>,
)
    ensures
        Number::PosInt(positive)@ == JsonNumber::PosInt(positive),
        Number::NegInt(negative)@ == JsonNumber::NegInt(negative),
        documents(values).len() == values.len(),
        forall|i: int| 0 <= i < values.len() ==> #[trigger] documents(values)[i] == values[i]@,
        view_of(value) is Some <==> value is Some,
        value is Some ==> view_of(value)->Some_0 == value->Some_0@,
        view_of(text) is Some <==> text is Some,
        text is Some ==> view_of(text)->Some_0 == text->Some_0@,
{
}

} // verus!
