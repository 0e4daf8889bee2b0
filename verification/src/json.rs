//! JSON documents as plain values, and their text form.
//!
//! A [`Json`] value is a document that the library builds or inspects. Its
//! text is written and read by `serde_json`: the functions that cross over
//! are the only ones in this module that are not proved.

use crate::text::same_text;
use vstd::prelude::*;

verus! {

/// A member of a JSON object.
#[derive(Debug, PartialEq, Eq)]
pub struct Member {
    pub name: String,
    pub value: Json,
}

/// A JSON document.
#[derive(Debug, PartialEq, Eq)]
pub enum Json {
    Null,
    Bool(bool),
    /// A number that is an unsigned 64-bit integer.
    Number(u64),
    /// Any other number, in the notation in which it was read.
    Decimal(String),
    Text(String),
    List(Vec<Json>),
    Object(Vec<Member>),
}

/// Mathematical value of a [`Json`] document.
pub enum JsonTree {
    Null,
    Bool(bool),
    Number(u64),
    Decimal(Seq<char>),
    Text(Seq<char>),
    List(Seq<JsonTree>),
    Object(Seq<(Seq<char>, JsonTree)>),
}

impl Json {
    /// Mathematical value of the document.
    pub open spec fn tree(&self) -> JsonTree
        decreases self,
    {
        match self {
            Json::Null => JsonTree::Null,
            Json::Bool(b) => JsonTree::Bool(*b),
            Json::Number(n) => JsonTree::Number(*n),
            Json::Decimal(text) => JsonTree::Decimal(text@),
            Json::Text(text) => JsonTree::Text(text@),
            Json::List(items) => JsonTree::List(
                Seq::new(
                    items@.len(),
                    |i: int|
                        if 0 <= i < items@.len() {
                            items@[i].tree()
                        } else {
                            JsonTree::Null
                        },
                ),
            ),
            Json::Object(members) => JsonTree::Object(
                Seq::new(
                    members@.len(),
                    |i: int|
                        if 0 <= i < members@.len() {
                            (members@[i].name@, members@[i].value.tree())
                        } else {
                            (Seq::empty(), JsonTree::Null)
                        },
                ),
            ),
        }
    }
}

impl View for Json {
    type V = JsonTree;

    open spec fn view(&self) -> JsonTree {
        self.tree()
    }
}

/// No two members have the same name.
pub open spec fn distinct_names(members: Seq<(Seq<char>, JsonTree)>) -> bool {
    forall|i: int, j: int|
        0 <= i < j < members.len() ==> (#[trigger] members[i]).0 != (#[trigger] members[j]).0
}

/// The document can be written as it is: every number in it is an unsigned
/// 64-bit integer, and no object in it has two members of one name.
pub open spec fn writable(tree: JsonTree) -> bool
    decreases tree,
{
    match tree {
        JsonTree::Decimal(_) => false,
        JsonTree::List(items) => forall|i: int|
            0 <= i < items.len() ==> writable(#[trigger] items[i]),
        JsonTree::Object(members) => {
            &&& distinct_names(members)
            &&& forall|i: int| 0 <= i < members.len() ==> writable((#[trigger] members[i]).1)
        },
        _ => true,
    }
}

/// The value of the first member named `name` at or after index `from`.
pub open spec fn member_from(
    members: Seq<(Seq<char>, JsonTree)>,
    name: Seq<char>,
    from: int,
) -> Option<JsonTree>
    decreases members.len() - from,
{
    if from < 0 || from >= members.len() {
        None
    } else if members[from].0 == name {
        Some(members[from].1)
    } else {
        member_from(members, name, from + 1)
    }
}

/// The value of the first member named `name`.
pub open spec fn member_of(members: Seq<(Seq<char>, JsonTree)>, name: Seq<char>) -> Option<
    JsonTree,
> {
    member_from(members, name, 0)
}

/// A member named `name` with value `value`.
pub fn member(name: &str, value: Json) -> (member: Member)
    ensures
        member.name@ == name@,
        member.value == value,
{
    Member { name: name.to_owned(), value }
}

/// The value of the first member named `name`.
pub fn lookup<'a>(members: &'a Vec<Member>, name: &str) -> (value: Option<&'a Json>)
    ensures
        match value {
            Some(v) => member_of(Json::Object(*members)@->Object_0, name@) == Some(v@),
            None => member_of(Json::Object(*members)@->Object_0, name@) is None,
        },
{
    let ghost fields = Json::Object(*members)@->Object_0;
    let mut i: usize = 0;
    while i < members.len()
        invariant
            i <= members.len(),
            fields == Json::Object(*members)@->Object_0,
            fields.len() == members@.len(),
            member_of(fields, name@) == member_from(fields, name@, i as int),
        decreases members.len() - i,
    {
        assert(fields[i as int] == (members@[i as int].name@, members@[i as int].value@));
        if same_text(members[i].name.as_str(), name) {
            return Some(&members[i].value);
        }
        i = i + 1;
    }
    None
}

#[verifier::external_type_specification]
#[verifier::external_body]
pub struct ExValue(serde_json::Value);

/// The document that a `serde_json::Value` stands for: `Null`, `Bool`,
/// `String` and `Array` map to the variants of the same meaning, an `Object`
/// to its members in the order in which the value holds them, a `Number`
/// that is a `u64` to `Number` and any other `Number` to `Decimal` with the
/// text that `serde_json` displays it with.
pub uninterp spec fn value_tree(value: serde_json::Value) -> JsonTree;

/// The text that `serde_json::to_string_pretty` writes for a document.
pub uninterp spec fn pretty_text(tree: JsonTree) -> Seq<char>;

/// The document that `serde_json::from_str` reads from a text, `None` where
/// the text is no JSON.
pub uninterp spec fn parsed(text: Seq<char>) -> Option<JsonTree>;

/// Builds the `serde_json::Value` of a document, variant by variant, with
/// the constructors of `serde_json::Value`. The members of an object are
/// collected into a `serde_json::Map`; with the feature `preserve_order`,
/// which this crate asks for, the map keeps them in the order given, as long
/// as their names are distinct. A `Decimal` has no constructor here: the
/// precondition leaves it out.
#[verifier::external_body]
fn to_value(doc: &Json) -> (value: serde_json::Value)
    requires
        writable(doc@),
    ensures
        value_tree(value) == doc@,
{
    match doc {
        Json::Null | Json::Decimal(_) => serde_json::Value::Null,
        Json::Bool(b) => serde_json::Value::Bool(*b),
        Json::Number(n) => serde_json::Value::from(*n),
        Json::Text(text) => serde_json::Value::from(text.as_str()),
        Json::List(items) => serde_json::Value::Array(items.iter().map(to_value).collect()),
        Json::Object(members) => serde_json::Value::Object(
            members.iter().map(|m| (m.name.clone(), to_value(&m.value))).collect(),
        ),
    }
}

/// Reads a `serde_json::Value` into a document, variant by variant.
#[verifier::external_body]
fn from_value(value: &serde_json::Value) -> (doc: Json)
    ensures
        doc@ == value_tree(*value),
{
    match value {
        serde_json::Value::Null => Json::Null,
        serde_json::Value::Bool(b) => Json::Bool(*b),
        serde_json::Value::Number(n) => n.as_u64().map_or_else(
            || Json::Decimal(n.to_string()),
            Json::Number,
        ),
        serde_json::Value::String(text) => Json::Text(text.clone()),
        serde_json::Value::Array(items) => Json::List(items.iter().map(from_value).collect()),
        serde_json::Value::Object(map) => Json::Object(
            map.iter().map(|(k, v)| Member { name: k.clone(), value: from_value(v) }).collect(),
        ),
    }
}

/// Writes a value with `serde_json::to_string_pretty`. The text is the one
/// that the name [`pretty_text`] stands for.
#[verifier::external_body]
fn pretty(value: &serde_json::Value) -> (text: String)
    ensures
        text@ == pretty_text(value_tree(*value)),
{
    serde_json::to_string_pretty(value).unwrap_or_default()
}

/// Reads a text with `serde_json::from_str`. The value is the one that the
/// name [`parsed`] stands for; there is none where `serde_json` reports an
/// error.
#[verifier::external_body]
fn parse_value(text: &str) -> (value: Option<serde_json::Value>)
    ensures
        match value {
            Some(v) => parsed(text@) == Some(value_tree(v)),
            None => parsed(text@) is None,
        },
{
    serde_json::from_str::<serde_json::Value>(text).ok()
}

/// The text of a document, indented for reading.
pub fn render_pretty(doc: &Json) -> (text: String)
    requires
        writable(doc@),
    ensures
        text@ == pretty_text(doc@),
{
    let value = to_value(doc);
    pretty(&value)
}

/// The document that a text holds, `None` where the text is no JSON.
pub fn parse_document(text: &str) -> (doc: Option<Json>)
    ensures
        match doc {
            Some(d) => parsed(text@) == Some(d@),
            None => parsed(text@) is None,
        },
{
    match parse_value(text) {
        Some(value) => Some(from_value(&value)),
        None => None,
    }
}

} // verus!
