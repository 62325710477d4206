//! JSON documents as a tree of plain values, and how a text becomes one.

use serde_json::{Number, Value};
use vstd::prelude::*;

use crate::decimal::{text_units, Decimal};

verus! {

/// `serde_json::Value`: a parsed document, carried as it is.
#[verifier::external_type_specification]
#[verifier::external_body]
pub struct ExValue(serde_json::Value);

/// `serde_json::Error`: why a text was refused, carried as it is.
#[verifier::external_type_specification]
#[verifier::external_body]
pub struct ExError(serde_json::Error);

/// A JSON document. A number is kept as text, with the digits that the
/// document writes, so that reading its value is left to one routine, common
/// to numbers and to strings that hold a number.
#[derive(Debug, PartialEq)]
pub enum Json {
    Null,
    Bool(bool),
    Number(String),
    Text(String),
    Array(Vec<Json>),
    /// The members of an object, each with its key.
    Object(Vec<(String, Json)>),
}

/// The tree that a parsed document holds.
pub uninterp spec fn value_tree(value: Value) -> Json;

/// The document that a text is parsed to, where it is well-formed JSON.
pub uninterp spec fn parsed_json(text: Seq<char>) -> Option<Json>;

/// `serde_json::from_str`, at type `Value`: parses a text as one JSON
/// document. The outcome depends on the text alone: the same text has the
/// same tree, or is refused, every time. With the crate's
/// `arbitrary_precision` feature an object whose only key is the crate's
/// private number key comes out as a number; nothing here says otherwise.
#[verifier::external_body]
fn read_value(text: &str) -> (outcome: Result<Value, serde_json::Error>)
    ensures
        match outcome {
            Ok(value) => parsed_json(text@) == Some(value_tree(value)),
            Err(_) => parsed_json(text@) is None,
        },
{
    serde_json::from_str::<Value>(text)
}

/// Copies a `serde_json::Value` into a `Json`, variant by variant. A number
/// goes through `to_string` of `serde_json::Number`, which with the crate's
/// `arbitrary_precision` feature gives the text that the parser kept: the
/// digits as the document writes them, with `e` for the mark of an exponent
/// and a sign before its digits, also where the document writes none. The
/// members of an object come in the order in which the map hands them out.
#[verifier::external_body]
fn tree_of(value: &Value) -> (tree: Json)
    ensures
        tree == value_tree(*value),
{
    match value {
        Value::Null => Json::Null,
        Value::Bool(flag) => Json::Bool(*flag),
        Value::Number(number) => Json::Number(number.to_string()),
        Value::String(text) => Json::Text(text.clone()),
        Value::Array(items) => Json::Array(items.iter().map(tree_of).collect()),
        Value::Object(members) => Json::Object(
            members.iter().map(|(key, item)| (key.clone(), tree_of(item))).collect(),
        ),
    }
}

/// The `serde_json::Value` that stands for a tree, where there is one.
pub uninterp spec fn tree_document(tree: Json) -> Option<Value>;

/// The text that a `serde_json::Value` is printed as.
pub uninterp spec fn pretty_text(document: Value) -> Option<Seq<char>>;

/// Copies a `Json` into a `serde_json::Value`, variant by variant. A number
/// goes through `from_str` of `serde_json::Number`, which takes the text of a
/// JSON number and no other; the members of an object are collected into a
/// `serde_json::Map`. The outcome depends on the tree alone.
#[verifier::external_body]
fn document_of(tree: &Json) -> (document: Option<Value>)
    ensures
        document == tree_document(*tree),
{
    match tree {
        Json::Null => Some(Value::Null),
        Json::Bool(flag) => Some(Value::Bool(*flag)),
        Json::Number(text) => text.parse::<Number>().ok().map(Value::Number),
        Json::Text(text) => Some(Value::String(text.clone())),
        Json::Array(items) => items.iter().map(document_of).collect::<Option<Vec<_>>>().map(
            Value::Array,
        ),
        Json::Object(members) => members.iter().map(
            |(key, item)| document_of(item).map(|value| (key.clone(), value)),
        ).collect::<Option<serde_json::Map<_, _>>>().map(Value::Object),
    }
}

/// `serde_json::to_string_pretty`: the document as indented text. The text
/// depends on the document alone.
#[verifier::external_body]
fn print_document(document: &Value) -> (text: Option<String>)
    ensures
        match text {
            Some(printed) => pretty_text(*document) == Some(printed@),
            None => pretty_text(*document) is None,
        },
{
    serde_json::to_string_pretty(document).ok()
}

/// The text that a tree is written as, where it can be written.
pub open spec fn rendered(tree: Json) -> Option<Seq<char>> {
    match tree_document(tree) {
        Some(document) => pretty_text(document),
        None => None,
    }
}

/// The first member at or after index `from` whose key is `key`.
pub open spec fn member_from(members: Seq<(String, Json)>, key: Seq<char>, from: int) -> Option<
    Json,
>
    decreases members.len() - from,
{
    if from < 0 || from >= members.len() {
        None
    } else if members[from].0@ == key {
        Some(members[from].1)
    } else {
        member_from(members, key, from + 1)
    }
}

/// The member at index `at` is the one found under its key where no member
/// before it has that key.
pub proof fn lemma_member_found(members: Seq<(String, Json)>, key: Seq<char>, at: int, from: int)
    requires
        0 <= from <= at < members.len(),
        members[at].0@ == key,
        forall|i: int| from <= i < at ==> (#[trigger] members[i]).0@ != key,
    ensures
        member_from(members, key, from) == Some(members[at].1),
    decreases at - from,
{
    if from < at {
        lemma_member_found(members, key, at, from + 1);
    }
}

impl Json {
    /// The member of an object under `key`; nothing has a member but an
    /// object.
    pub open spec fn field(self, key: Seq<char>) -> Option<Json> {
        match self {
            Json::Object(members) => member_from(members@, key, 0),
            _ => None,
        }
    }

    /// The text in which a leaf may write a number: that of a number, or the
    /// contents of a string. No other value writes one.
    pub open spec fn leaf_text(self) -> Option<Seq<char>> {
        match self {
            Json::Number(text) => Some(text@),
            Json::Text(text) => Some(text@),
            _ => None,
        }
    }

    /// The units of the number that a leaf holds, read from its text.
    pub open spec fn numeric_units(self) -> Option<int> {
        match self.leaf_text() {
            Some(text) => text_units(text),
            None => None,
        }
    }

    /// The units of the number under `key` in an object.
    pub open spec fn units_at(self, key: Seq<char>) -> Option<int> {
        match self.field(key) {
            Some(leaf) => leaf.numeric_units(),
            None => None,
        }
    }

    /// The contents of the string under `key` in an object.
    pub open spec fn text_at(self, key: Seq<char>) -> Option<Seq<char>> {
        match self.field(key) {
            Some(Json::Text(text)) => Some(text@),
            _ => None,
        }
    }

    /// Parses a text as one JSON document.
    pub fn parse(text: &str) -> (document: Option<Json>)
        ensures
            document == parsed_json(text@),
    {
        match read_value(text) {
            Ok(value) => Some(tree_of(&value)),
            Err(_) => None,
        }
    }

    /// Looks a member of an object up by its key.
    pub fn member(&self, key: &str) -> (found: Option<&Json>)
        ensures
            match found {
                Some(item) => self.field(key@) == Some(*item),
                None => self.field(key@) is None,
            },
    {
        match self {
            Json::Object(members) => {
                let wanted = key.to_owned();
                let mut at: usize = 0;
                while at < members.len()
                    invariant
                        at <= members.len(),
                        wanted@ == key@,
                        self.field(key@) == member_from(members@, key@, at as int),
                    decreases members.len() - at,
                {
                    if members[at].0 == wanted {
                        return Some(&members[at].1);
                    }
                    at = at + 1;
                }
                None
            },
            _ => None,
        }
    }

    /// Writes the tree as indented JSON text. A tree with a number whose text
    /// is no JSON number is not written.
    pub fn render(&self) -> (text: Option<String>)
        ensures
            match text {
                Some(printed) => rendered(*self) == Some(printed@),
                None => rendered(*self) is None,
            },
    {
        match document_of(self) {
            Some(document) => print_document(&document),
            None => None,
        }
    }

    /// Reads the number under `key` in an object.
    pub fn decimal_at(&self, key: &str) -> (number: Option<Decimal>)
        ensures
            match number {
                Some(d) => self.units_at(key@) == Some(d@),
                None => self.units_at(key@) is None,
            },
    {
        match self.member(key) {
            Some(leaf) => leaf.to_decimal(),
            None => None,
        }
    }

    /// Reads the string under `key` in an object.
    pub fn string_at(&self, key: &str) -> (text: Option<&String>)
        ensures
            match text {
                Some(found) => self.text_at(key@) == Some(found@),
                None => self.text_at(key@) is None,
            },
    {
        match self.member(key) {
            Some(Json::Text(text)) => Some(text),
            _ => None,
        }
    }

    /// Reads the number that a leaf holds. A JSON number and a string are
    /// both read from their text by `Decimal::parse`; no other value is a
    /// number.
    pub fn to_decimal(&self) -> (number: Option<Decimal>)
        ensures
            match number {
                Some(d) => self.numeric_units() == Some(d@),
                None => self.numeric_units() is None,
            },
    {
        match self {
            Json::Number(text) => Decimal::parse(text.as_str()),
            Json::Text(text) => Decimal::parse(text.as_str()),
            _ => None,
        }
    }
}

/// A number reads the same whether the document holds it as a number or as a
/// string of the same text.
pub proof fn lemma_number_and_string_agree(number: String, string: String)
    requires
        number@ == string@,
    ensures
        Json::Number(number).numeric_units() == Json::Text(string).numeric_units(),
{
}

} // verus!
