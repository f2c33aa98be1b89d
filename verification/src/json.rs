//! JSON documents as trees of plain values. Reading and writing the text is
//! `serde_json`'s work; this module gives the trees it reads and writes.

use vstd::prelude::*;

verus! {

/// A JSON value.
#[derive(Debug)]
pub enum Json {
    Null,
    Bool(bool),
    /// A number: `Some` for a non-negative integer below 2^64, `None` for
    /// every other number.
    Number(Option<u64>),
    Text(String),
    List(Vec<Json>),
    /// The members of an object, each with its name.
    Table(Vec<(String, Json)>),
}

/// The mathematical value of a `Json`.
pub enum JsonTree {
    Null,
    Bool(bool),
    Number(Option<u64>),
    Text(Seq<char>),
    List(Seq<JsonTree>),
    Table(Seq<(Seq<char>, JsonTree)>),
}

/// The value of a tree: each string by its characters, each list by its
/// items' values.
pub open spec fn tree_of(tree: Json) -> JsonTree
    decreases tree,
{
    match tree {
        Json::Null => JsonTree::Null,
        Json::Bool(b) => JsonTree::Bool(b),
        Json::Number(n) => JsonTree::Number(n),
        Json::Text(s) => JsonTree::Text(s@),
        Json::List(items) => JsonTree::List(
            Seq::new(
                items@.len(),
                |i: int|
                    if 0 <= i < items@.len() {
                        tree_of(items@[i])
                    } else {
                        JsonTree::Null
                    },
            ),
        ),
        Json::Table(members) => JsonTree::Table(
            Seq::new(
                members@.len(),
                |i: int|
                    if 0 <= i < members@.len() {
                        (members@[i].0@, tree_of(members@[i].1))
                    } else {
                        (Seq::empty(), JsonTree::Null)
                    },
            ),
        ),
    }
}

impl View for Json {
    type V = JsonTree;

    open spec fn view(&self) -> JsonTree {
        tree_of(*self)
    }
}

impl JsonTree {
    /// Whether the tree can be written as it stands: every number in it is
    /// one that `Json` holds as `Some`, and no object in it has more than one
    /// member (the writer keeps the members of an object by name, so it
    /// would reorder them and drop a repeated name).
    pub open spec fn writable(self) -> bool
        decreases self,
    {
        match self {
            JsonTree::Number(n) => n.is_some(),
            JsonTree::List(items) => forall|i: int|
                0 <= i < items.len() ==> (#[trigger] items[i]).writable(),
            JsonTree::Table(members) => members.len() <= 1 && forall|i: int|
                0 <= i < members.len() ==> (#[trigger] members[i]).1.writable(),
            _ => true,
        }
    }
}

impl Json {
    /// The values of a list's items.
    pub open spec fn items_view(items: Seq<Json>) -> Seq<JsonTree> {
        Seq::new(items.len(), |i: int| items[i]@)
    }

    /// The names and values of an object's members.
    pub open spec fn members_view(members: Seq<(String, Json)>) -> Seq<(Seq<char>, JsonTree)> {
        Seq::new(members.len(), |i: int| (members[i].0@, members[i].1@))
    }
}

/// The value of a list is the list of its items' values.
pub proof fn lemma_list_view(items: Vec<Json>)
    ensures
        Json::List(items)@ == JsonTree::List(Json::items_view(items@)),
{
    let tree = Json::List(items);
    let value = tree@;
    let trees = value->List_0;
    assert(trees =~= Json::items_view(items@));
}

/// The value of an object is the list of its members' names and values.
pub proof fn lemma_table_view(members: Vec<(String, Json)>)
    ensures
        Json::Table(members)@ == JsonTree::Table(Json::members_view(members@)),
{
    let tree = Json::Table(members);
    let value = tree@;
    let trees = value->Table_0;
    assert(trees =~= Json::members_view(members@));
}

/// `serde_json::Value`, of which nothing is seen here but through
/// `value_tree`.
#[verifier::external_type_specification]
#[verifier::external_body]
pub struct ExValue(serde_json::Value);

/// `serde_json::Error`, of which nothing is seen here.
#[verifier::external_type_specification]
#[verifier::external_body]
pub struct ExError(serde_json::Error);

/// The tree that a `serde_json::Value` holds: the one that taking it apart
/// variant by variant gives.
pub uninterp spec fn value_tree(value: serde_json::Value) -> JsonTree;

/// The tree of the value that `serde_json::from_slice` reads from a text,
/// where it reads one.
pub uninterp spec fn json_document(bytes: Seq<u8>) -> Option<JsonTree>;

/// The compact text that `serde_json::to_string` writes for the value of
/// a writable tree.
pub uninterp spec fn json_text(tree: JsonTree) -> Seq<char>;

/// `serde_json::from_slice` at `serde_json::Value`: the value the text holds,
/// or the error where the text is no JSON document.
#[verifier::external_body]
fn parse_value(bytes: &[u8]) -> (out: Result<serde_json::Value, serde_json::Error>)
    ensures
        match out {
            Ok(value) => json_document(bytes@) == Some(value_tree(value)),
            Err(_) => json_document(bytes@).is_none(),
        },
{
    serde_json::from_slice::<serde_json::Value>(bytes)
}

/// `serde_json::to_string` on a `serde_json::Value`. It fails only where a
/// `Serialize` impl fails or a map has a key that is no string, and a
/// `Value` has neither. Only a value whose tree is writable is let in: a
/// tree tells apart no two of the numbers that it holds as `None`, so of
/// such a number the text is not the tree's.
#[verifier::external_body]
fn print_value(value: &serde_json::Value) -> (out: String)
    requires
        value_tree(*value).writable(),
    ensures
        out@ == json_text(value_tree(*value)),
{
    serde_json::to_string(value).unwrap()
}

/// Takes a `serde_json::Value` apart, variant by variant, down to its
/// leaves. A number is kept as what `Number::as_u64` gives, an object's
/// members in the order in which its map hands them out.
#[verifier::external_body]
fn tree_of_value(value: serde_json::Value) -> (out: Json)
    ensures
        out@ == value_tree(value),
{
    match value {
        serde_json::Value::Null => Json::Null,
        serde_json::Value::Bool(b) => Json::Bool(b),
        serde_json::Value::Number(n) => Json::Number(n.as_u64()),
        serde_json::Value::String(s) => Json::Text(s),
        serde_json::Value::Array(items) => Json::List(
            items.into_iter().map(tree_of_value).collect(),
        ),
        serde_json::Value::Object(members) => Json::Table(
            members.into_iter().map(|(name, v)| (name, tree_of_value(v))).collect(),
        ),
    }
}

/// Builds the `serde_json::Value` of a tree, variant by variant, down to
/// its leaves. A number goes through `Value::from`, an object's members are
/// collected into the value's map; of a writable tree, taking the value
/// apart again gives the tree.
#[verifier::external_body]
fn value_of_tree(tree: &Json) -> (out: serde_json::Value)
    requires
        tree@.writable(),
    ensures
        value_tree(out) == tree@,
{
    match tree {
        Json::Null => serde_json::Value::Null,
        Json::Bool(b) => serde_json::Value::Bool(*b),
        Json::Number(n) => serde_json::Value::from(*n),
        Json::Text(s) => serde_json::Value::String(s.clone()),
        Json::List(items) => serde_json::Value::Array(items.iter().map(value_of_tree).collect()),
        Json::Table(members) => serde_json::Value::Object(
            members.iter().map(|(name, v)| (name.clone(), value_of_tree(v))).collect(),
        ),
    }
}

/// `to_string` on a `serde_json::Error`: what `serde_json` says of a text it
/// could not read. Nothing is promised of the words.
#[verifier::external_body]
fn error_text(error: &serde_json::Error) -> String {
    error.to_string()
}

/// Reads a JSON document. The error is the reader's own account of what is
/// wrong with the text.
pub fn read_json(bytes: &[u8]) -> (out: Result<Json, String>)
    ensures
        match out {
            Ok(tree) => json_document(bytes@) == Some(tree@),
            Err(_) => json_document(bytes@).is_none(),
        },
{
    match parse_value(bytes) {
        Ok(value) => Ok(tree_of_value(value)),
        Err(error) => Err(error_text(&error)),
    }
}

/// Writes a tree as compact JSON text.
pub fn write_json(tree: &Json) -> (out: String)
    requires
        tree@.writable(),
    ensures
        out@ == json_text(tree@),
{
    let value = value_of_tree(tree);
    print_value(&value)
}

} // verus!
