//! The JSON value model: what a `serde_json::Value` holds, and the few
//! operations through which the rest of the crate reads one.

use serde_json::Value;
use vstd::prelude::*;

verus! {

/// `serde_json::Value`, a JSON value of any kind. Opaque: it is read through
/// `inspect` and `double_bits` alone.
#[verifier::external_type_specification]
#[verifier::external_body]
pub struct ExValue(serde_json::Value);

/// `serde_json::Map`, the members of a JSON object. Opaque: it is read
/// through `members` alone.
#[verifier::external_type_specification]
#[verifier::external_body]
#[verifier::reject_recursive_types(K)]
#[verifier::reject_recursive_types(V)]
pub struct ExMap<K, V>(serde_json::Map<K, V>);

/// `serde_json::Error`, the parser's account of a rejected text. Opaque, and
/// never read.
#[verifier::external_type_specification]
#[verifier::external_body]
pub struct ExError(serde_json::Error);

/// The mathematical content of a JSON value.
///
/// A number is held as the bit pattern of its double-precision value, and as
/// `None` where it has none. An object is the sequence of its members in
/// iteration order.
pub enum JsonTree {
    Null,
    Bool(bool),
    Number(Option<u64>),
    Text(Seq<char>),
    Array(Seq<JsonTree>),
    Object(Seq<(Seq<char>, JsonTree)>),
}

impl JsonTree {
    /// No object in the tree holds a key twice.
    pub open spec fn wf(self) -> bool
        decreases self,
    {
        match self {
            JsonTree::Array(items) => forall|i: int|
                0 <= i < items.len() ==> (#[trigger] items[i]).wf(),
            JsonTree::Object(members) => (forall|i: int, j: int|
                0 <= i < j < members.len() ==> (#[trigger] members[i]).0 != (
                #[trigger] members[j]).0) && forall|i: int|
                0 <= i < members.len() ==> (#[trigger] members[i]).1.wf(),
            _ => true,
        }
    }

    /// Every number in the tree has a double-precision value.
    pub open spec fn recognized(self) -> bool
        decreases self,
    {
        match self {
            JsonTree::Number(double) => double is Some,
            JsonTree::Array(items) => forall|i: int|
                0 <= i < items.len() ==> (#[trigger] items[i]).recognized(),
            JsonTree::Object(members) => forall|i: int|
                0 <= i < members.len() ==> (#[trigger] members[i]).1.recognized(),
            _ => true,
        }
    }

    /// No more than `limit` containers nest in the tree: a scalar nests none,
    /// and a container nests one more than the deepest of its children.
    pub open spec fn nests_within(self, limit: nat) -> bool
        decreases limit,
    {
        match self {
            JsonTree::Array(items) => limit > 0 && forall|i: int|
                0 <= i < items.len() ==> (#[trigger] items[i]).nests_within((limit - 1) as nat),
            JsonTree::Object(members) => limit > 0 && forall|i: int|
                0 <= i < members.len() ==> (#[trigger] members[i]).1.nests_within(
                    (limit - 1) as nat,
                ),
            _ => true,
        }
    }
}

/// The content of a `serde_json::Value`.
pub uninterp spec fn tree_of(value: Value) -> JsonTree;

/// The members of a `serde_json::Map`, in the order in which it iterates.
pub uninterp spec fn members_of(map: serde_json::Map<String, Value>) -> Seq<(Seq<char>, JsonTree)>;

/// What `serde_json::from_str` makes of a text: the content of the value that
/// it parses, or `None` where it rejects the text.
pub uninterp spec fn parse_of(text: Seq<char>) -> Option<JsonTree>;

/// The contents of a vector of values, element by element.
pub open spec fn trees_of(items: Seq<Value>) -> Seq<JsonTree> {
    Seq::new(items.len(), |i: int| tree_of(items[i]))
}

/// One level of a JSON value: its kind, and borrowed access to what it holds.
pub(crate) enum Node<'a> {
    Null,
    Bool(bool),
    Number,
    Text(&'a str),
    Array(&'a Vec<Value>),
    Object(&'a serde_json::Map<String, Value>),
}

impl<'a> Node<'a> {
    /// The node is one level of a value with this content.
    pub(crate) open spec fn describes(self, tree: JsonTree) -> bool {
        match self {
            Node::Null => tree == JsonTree::Null,
            Node::Bool(b) => tree == JsonTree::Bool(b),
            Node::Number => tree is Number,
            Node::Text(text) => tree == JsonTree::Text(text@),
            Node::Array(items) => tree == JsonTree::Array(trees_of(items@)),
            Node::Object(map) => tree == JsonTree::Object(members_of(*map)),
        }
    }
}

/// Parses a JSON text with `serde_json::from_str`.
///
/// Trusted: the outcome is a function of the text alone, and a value that
/// comes back holds what `parse_of` says.
#[verifier::external_body]
pub(crate) fn parse_text(text: &str) -> (parsed: Result<Value, serde_json::Error>)
    ensures
        parsed matches Ok(value) ==> parse_of(text@) == Some(tree_of(value)),
        parsed is Err ==> parse_of(text@) is None,
{
    serde_json::from_str(text)
}

/// Tells the six variants of `serde_json::Value` apart.
///
/// Trusted: the node names the variant of `value`, and borrows or copies what
/// a variant other than `Number` holds.
#[verifier::external_body]
pub(crate) fn inspect(value: &Value) -> (node: Node<'_>)
    ensures
        node.describes(tree_of(*value)),
{
    match value {
        Value::Null => Node::Null,
        Value::Bool(b) => Node::Bool(*b),
        Value::Number(_) => Node::Number,
        Value::String(text) => Node::Text(text),
        Value::Array(items) => Node::Array(items),
        Value::Object(map) => Node::Object(map),
    }
}

/// Lists the entries of a map with `serde_json::Map::iter`.
///
/// Trusted: the entries come in iteration order, one per member, and no two
/// members of a map share a key.
#[verifier::external_body]
pub(crate) fn members<'a>(map: &'a serde_json::Map<String, Value>) -> (entries: Vec<
    (&'a String, &'a Value),
>)
    ensures
        entries@.len() == members_of(*map).len(),
        forall|i: int|
            0 <= i < entries@.len() ==> (#[trigger] entries@[i]).0@ == members_of(*map)[i].0
                && tree_of(*entries@[i].1) == members_of(*map)[i].1,
        forall|i: int, j: int|
            0 <= i < j < entries@.len() ==> (#[trigger] entries@[i]).0@ != (
            #[trigger] entries@[j]).0@,
{
    map.iter().collect()
}

/// Reads a value as a double with `serde_json::Value::as_f64`, and hands out
/// the double's bit pattern.
///
/// Trusted: for a number the bits are those of the double that `as_f64`
/// returns, and there are none where it returns `None`; for a value of any
/// other kind there are none.
#[verifier::external_body]
pub(crate) fn double_bits(value: &Value) -> (bits: Option<u64>)
    ensures
        tree_of(*value) matches JsonTree::Number(double) ==> bits == double,
        !(tree_of(*value) is Number) ==> bits is None,
{
    value.as_f64().map(|double| double.to_bits())
}

} // verus!
