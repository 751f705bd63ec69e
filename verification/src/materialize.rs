//! The materializer: the depth-first walk that rebuilds a JSON value as a
//! host object graph.

use crate::error::MaterializeError;
use crate::host::{element_views, entry_views, HostTree, HostValue};
use crate::json::{
    double_bits, inspect, members, members_of, parse_of, parse_text, tree_of, trees_of, JsonTree,
    Node,
};
use crate::laws::{
    lemma_array_order, lemma_object_order, lemma_round_trip, lemma_success_criterion,
};
use serde_json::Value;
use vstd::prelude::*;

verus! {

/// The deepest nesting of containers that a caller without a limit of its own
/// should allow.
pub const DEFAULT_MAX_DEPTH: usize = 128;

/// The outcome of materializing `tree` where at most `limit` containers may
/// nest.
///
/// A scalar becomes the host scalar of its kind, and a number the double that
/// it stands for. A container needs one level of the limit for itself and
/// leaves the rest to its children, which are materialized in order; the
/// first child that fails decides the outcome.
pub open spec fn materialized(tree: JsonTree, limit: nat) -> Result<HostTree, MaterializeError>
    decreases limit, 0nat,
{
    match tree {
        JsonTree::Null => Ok(HostTree::Null),
        JsonTree::Bool(b) => Ok(HostTree::Bool(b)),
        JsonTree::Number(Some(bits)) => Ok(HostTree::Number(bits)),
        JsonTree::Number(None) => Err(MaterializeError::InvariantViolation),
        JsonTree::Text(text) => Ok(HostTree::Text(text)),
        JsonTree::Array(items) => if limit == 0 {
            Err(MaterializeError::DepthExceeded)
        } else {
            match materialized_items(items, (limit - 1) as nat) {
                Ok(elements) => Ok(HostTree::Sequence(elements)),
                Err(error) => Err(error),
            }
        },
        JsonTree::Object(members) => if limit == 0 {
            Err(MaterializeError::DepthExceeded)
        } else {
            match materialized_members(members, (limit - 1) as nat) {
                Ok(entries) => Ok(HostTree::Mapping(entries)),
                Err(error) => Err(error),
            }
        },
    }
}

/// The outcome of materializing the items of an array, in index order, each
/// within `limit`.
pub open spec fn materialized_items(items: Seq<JsonTree>, limit: nat) -> Result<
    Seq<HostTree>,
    MaterializeError,
>
    decreases limit, items.len() + 1,
{
    if items.len() == 0 {
        Ok(Seq::empty())
    } else {
        match materialized_items(items.drop_last(), limit) {
            Err(error) => Err(error),
            Ok(elements) => match materialized(items.last(), limit) {
                Err(error) => Err(error),
                Ok(element) => Ok(elements.push(element)),
            },
        }
    }
}

/// The outcome of materializing the members of an object, in iteration order,
/// each under its own key and within `limit`.
pub open spec fn materialized_members(members: Seq<(Seq<char>, JsonTree)>, limit: nat) -> Result<
    Seq<(Seq<char>, HostTree)>,
    MaterializeError,
>
    decreases limit, members.len() + 1,
{
    if members.len() == 0 {
        Ok(Seq::empty())
    } else {
        match materialized_members(members.drop_last(), limit) {
            Err(error) => Err(error),
            Ok(entries) => match materialized(members.last().1, limit) {
                Err(error) => Err(error),
                Ok(child) => Ok(entries.push((members.last().0, child))),
            },
        }
    }
}

/// The outcome of loading a document: a text that does not parse is a parse
/// error, and one that does is materialized.
pub open spec fn loaded(parsed: Option<JsonTree>, limit: nat) -> Result<
    HostTree,
    MaterializeError,
> {
    match parsed {
        None => Err(MaterializeError::Parse),
        Some(tree) => materialized(tree, limit),
    }
}

/// An outcome, with the graph taken by its content.
pub open spec fn viewed(result: Result<HostValue, MaterializeError>) -> Result<
    HostTree,
    MaterializeError,
> {
    match result {
        Ok(graph) => Ok(graph@),
        Err(error) => Err(error),
    }
}

/// A failure among the first `n` items is the failure of the whole array.
proof fn lemma_items_failure_is_final(items: Seq<JsonTree>, limit: nat, n: int)
    requires
        0 <= n <= items.len(),
        materialized_items(items.take(n), limit) is Err,
    ensures
        materialized_items(items, limit) == materialized_items(items.take(n), limit),
    decreases items.len() - n,
{
    if n < items.len() {
        assert(items.take(n + 1).drop_last() =~= items.take(n));
        lemma_items_failure_is_final(items, limit, n + 1);
    } else {
        assert(items.take(n) =~= items);
    }
}

/// A failure among the first `n` members is the failure of the whole object.
proof fn lemma_members_failure_is_final(members: Seq<(Seq<char>, JsonTree)>, limit: nat, n: int)
    requires
        0 <= n <= members.len(),
        materialized_members(members.take(n), limit) is Err,
    ensures
        materialized_members(members, limit) == materialized_members(members.take(n), limit),
    decreases members.len() - n,
{
    if n < members.len() {
        assert(members.take(n + 1).drop_last() =~= members.take(n));
        lemma_members_failure_is_final(members, limit, n + 1);
    } else {
        assert(members.take(n) =~= members);
    }
}

/// Materializes a JSON value as a host object graph; containers may nest
/// `max_depth` deep.
///
/// The walk is depth first: a container is created, then each child is
/// materialized and placed in it, in document order. Every number becomes a
/// double. The conversion fails as a whole: with `DepthExceeded` where
/// containers nest deeper than `max_depth`, with `InvariantViolation` where a
/// number has no double-precision value. The first failure in document order
/// is the one returned.
pub fn materialize(value: &Value, max_depth: usize) -> (result: Result<HostValue, MaterializeError>)
    ensures
        viewed(result) == materialized(tree_of(*value), max_depth as nat),
        result is Ok <==> tree_of(*value).recognized() && tree_of(*value).nests_within(
            max_depth as nat,
        ),
        result matches Ok(graph) ==> graph@.json() == tree_of(*value) && graph@.wf(),
        result matches Err(error) ==> (error == MaterializeError::DepthExceeded && !tree_of(
            *value,
        ).nests_within(max_depth as nat)) || (error == MaterializeError::InvariantViolation
            && !tree_of(*value).recognized()),
    decreases max_depth, 1nat,
{
    proof {
        lemma_success_criterion(tree_of(*value), max_depth as nat);
        if materialized(tree_of(*value), max_depth as nat) is Ok {
            lemma_round_trip(tree_of(*value), max_depth as nat);
        }
    }
    match inspect(value) {
        Node::Null => Ok(HostValue::Null),
        Node::Bool(b) => Ok(HostValue::Bool(b)),
        Node::Number => match double_bits(value) {
            Some(bits) => Ok(HostValue::Number(bits)),
            None => Err(MaterializeError::InvariantViolation),
        },
        Node::Text(text) => Ok(HostValue::Text(text.to_owned())),
        Node::Array(items) => materialize_array(items, max_depth),
        Node::Object(map) => materialize_object(map, max_depth),
    }
}

/// Materializes a JSON array as a sequence container: one element for each
/// item, at the item's index. The array itself takes one level of
/// `max_depth`.
pub fn materialize_array(items: &Vec<Value>, max_depth: usize) -> (result: Result<
    HostValue,
    MaterializeError,
>)
    ensures
        viewed(result) == materialized(JsonTree::Array(trees_of(items@)), max_depth as nat),
        result matches Ok(graph) ==> graph@.wf(),
        result matches Ok(graph) ==> graph@ matches HostTree::Sequence(elements) && elements.len()
            == items@.len() && forall|i: int|
            0 <= i < items@.len() ==> materialized(
                tree_of(#[trigger] items@[i]),
                (max_depth - 1) as nat,
            ) == Ok::<HostTree, MaterializeError>(elements[i]),
    decreases max_depth, 0nat,
{
    if max_depth == 0 {
        return Err(MaterializeError::DepthExceeded);
    }
    let limit = max_depth - 1;
    let ghost trees = trees_of(items@);
    proof {
        if materialized(JsonTree::Array(trees), max_depth as nat) is Ok {
            lemma_array_order(trees, max_depth as nat);
            assert forall|i: int| 0 <= i < items@.len() implies tree_of(#[trigger] items@[i])
                == trees[i] by {}
        }
    }
    let mut elements: Vec<HostValue> = Vec::new();
    let mut i: usize = 0;
    proof {
        assert(element_views(elements@) =~= Seq::<HostTree>::empty());
    }
    while i < items.len()
        invariant
            i <= items.len(),
            limit == max_depth - 1,
            trees == trees_of(items@),
            materialized_items(trees.take(i as int), limit as nat) == Ok::<
                Seq<HostTree>,
                MaterializeError,
            >(element_views(elements@)),
            forall|k: int| 0 <= k < elements@.len() ==> (#[trigger] elements@[k])@.wf(),
        decreases items.len() - i,
    {
        proof {
            assert(trees.take(i + 1).drop_last() =~= trees.take(i as int));
        }
        match materialize(&items[i], limit) {
            Ok(element) => {
                let ghost before = elements@;
                elements.push(element);
                proof {
                    assert(element_views(elements@) =~= element_views(before).push(element@));
                }
            },
            Err(error) => {
                proof {
                    lemma_items_failure_is_final(trees, limit as nat, i + 1);
                }
                return Err(error);
            },
        }
        i += 1;
    }
    proof {
        assert(trees.take(i as int) =~= trees);
    }
    Ok(HostValue::Sequence(elements))
}

/// Materializes a JSON object as a mapping container: one entry for each
/// member, under the member's key, in the order in which the object iterates.
/// The object itself takes one level of `max_depth`.
pub fn materialize_object(map: &serde_json::Map<String, Value>, max_depth: usize) -> (result:
    Result<HostValue, MaterializeError>)
    ensures
        viewed(result) == materialized(JsonTree::Object(members_of(*map)), max_depth as nat),
        result matches Ok(graph) ==> graph@.wf(),
        result matches Ok(graph) ==> graph@ matches HostTree::Mapping(entries) && entries.len()
            == members_of(*map).len() && forall|i: int|
            #![trigger entries[i]]
            #![trigger members_of(*map)[i]]
            0 <= i < entries.len() ==> entries[i].0 == members_of(*map)[i].0 && materialized(
                members_of(*map)[i].1,
                (max_depth - 1) as nat,
            ) == Ok::<HostTree, MaterializeError>(entries[i].1),
    decreases max_depth, 0nat,
{
    if max_depth == 0 {
        return Err(MaterializeError::DepthExceeded);
    }
    let limit = max_depth - 1;
    let ghost trees = members_of(*map);
    proof {
        if materialized(JsonTree::Object(trees), max_depth as nat) is Ok {
            lemma_object_order(trees, max_depth as nat);
        }
    }
    let listed = members(map);
    let mut entries: Vec<(String, HostValue)> = Vec::new();
    let mut i: usize = 0;
    proof {
        assert(entry_views(entries@) =~= Seq::<(Seq<char>, HostTree)>::empty());
    }
    while i < listed.len()
        invariant
            i <= listed.len(),
            i == entries@.len(),
            limit == max_depth - 1,
            trees == members_of(*map),
            listed@.len() == trees.len(),
            forall|k: int|
                0 <= k < listed@.len() ==> (#[trigger] listed@[k]).0@ == trees[k].0 && tree_of(
                    *listed@[k].1,
                ) == trees[k].1,
            materialized_members(trees.take(i as int), limit as nat) == Ok::<
                Seq<(Seq<char>, HostTree)>,
                MaterializeError,
            >(entry_views(entries@)),
            forall|k: int| 0 <= k < entries@.len() ==> (#[trigger] entries@[k]).0@ == trees[k].0,
            forall|k: int| 0 <= k < entries@.len() ==> (#[trigger] entries@[k]).1@.wf(),
        decreases listed.len() - i,
    {
        proof {
            assert(trees.take(i + 1).drop_last() =~= trees.take(i as int));
        }
        let key: &String = listed[i].0;
        let child: &Value = listed[i].1;
        match materialize(child, limit) {
            Ok(graph) => {
                let ghost before = entries@;
                entries.push((key.clone(), graph));
                proof {
                    assert(entry_views(entries@) =~= entry_views(before).push(
                        (trees[i as int].0, graph@),
                    ));
                }
            },
            Err(error) => {
                proof {
                    lemma_members_failure_is_final(trees, limit as nat, i + 1);
                }
                return Err(error);
            },
        }
        i += 1;
    }
    proof {
        assert(trees.take(i as int) =~= trees);
        let views = entry_views(entries@);
        assert forall|j: int, k: int| 0 <= j < k < views.len() implies (#[trigger] views[j]).0 != (
        #[trigger] views[k]).0 by {
            assert(listed@[j].0@ == trees[j].0 && listed@[k].0@ == trees[k].0);
        }
    }
    Ok(HostValue::Mapping(entries))
}

/// Finishes the loading of a document from the outcome of its parse: a
/// rejected text is a `Parse` error, and a parsed value is materialized.
pub fn materialize_parsed(parsed: Result<Value, serde_json::Error>, max_depth: usize) -> (result:
    Result<HostValue, MaterializeError>)
    ensures
        parsed matches Ok(value) ==> viewed(result) == materialized(
            tree_of(value),
            max_depth as nat,
        ),
        parsed is Err ==> result == Err::<HostValue, MaterializeError>(MaterializeError::Parse),
        result matches Ok(graph) ==> parsed matches Ok(value) && graph@.json() == tree_of(value)
            && graph@.wf(),
{
    match parsed {
        Ok(value) => materialize(&value, max_depth),
        Err(_) => Err(MaterializeError::Parse),
    }
}

/// Parses a JSON text and materializes the document that it holds.
///
/// The text is a `Parse` error where the parser rejects it. A document that
/// parses fares as its value does with [`materialize`].
pub fn materialize_text(text: &str, max_depth: usize) -> (result: Result<
    HostValue,
    MaterializeError,
>)
    ensures
        viewed(result) == loaded(parse_of(text@), max_depth as nat),
        result matches Ok(graph) ==> parse_of(text@) == Some(graph@.json()) && graph@.wf(),
{
    materialize_parsed(parse_text(text), max_depth)
}

} // verus!
