//! What holds of every materialization: when it succeeds, what the graph then
//! is, and what a failure means.

use crate::error::MaterializeError;
use crate::host::HostTree;
use crate::json::JsonTree;
use crate::materialize::{materialized, materialized_items, materialized_members};
use vstd::prelude::*;

verus! {

/// The items of an array are materialized one by one, each at its own index:
/// the items succeed with exactly the sequence of their graphs, and fail with
/// the failure of the first item that fails.
pub proof fn lemma_items_pointwise(items: Seq<JsonTree>, limit: nat)
    ensures
        materialized_items(items, limit) matches Ok(elements) ==> elements.len() == items.len()
            && forall|i: int|
            0 <= i < items.len() ==> materialized(#[trigger] items[i], limit) == Ok::<
                HostTree,
                MaterializeError,
            >(elements[i]),
        materialized_items(items, limit) matches Err(error) ==> exists|k: int|
            0 <= k < items.len() && materialized(#[trigger] items[k], limit) == Err::<
                HostTree,
                MaterializeError,
            >(error) && forall|j: int|
                0 <= j < k ==> materialized(#[trigger] items[j], limit) is Ok,
    decreases items.len(),
{
    if items.len() > 0 {
        let front = items.drop_last();
        lemma_items_pointwise(front, limit);
        assert(forall|i: int| 0 <= i < front.len() ==> front[i] == items[i]);
        if materialized_items(front, limit) is Ok && materialized(items.last(), limit) is Err {
            assert(materialized(items[items.len() - 1], limit) is Err);
        }
    }
}

/// The members of an object are materialized one by one, each under its own
/// key and at its own place in the order: the members succeed with exactly
/// the sequence of their keys and graphs, and fail with the failure of the
/// first member that fails.
pub proof fn lemma_members_pointwise(members: Seq<(Seq<char>, JsonTree)>, limit: nat)
    ensures
        materialized_members(members, limit) matches Ok(entries) ==> entries.len()
            == members.len() && forall|i: int|
            #![trigger entries[i]]
            #![trigger members[i]]
            0 <= i < members.len() ==> entries[i].0 == members[i].0 && materialized(
                members[i].1,
                limit,
            ) == Ok::<HostTree, MaterializeError>(entries[i].1),
        materialized_members(members, limit) matches Err(error) ==> exists|k: int|
            0 <= k < members.len() && materialized((#[trigger] members[k]).1, limit) == Err::<
                HostTree,
                MaterializeError,
            >(error) && forall|j: int|
                0 <= j < k ==> materialized((#[trigger] members[j]).1, limit) is Ok,
    decreases members.len(),
{
    if members.len() > 0 {
        let front = members.drop_last();
        lemma_members_pointwise(front, limit);
        assert(forall|i: int| 0 <= i < front.len() ==> front[i] == members[i]);
        if materialized_members(front, limit) is Ok && materialized(
            members.last().1,
            limit,
        ) is Err {
            assert(materialized(members[members.len() - 1].1, limit) is Err);
        }
    }
}

/// Order is preserved in arrays: the sequence has one element for each item,
/// and the element at each index is the graph of the item at that index.
pub proof fn lemma_array_order(items: Seq<JsonTree>, limit: nat)
    requires
        materialized(JsonTree::Array(items), limit) is Ok,
    ensures
        limit > 0,
        materialized(JsonTree::Array(items), limit) matches Ok(HostTree::Sequence(elements))
            && elements.len() == items.len() && forall|i: int|
            0 <= i < items.len() ==> materialized(#[trigger] items[i], (limit - 1) as nat) == Ok::<
                HostTree,
                MaterializeError,
            >(elements[i]),
{
    lemma_items_pointwise(items, (limit - 1) as nat);
}

/// Order is preserved in objects: the mapping has one entry for each member,
/// and the entry at each place holds the key of the member at that place and
/// the graph of that member's value.
pub proof fn lemma_object_order(members: Seq<(Seq<char>, JsonTree)>, limit: nat)
    requires
        materialized(JsonTree::Object(members), limit) is Ok,
    ensures
        limit > 0,
        materialized(JsonTree::Object(members), limit) matches Ok(HostTree::Mapping(entries))
            && entries.len() == members.len() && forall|i: int|
            #![trigger entries[i]]
            #![trigger members[i]]
            0 <= i < members.len() ==> entries[i].0 == members[i].0 && materialized(
                members[i].1,
                (limit - 1) as nat,
            ) == Ok::<HostTree, MaterializeError>(entries[i].1),
{
    lemma_members_pointwise(members, (limit - 1) as nat);
}

/// A materialization succeeds exactly where every number of the tree has a
/// double and the tree nests no deeper than the limit. Where it fails, the
/// error names a cause that is there: `DepthExceeded` only where the tree
/// nests too deep, `InvariantViolation` only where a number has no double,
/// and no other error ever.
pub proof fn lemma_success_criterion(tree: JsonTree, limit: nat)
    ensures
        materialized(tree, limit) is Ok <==> tree.recognized() && tree.nests_within(limit),
        materialized(tree, limit) matches Err(error) ==> (error == MaterializeError::DepthExceeded
            && !tree.nests_within(limit)) || (error == MaterializeError::InvariantViolation
            && !tree.recognized()),
    decreases limit,
{
    match tree {
        JsonTree::Array(items) => {
            if limit > 0 {
                let rest = (limit - 1) as nat;
                lemma_items_pointwise(items, rest);
                match materialized_items(items, rest) {
                    Ok(elements) => {
                        assert forall|i: int| 0 <= i < items.len() implies (
                        #[trigger] items[i]).recognized() && items[i].nests_within(rest) by {
                            lemma_success_criterion(items[i], rest);
                        }
                    },
                    Err(error) => {
                        let k = choose|k: int|
                            0 <= k < items.len() && materialized(#[trigger] items[k], rest)
                                == Err::<HostTree, MaterializeError>(error);
                        lemma_success_criterion(items[k], rest);
                    },
                }
            }
        },
        JsonTree::Object(members) => {
            if limit > 0 {
                let rest = (limit - 1) as nat;
                lemma_members_pointwise(members, rest);
                match materialized_members(members, rest) {
                    Ok(entries) => {
                        assert forall|i: int| 0 <= i < members.len() implies (
                        #[trigger] members[i]).1.recognized() && members[i].1.nests_within(
                            rest,
                        ) by {
                            lemma_success_criterion(members[i].1, rest);
                        }
                    },
                    Err(error) => {
                        let k = choose|k: int|
                            0 <= k < members.len() && materialized((#[trigger] members[k]).1, rest)
                                == Err::<HostTree, MaterializeError>(error);
                        lemma_success_criterion(members[k].1, rest);
                    },
                }
            }
        },
        _ => {},
    }
}

/// Structural equivalence: a graph reads back as the JSON value that it was
/// materialized from, with equal scalars, arrays equal in length and at each
/// index, and objects equal in their keys, in their order and under each key.
pub proof fn lemma_round_trip(tree: JsonTree, limit: nat)
    requires
        materialized(tree, limit) is Ok,
    ensures
        materialized(tree, limit)->Ok_0.json() == tree,
    decreases limit,
{
    match tree {
        JsonTree::Array(items) => {
            let rest = (limit - 1) as nat;
            lemma_items_pointwise(items, rest);
            let elements = materialized_items(items, rest)->Ok_0;
            assert forall|i: int| 0 <= i < items.len() implies elements[i].json()
                == #[trigger] items[i] by {
                lemma_round_trip(items[i], rest);
            }
            assert(HostTree::Sequence(elements).json()->Array_0 =~= items);
        },
        JsonTree::Object(members) => {
            let rest = (limit - 1) as nat;
            lemma_members_pointwise(members, rest);
            let entries = materialized_members(members, rest)->Ok_0;
            assert forall|i: int| 0 <= i < members.len() implies (entries[i].0, entries[i].1.json())
                == #[trigger] members[i] by {
                lemma_round_trip(members[i].1, rest);
            }
            assert(HostTree::Mapping(entries).json()->Object_0 =~= members);
        },
        _ => {},
    }
}

/// The limit only ever refuses: where a tree is materialized within some
/// limit, any larger limit gives the same graph.
pub proof fn lemma_limit_only_refuses(tree: JsonTree, limit: nat, larger: nat)
    requires
        materialized(tree, limit) is Ok,
        limit <= larger,
    ensures
        materialized(tree, larger) == materialized(tree, limit),
    decreases limit,
{
    match tree {
        JsonTree::Array(items) => {
            let rest = (limit - 1) as nat;
            let more = (larger - 1) as nat;
            lemma_items_pointwise(items, rest);
            lemma_items_pointwise(items, more);
            assert forall|i: int| 0 <= i < items.len() implies materialized(
                #[trigger] items[i],
                more,
            ) == materialized(items[i], rest) by {
                lemma_limit_only_refuses(items[i], rest, more);
            }
            let high = materialized_items(items, more)->Ok_0;
            let low = materialized_items(items, rest)->Ok_0;
            assert forall|i: int| 0 <= i < items.len() implies high[i] == low[i] by {
                assert(materialized(items[i], more) == materialized(items[i], rest));
            }
            assert(high =~= low);
        },
        JsonTree::Object(members) => {
            let rest = (limit - 1) as nat;
            let more = (larger - 1) as nat;
            lemma_members_pointwise(members, rest);
            lemma_members_pointwise(members, more);
            assert forall|i: int| 0 <= i < members.len() implies materialized(
                (#[trigger] members[i]).1,
                more,
            ) == materialized(members[i].1, rest) by {
                lemma_limit_only_refuses(members[i].1, rest, more);
            }
            let high = materialized_members(members, more)->Ok_0;
            let low = materialized_members(members, rest)->Ok_0;
            assert forall|i: int| 0 <= i < members.len() implies high[i] == low[i] by {
                assert(materialized(members[i].1, more) == materialized(members[i].1, rest));
            }
            assert(high =~= low);
        },
        _ => {},
    }
}

/// Keys stay unique: where no object of the tree holds a key twice, no
/// mapping of its graph does.
pub proof fn lemma_keys_stay_unique(tree: JsonTree, limit: nat)
    requires
        materialized(tree, limit) is Ok,
        tree.wf(),
    ensures
        materialized(tree, limit)->Ok_0.wf(),
    decreases limit,
{
    match tree {
        JsonTree::Array(items) => {
            let rest = (limit - 1) as nat;
            lemma_items_pointwise(items, rest);
            let elements = materialized_items(items, rest)->Ok_0;
            assert forall|i: int| 0 <= i < elements.len() implies (#[trigger] elements[i]).wf() by {
                lemma_keys_stay_unique(items[i], rest);
            }
        },
        JsonTree::Object(members) => {
            let rest = (limit - 1) as nat;
            lemma_members_pointwise(members, rest);
            let entries = materialized_members(members, rest)->Ok_0;
            assert forall|i: int| 0 <= i < entries.len() implies (#[trigger] entries[i]).1.wf() by {
                lemma_keys_stay_unique(members[i].1, rest);
            }
            assert forall|i: int, j: int| 0 <= i < j < entries.len() implies (
            #[trigger] entries[i]).0 != (#[trigger] entries[j]).0 by {}
        },
        _ => {},
    }
}

} // verus!
