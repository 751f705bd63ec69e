//! The host object graph: the dynamically typed value that a materialization
//! produces.

use crate::json::JsonTree;
use vstd::prelude::*;

verus! {

/// The mathematical content of a host object graph.
pub enum HostTree {
    Null,
    Bool(bool),
    Number(u64),
    Text(Seq<char>),
    Sequence(Seq<HostTree>),
    Mapping(Seq<(Seq<char>, HostTree)>),
}

/// A host object graph.
///
/// `Number` holds the bit pattern of a double. `Sequence` holds its elements
/// in index order, `Mapping` its entries in the order in which they were inserted. Every
/// container owns its children: a graph shares nothing with the document it
/// was made from.
#[derive(Debug, PartialEq, Eq)]
pub enum HostValue {
    Null,
    Bool(bool),
    Number(u64),
    Text(String),
    Sequence(Vec<HostValue>),
    Mapping(Vec<(String, HostValue)>),
}

impl View for HostValue {
    type V = HostTree;

    open spec fn view(&self) -> HostTree
        decreases self,
    {
        match self {
            HostValue::Null => HostTree::Null,
            HostValue::Bool(b) => HostTree::Bool(*b),
            HostValue::Number(bits) => HostTree::Number(*bits),
            HostValue::Text(text) => HostTree::Text(text@),
            HostValue::Sequence(items) => HostTree::Sequence(element_views(items@)),
            HostValue::Mapping(entries) => HostTree::Mapping(entry_views(entries@)),
        }
    }
}

/// The contents of the elements of a sequence container, in index order.
pub open spec fn element_views(items: Seq<HostValue>) -> Seq<HostTree>
    decreases items,
{
    Seq::new(
        items.len(),
        |i: int|
            if 0 <= i < items.len() {
                items[i].view()
            } else {
                arbitrary()
            },
    )
}

/// The keys and contents of the entries of a mapping container, in order.
pub open spec fn entry_views(entries: Seq<(String, HostValue)>) -> Seq<(Seq<char>, HostTree)>
    decreases entries,
{
    Seq::new(
        entries.len(),
        |i: int|
            if 0 <= i < entries.len() {
                (entries[i].0@, entries[i].1.view())
            } else {
                arbitrary()
            },
    )
}

/// No two entries share a key.
pub open spec fn distinct_keys(entries: Seq<(Seq<char>, HostTree)>) -> bool {
    forall|i: int, j: int|
        0 <= i < j < entries.len() ==> (#[trigger] entries[i]).0 != (#[trigger] entries[j]).0
}

impl HostTree {
    /// Every mapping in the graph holds each of its keys once.
    pub open spec fn wf(self) -> bool
        decreases self,
    {
        match self {
            HostTree::Sequence(items) => forall|i: int|
                0 <= i < items.len() ==> (#[trigger] items[i]).wf(),
            HostTree::Mapping(entries) => distinct_keys(entries) && forall|i: int|
                0 <= i < entries.len() ==> (#[trigger] entries[i]).1.wf(),
            _ => true,
        }
    }

    /// The entries of a mapping, in order; none for any other graph.
    pub open spec fn entries(self) -> Seq<(Seq<char>, HostTree)> {
        match self {
            HostTree::Mapping(entries) => entries,
            _ => Seq::empty(),
        }
    }

    /// The JSON value that the graph reads back as: each scalar as the JSON
    /// scalar of its kind, each sequence as the array of its elements in index
    /// order, each mapping as the object of its entries in order.
    pub open spec fn json(self) -> JsonTree
        decreases self,
    {
        match self {
            HostTree::Null => JsonTree::Null,
            HostTree::Bool(b) => JsonTree::Bool(b),
            HostTree::Number(bits) => JsonTree::Number(Some(bits)),
            HostTree::Text(text) => JsonTree::Text(text),
            HostTree::Sequence(elements) => JsonTree::Array(
                Seq::new(
                    elements.len(),
                    |i: int|
                        if 0 <= i < elements.len() {
                            elements[i].json()
                        } else {
                            arbitrary()
                        },
                ),
            ),
            HostTree::Mapping(entries) => JsonTree::Object(
                Seq::new(
                    entries.len(),
                    |i: int|
                        if 0 <= i < entries.len() {
                            (entries[i].0, entries[i].1.json())
                        } else {
                            arbitrary()
                        },
                ),
            ),
        }
    }
}

impl HostValue {
    /// Looks a key up in a mapping container.
    ///
    /// The answer is the value of the first entry under `key`. It is `None`
    /// where no entry has that key, and for a graph that is no mapping; an
    /// entry that holds the null sentinel is found like any other.
    pub fn lookup(&self, key: &str) -> (found: Option<&HostValue>)
        ensures
            found matches Some(child) ==> exists|i: int|
                0 <= i < self@.entries().len() && #[trigger] self@.entries()[i] == (key@, child@)
                    && forall|j: int| 0 <= j < i ==> (#[trigger] self@.entries()[j]).0 != key@,
            found is None ==> forall|i: int|
                0 <= i < self@.entries().len() ==> (#[trigger] self@.entries()[i]).0 != key@,
    {
        match self {
            HostValue::Mapping(entries) => {
                let wanted = key.to_owned();
                let ghost views = entry_views(entries@);
                let mut i: usize = 0;
                while i < entries.len()
                    invariant
                        i <= entries.len(),
                        self@.entries() == views,
                        views == entry_views(entries@),
                        wanted@ == key@,
                        forall|j: int| 0 <= j < i ==> (#[trigger] views[j]).0 != key@,
                    decreases entries.len() - i,
                {
                    if entries[i].0 == wanted {
                        assert(views[i as int] == (key@, entries@[i as int].1@));
                        return Some(&entries[i].1);
                    }
                    i += 1;
                }
                None
            },
            _ => None,
        }
    }
}

} // verus!
