//! Building a graph in a host that allocates its own values.
//!
//! A host such as a scripting runtime keeps its values on its own heap. For
//! such a host a graph is unfolded into steps: each creates one value, or
//! places a finished child in its parent. The host needs a stack of values and
//! nothing else. Containers are created before their children, and a child is
//! placed only when it is complete.

use crate::host::{distinct_keys, element_views, entry_views, HostTree, HostValue};
use vstd::prelude::*;

verus! {

/// One step of the host's work, on the host's stack of values.
#[derive(Debug, PartialEq, Eq)]
pub enum Step {
    /// Push the null sentinel.
    Null,
    /// Push a boolean.
    Bool(bool),
    /// Push the double with this bit pattern.
    Number(u64),
    /// Push a string.
    Text(String),
    /// Allocate an empty sequence container and push it.
    OpenSequence,
    /// Allocate an empty mapping container and push it.
    OpenMapping,
    /// Pop a value and append it to the sequence container then on top.
    Append,
    /// Pop a value and set it under this key in the mapping container then on
    /// top.
    Insert(String),
}

/// The mathematical content of a step.
pub enum StepView {
    Null,
    Bool(bool),
    Number(u64),
    Text(Seq<char>),
    OpenSequence,
    OpenMapping,
    Append,
    Insert(Seq<char>),
}

impl View for Step {
    type V = StepView;

    open spec fn view(&self) -> StepView {
        match self {
            Step::Null => StepView::Null,
            Step::Bool(b) => StepView::Bool(*b),
            Step::Number(bits) => StepView::Number(*bits),
            Step::Text(text) => StepView::Text(text@),
            Step::OpenSequence => StepView::OpenSequence,
            Step::OpenMapping => StepView::OpenMapping,
            Step::Append => StepView::Append,
            Step::Insert(key) => StepView::Insert(key@),
        }
    }
}

/// The contents of a list of steps, in order.
pub open spec fn step_views(steps: Seq<Step>) -> Seq<StepView> {
    Seq::new(steps.len(), |i: int| steps[i]@)
}

/// Some entry stands under `key`.
pub open spec fn has_key(entries: Seq<(Seq<char>, HostTree)>, key: Seq<char>) -> bool {
    exists|i: int| 0 <= i < entries.len() && (#[trigger] entries[i]).0 == key
}

/// The entries of a mapping after `child` was set under `key`: a key that is
/// there keeps its place and gets the new value, and a new key goes last.
pub open spec fn inserted(entries: Seq<(Seq<char>, HostTree)>, key: Seq<char>, child: HostTree)
    -> Seq<(Seq<char>, HostTree)> {
    if has_key(entries, key) {
        let at = choose|i: int| 0 <= i < entries.len() && (#[trigger] entries[i]).0 == key;
        entries.update(at, (key, child))
    } else {
        entries.push((key, child))
    }
}

/// The host's stack after one step, or `None` where the stack does not hold
/// what the step needs.
pub open spec fn performed(step: StepView, stack: Seq<HostTree>) -> Option<Seq<HostTree>> {
    match step {
        StepView::Null => Some(stack.push(HostTree::Null)),
        StepView::Bool(b) => Some(stack.push(HostTree::Bool(b))),
        StepView::Number(bits) => Some(stack.push(HostTree::Number(bits))),
        StepView::Text(text) => Some(stack.push(HostTree::Text(text))),
        StepView::OpenSequence => Some(stack.push(HostTree::Sequence(Seq::empty()))),
        StepView::OpenMapping => Some(stack.push(HostTree::Mapping(Seq::empty()))),
        StepView::Append => if stack.len() >= 2 {
            match stack[stack.len() - 2] {
                HostTree::Sequence(elements) => Some(
                    stack.take(stack.len() - 2).push(
                        HostTree::Sequence(elements.push(stack.last())),
                    ),
                ),
                _ => None,
            }
        } else {
            None
        },
        StepView::Insert(key) => if stack.len() >= 2 {
            match stack[stack.len() - 2] {
                HostTree::Mapping(entries) => Some(
                    stack.take(stack.len() - 2).push(
                        HostTree::Mapping(inserted(entries, key, stack.last())),
                    ),
                ),
                _ => None,
            }
        } else {
            None
        },
    }
}

/// The host's stack after a list of steps, performed in order.
pub open spec fn ran(steps: Seq<StepView>, stack: Seq<HostTree>) -> Option<Seq<HostTree>>
    decreases steps.len(),
{
    if steps.len() == 0 {
        Some(stack)
    } else {
        match performed(steps.first(), stack) {
            Some(next) => ran(steps.drop_first(), next),
            None => None,
        }
    }
}

/// The steps that build a graph: a scalar is one step; a container is opened
/// first, then each child is built and placed, in order.
pub open spec fn steps_for(graph: HostTree) -> Seq<StepView>
    decreases graph,
{
    match graph {
        HostTree::Null => seq![StepView::Null],
        HostTree::Bool(b) => seq![StepView::Bool(b)],
        HostTree::Number(bits) => seq![StepView::Number(bits)],
        HostTree::Text(text) => seq![StepView::Text(text)],
        HostTree::Sequence(elements) => seq![StepView::OpenSequence] + element_steps(elements),
        HostTree::Mapping(entries) => seq![StepView::OpenMapping] + entry_steps(entries),
    }
}

/// The steps that build and append the elements of a sequence, in index order.
pub open spec fn element_steps(elements: Seq<HostTree>) -> Seq<StepView>
    decreases elements,
{
    if elements.len() == 0 {
        Seq::empty()
    } else {
        element_steps(elements.drop_last()) + steps_for(elements.last()) + seq![StepView::Append]
    }
}

/// The steps that build and insert the entries of a mapping, in order.
pub open spec fn entry_steps(entries: Seq<(Seq<char>, HostTree)>) -> Seq<StepView>
    decreases entries,
{
    if entries.len() == 0 {
        Seq::empty()
    } else {
        entry_steps(entries.drop_last()) + steps_for(entries.last().1) + seq![
            StepView::Insert(entries.last().0),
        ]
    }
}

/// Running two lists of steps one after the other is running their
/// concatenation.
pub proof fn lemma_ran_in_parts(first: Seq<StepView>, second: Seq<StepView>, stack: Seq<HostTree>)
    ensures
        ran(first, stack) matches Some(between) ==> ran(first + second, stack) == ran(
            second,
            between,
        ),
        ran(first, stack) is None ==> ran(first + second, stack) is None,
    decreases first.len(),
{
    if first.len() > 0 {
        assert((first + second).drop_first() =~= first.drop_first() + second);
        match performed(first.first(), stack) {
            Some(next) => lemma_ran_in_parts(first.drop_first(), second, next),
            None => {},
        }
    }
}

/// The steps for a graph build that graph: run on any stack, they leave the
/// stack as it was, with the graph pushed on top.
pub proof fn lemma_steps_build(graph: HostTree, stack: Seq<HostTree>)
    requires
        graph.wf(),
    ensures
        ran(steps_for(graph), stack) == Some(stack.push(graph)),
    decreases graph,
{
    reveal_with_fuel(ran, 2);
    match graph {
        HostTree::Sequence(elements) => {
            lemma_ran_in_parts(seq![StepView::OpenSequence], element_steps(elements), stack);
            lemma_elements_build(elements, stack);
        },
        HostTree::Mapping(entries) => {
            lemma_ran_in_parts(seq![StepView::OpenMapping], entry_steps(entries), stack);
            lemma_entries_build(entries, stack);
        },
        _ => {},
    }
}

/// The steps for the elements of a sequence fill an empty sequence container
/// with exactly those elements.
pub proof fn lemma_elements_build(elements: Seq<HostTree>, stack: Seq<HostTree>)
    requires
        forall|i: int| 0 <= i < elements.len() ==> (#[trigger] elements[i]).wf(),
    ensures
        ran(element_steps(elements), stack.push(HostTree::Sequence(Seq::empty()))) == Some(
            stack.push(HostTree::Sequence(elements)),
        ),
    decreases elements,
{
    let opened = stack.push(HostTree::Sequence(Seq::empty()));
    if elements.len() == 0 {
        assert(elements =~= Seq::<HostTree>::empty());
    } else {
        let front = elements.drop_last();
        let last = elements.last();
        let filled = stack.push(HostTree::Sequence(front));
        assert forall|i: int| 0 <= i < front.len() implies (#[trigger] front[i]).wf() by {}
        lemma_elements_build(front, stack);
        lemma_steps_build(last, filled);
        lemma_ran_in_parts(element_steps(front), steps_for(last), opened);
        lemma_ran_in_parts(element_steps(front) + steps_for(last), seq![StepView::Append], opened);
        assert(front.push(last) =~= elements);
        reveal_with_fuel(ran, 2);
    }
}

/// The steps for the entries of a mapping fill an empty mapping container
/// with exactly those entries, in their order.
pub proof fn lemma_entries_build(entries: Seq<(Seq<char>, HostTree)>, stack: Seq<HostTree>)
    requires
        distinct_keys(entries),
        forall|i: int| 0 <= i < entries.len() ==> (#[trigger] entries[i]).1.wf(),
    ensures
        ran(entry_steps(entries), stack.push(HostTree::Mapping(Seq::empty()))) == Some(
            stack.push(HostTree::Mapping(entries)),
        ),
    decreases entries,
{
    let opened = stack.push(HostTree::Mapping(Seq::empty()));
    if entries.len() == 0 {
        assert(entries =~= Seq::<(Seq<char>, HostTree)>::empty());
    } else {
        let front = entries.drop_last();
        let last = entries.last();
        let filled = stack.push(HostTree::Mapping(front));
        assert forall|i: int| 0 <= i < front.len() implies (#[trigger] front[i]).1.wf() by {}
        assert forall|i: int, j: int| 0 <= i < j < front.len() implies (#[trigger] front[i]).0 != (
        #[trigger] front[j]).0 by {}
        lemma_entries_build(front, stack);
        lemma_steps_build(last.1, filled);
        lemma_ran_in_parts(entry_steps(front), steps_for(last.1), opened);
        lemma_ran_in_parts(
            entry_steps(front) + steps_for(last.1),
            seq![StepView::Insert(last.0)],
            opened,
        );
        assert(!has_key(front, last.0)) by {
            assert forall|i: int| 0 <= i < front.len() implies (#[trigger] front[i]).0
                != last.0 by {}
        }
        assert(front.push((last.0, last.1)) =~= entries);
        reveal_with_fuel(ran, 2);
    }
}

/// Unfolds a graph into the steps that build it in a host.
///
/// Run in order on a host's stack, the steps of a well-formed graph leave
/// that graph on top of it: see [`lemma_steps_build`].
pub fn plan(graph: &HostValue) -> (steps: Vec<Step>)
    ensures
        step_views(steps@) == steps_for(graph@),
{
    let mut steps: Vec<Step> = Vec::new();
    unfold(graph, &mut steps);
    steps
}

/// Adds the steps that build `graph` to the end of `steps`.
fn unfold(graph: &HostValue, steps: &mut Vec<Step>)
    ensures
        step_views(final(steps)@) == step_views(old(steps)@) + steps_for(graph@),
    decreases graph,
{
    let ghost before = step_views(steps@);
    match graph {
        HostValue::Null => steps.push(Step::Null),
        HostValue::Bool(b) => steps.push(Step::Bool(*b)),
        HostValue::Number(bits) => steps.push(Step::Number(*bits)),
        HostValue::Text(text) => steps.push(Step::Text(text.clone())),
        HostValue::Sequence(items) => {
            steps.push(Step::OpenSequence);
            let ghost elements = element_views(items@);
            let ghost opened = before + seq![StepView::OpenSequence];
            let mut i: usize = 0;
            while i < items.len()
                invariant
                    i <= items.len(),
                    elements == element_views(items@),
                    step_views(steps@) == opened + element_steps(elements.take(i as int)),
                    graph is Sequence,
                    graph->Sequence_0 == *items,
                decreases items.len() - i,
            {
                let ghost so_far = step_views(steps@);
                unfold(&items[i], steps);
                steps.push(Step::Append);
                proof {
                    assert(elements.take(i + 1).drop_last() =~= elements.take(i as int));
                    assert(step_views(steps@) =~= so_far + steps_for(items@[i as int]@)
                        + seq![StepView::Append]);
                }
                i += 1;
            }
            proof {
                assert(elements.take(i as int) =~= elements);
            }
        },
        HostValue::Mapping(entries) => {
            steps.push(Step::OpenMapping);
            let ghost members = entry_views(entries@);
            let ghost opened = before + seq![StepView::OpenMapping];
            let mut i: usize = 0;
            while i < entries.len()
                invariant
                    i <= entries.len(),
                    members == entry_views(entries@),
                    step_views(steps@) == opened + entry_steps(members.take(i as int)),
                    graph is Mapping,
                    graph->Mapping_0 == *entries,
                decreases entries.len() - i,
            {
                let ghost so_far = step_views(steps@);
                unfold(&entries[i].1, steps);
                steps.push(Step::Insert(entries[i].0.clone()));
                proof {
                    assert(members.take(i + 1).drop_last() =~= members.take(i as int));
                    assert(members.take(i + 1).last() == (
                        entries@[i as int].0@,
                        entries@[i as int].1@,
                    ));
                    assert(step_views(steps@) =~= so_far + steps_for(entries@[i as int].1@)
                        + seq![StepView::Insert(entries@[i as int].0@)]);
                }
                i += 1;
            }
            proof {
                assert(members.take(i as int) =~= members);
            }
        },
    }
}

} // verus!
