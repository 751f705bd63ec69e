//! A session with a host: which step the host performs next, and what
//! becomes of the work when the host fails one.

use crate::error::MaterializeError;
use crate::host::HostValue;
use crate::plan::{plan, steps_for, Step, StepView};
use vstd::prelude::*;

verus! {

/// What the host has to say when it asks what to do next.
#[derive(Clone, Copy, Debug, PartialEq, Eq, Structural)]
pub enum Event {
    /// The host is ready: nothing was asked of it yet, or it has performed
    /// the step it was given.
    Ready,
    /// The host could not perform the step it was given.
    Failed,
}

/// What the host is to do next.
#[derive(Debug, PartialEq, Eq)]
pub enum Action {
    /// Perform this step, then say how it went.
    Perform(Step),
    /// Nothing is left to do: the graph is the one value on the host's stack.
    Finish,
    /// Give the work up and discard what was built.
    Abort(MaterializeError),
}

/// The building of one graph in a host, step by step.
///
/// A session hands out the steps of the graph in order. The first failure of
/// the host aborts it for good: it hands out no further step, so a graph is
/// built whole or not at all.
pub struct Session {
    /// The steps not yet handed out, last first.
    remaining: Vec<Step>,
    aborted: bool,
}

impl Session {
    /// The steps not yet handed out, in the order in which they are due.
    pub closed spec fn pending(&self) -> Seq<StepView> {
        Seq::new(
            self.remaining@.len(),
            |i: int| self.remaining@[self.remaining@.len() - 1 - i]@,
        )
    }

    /// The host has failed a step.
    pub closed spec fn aborted(&self) -> bool {
        self.aborted
    }

    /// Opens a session that builds `graph`.
    pub fn new(graph: &HostValue) -> (session: Session)
        ensures
            session.pending() == steps_for(graph@),
            !session.aborted(),
    {
        let mut forward = plan(graph);
        let ghost steps = forward@;
        let mut remaining: Vec<Step> = Vec::new();
        while forward.len() > 0
            invariant
                forward@.len() + remaining@.len() == steps.len(),
                forward@ == steps.take(forward@.len() as int),
                forall|k: int|
                    0 <= k < remaining@.len() ==> remaining@[k] == steps[steps.len() - 1 - k],
            decreases forward.len(),
        {
            let step = forward.pop().unwrap();
            remaining.push(step);
        }
        Session { remaining, aborted: false }
    }

    /// Takes what the host has to say and answers what it is to do next.
    ///
    /// After a failure, now or earlier, the answer is to abort with
    /// `Allocation`, and nothing else changes. Otherwise the answer is the
    /// next pending step, which is then no longer pending, or to finish where
    /// none is left.
    pub fn advance(&mut self, event: Event) -> (action: Action)
        ensures
            action is Abort <==> event is Failed || old(self).aborted(),
            action is Perform <==> event is Ready && !old(self).aborted()
                && old(self).pending().len() > 0,
            action is Finish <==> event is Ready && !old(self).aborted()
                && old(self).pending().len() == 0,
            action matches Action::Abort(error) ==> error == MaterializeError::Allocation,
            action matches Action::Perform(step) ==> step@ == old(self).pending()[0],
            action is Perform ==> final(self).pending() == old(self).pending().drop_first(),
            !(action is Perform) ==> final(self).pending() == old(self).pending(),
            final(self).aborted() <==> event is Failed || old(self).aborted(),
    {
        if let Event::Failed = event {
            self.aborted = true;
        }
        if self.aborted {
            return Action::Abort(MaterializeError::Allocation);
        }
        match self.remaining.pop() {
            Some(step) => Action::Perform(step),
            None => Action::Finish,
        }
    }
}

} // verus!
