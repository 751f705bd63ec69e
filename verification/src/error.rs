//! The ways in which a materialization fails.

use vstd::prelude::*;

verus! {

/// Why no host object graph was produced.
///
/// Every failure is final for the whole conversion: no partial graph is ever
/// handed out in its place.
#[derive(Clone, Copy, Debug, PartialEq, Eq, Structural)]
pub enum MaterializeError {
    /// The text is not a JSON document.
    Parse,
    /// The document nests containers deeper than the limit allows.
    DepthExceeded,
    /// The document holds a node outside the JSON value model: a number
    /// without a double-precision value.
    InvariantViolation,
    /// The host failed to allocate or populate a container.
    Allocation,
}

} // verus!
