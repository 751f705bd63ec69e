//! Materializes parsed JSON documents as host object graphs.
//!
//! A JSON document arrives as a `serde_json::Value`, or as text that
//! `serde_json` parses. The materializer walks it depth first and rebuilds it
//! as a [`HostValue`]: the dynamically typed graph of scalars, index-ordered
//! sequences and key-ordered mappings that a host environment works with.
//! For a host that allocates its own values, a graph unfolds into the steps
//! that build it there, handed out one by one by a [`Session`].

pub mod error;
pub mod host;
pub mod json;
pub mod laws;
pub mod materialize;
pub mod plan;
pub mod session;

pub use crate::error::MaterializeError;
pub use crate::host::HostValue;
pub use crate::materialize::{
    materialize, materialize_array, materialize_object, materialize_parsed, materialize_text,
    DEFAULT_MAX_DEPTH,
};
pub use crate::plan::{plan, Step};
pub use crate::session::{Action, Event, Session};
