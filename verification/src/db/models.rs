//! Rows of the first central-repository database.

use vstd::prelude::*;

verus! {

/// An example of a cluster: a raw event and the ids of the events that
/// carried it.
#[derive(Debug)]
pub struct Example {
    pub raw_event: String,
    pub event_ids: Vec<u64>,
}

} // verus!
