// Ingestion of profile-view snapshots: the edge list is extracted from a JSON
// document (json), each node is decoded (dto), its relative date is resolved
// against the snapshot instant (date), it is mapped to a record (converter)
// and written with an upsert keyed on (viewer, view time) (raw), one batch at
// a time (import). The laws module states what holds across these steps.
use vstd::prelude::*;

pub mod converter;
pub mod date;
pub mod dto;
pub mod import;
pub mod json;
pub mod laws;
pub mod raw;
pub mod routes;
pub mod schema;

verus! {

} // verus!
