//! Navigation of an NTFS volume's directory tree and planning of data-stream
//! extraction: a stack of open directories, a resolver that consumes
//! backslash-separated paths one component at a time, record-number
//! addressing, and the decisions of a batch of independent extraction jobs.
//! Reading the volume is left to the caller, which answers the resolver's
//! lookups.
use vstd::prelude::*;

pub mod batch;
pub mod extract;
pub mod nav;
pub mod path;
pub mod record;
pub mod resolve;

verus! {

} // verus!
