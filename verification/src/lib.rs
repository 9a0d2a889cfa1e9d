//! Text-density bookkeeping for HTML documents.
use vstd::prelude::*;

pub mod dom;
pub mod laws;
pub mod node_info;
pub mod page;
pub mod string;

verus! {

} // verus!
