//! Listing the catalog: the arguments of a list invocation. The overview
//! and per-collection tables are rendered by a collaborator outside the
//! library, from the catalog's own query surface.

use vstd::prelude::*;

verus! {

/// The arguments of a list invocation: a collection to show in full, or
/// nothing for the overview of all collections.
#[derive(Debug, Clone)]
pub struct ListArgs {
    pub collection_id: Option<String>,
}

impl ListArgs {
    pub fn new(collection_id: Option<String>) -> (r: ListArgs)
        ensures
            r.collection_id == collection_id,
    {
        ListArgs { collection_id }
    }
}

} // verus!
