//! What a node does with a search query it receives over gossip.

use vstd::prelude::*;
use crate::storage::Query;

verus! {

/// Handles a search query received over gossip: gives back the query to
/// forward to the node's RPC endpoint. Every received query is forwarded as
/// it came, with no filtering, so the endpoint may see duplicate or expired
/// queries.
pub fn handle_received_query(query: Query) -> (forwarded: Query)
    ensures
        forwarded == query,
{
    query
}

} // verus!
