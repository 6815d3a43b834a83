//! Process settings the library's callers pass around.
use vstd::prelude::*;

verus! {

/// Where the node's RPC endpoint and the store live.
pub struct VialyticsConfig {
    pub rpc_url: String,
    pub db_url: String,
}

} // verus!
