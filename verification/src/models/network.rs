//! Virtual cloud networks.

use vstd::prelude::*;

verus! {

/// One virtual cloud network, as the service lists it.
#[derive(Debug, Clone, PartialEq, Eq)]
pub struct Vcn {
    /// The network's identifier.
    pub id: String,
    /// The name shown to users.
    pub display_name: String,
    /// The address block.
    pub cidr_block: Option<String>,
    /// The lifecycle state.
    pub lifecycle_state: String,
    /// When the network was created.
    pub time_created: Option<String>,
}

} // verus!
