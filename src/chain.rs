use vstd::prelude::*;

verus! {

/// The chain-spec extensions of a container chain: which relay chain it
/// runs under and its parachain id.
#[derive(Debug, Clone, PartialEq)]
pub struct Extensions {
    /// The relay chain of the parachain.
    pub relay_chain: String,
    /// The id of the parachain.
    pub para_id: u32,
}

} // verus!
