// Governance of a community fund: funding proposals, token-weighted votes with a fixed window,
// two-of-three admin approval of large requests, and a vault that pays out finalized proposals.
//
// state: records and their mathematical views; errors: why an operation is refused;
// admin, proposal, vault: the operations on single records, each with the exact outcome it has;
// ledger: the address space that holds every record, at most one per seed tuple;
// laws: properties of the operations that span several calls.

pub mod admin;
pub mod errors;
pub mod laws;
pub mod ledger;
pub mod proposal;
pub mod state;
pub mod vault;
