//! Crowdfunding escrow: campaigns collect pledges toward a goal before a
//! deadline; funds are custodied by the campaign record itself and released
//! either to the creator (goal met) or back to the donors (goal missed).
pub mod derivation;
pub mod errors;
pub mod escrow;
pub mod laws;
pub mod ledger;
pub mod state;
