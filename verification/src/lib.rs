//! A multi-asset ledger: a registry of assets, a table of balances and an
//! allocator of asset identifiers, with the three transitions that create
//! assets, destroy units and move units between accounts.
//!
//! Every transition is total and all-or-nothing: it either succeeds and
//! reports the resulting quantity, or returns a typed error and leaves the
//! ledger as it was. Requested amounts that exceed what an account holds are
//! clipped to the holding rather than rejected.

pub mod types;
pub mod model;
pub mod allocator;
pub mod balances;
pub mod registry;
pub mod rules;
pub mod state;
pub mod laws;
pub mod pallet;

pub use pallet::Pallet;
pub use types::{AccountId, Error, Event, UniqueAssetDetails, UniqueAssetId};
