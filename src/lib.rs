//! Fractional ownership of one indivisible asset, with weighted sale motions,
//! a two-phase settlement of the asset hand-off, and pro-rata cashout.
//!
//! The contract state machine takes the calling account, the attached deposit
//! and the outcome of the external hand-off as plain values, and answers with
//! the payments and hand-off requests that the runtime has to carry out.
pub mod contract;
pub mod error;
pub mod keyed;
pub mod ledger;
pub mod motion;
pub mod votes;

pub use contract::{
    AssetHandOff, Fungifier, FungifierParts, Payment, SaleOutcome, Settlement, MOTION_DEPOSIT, PRECISION,
    REGISTRATION_DEPOSIT,
};
pub use error::FungifierError;
pub use ledger::Ledger;
pub use motion::{MiscMotion, Motion, SaleMotion};
pub use votes::{VoteChoice, Votes};
