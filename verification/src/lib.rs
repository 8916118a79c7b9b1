//! A permissioned, staged score ledger kept in a CosmWasm key-value storage.
//!
//! Scores are counted per user inside numbered stages. Only callers on the
//! allow list may change anything; a stage is opened by the first change that
//! names it and is closed for good by finalizing it. Every operation either
//! completes and reports its events or leaves the storage untouched.

pub mod balance;
pub mod batch;
pub mod error;
pub mod event;
pub mod execute;
pub mod keys;
pub mod laws;
pub mod ledger;
pub mod msgs;
pub mod order;
pub mod query;
pub mod score;
pub mod state;
pub mod store;
pub mod tally;

pub use crate::error::ContractError;
pub use crate::event::generate_update_score_event;
pub use crate::keys::user_score_key;
pub use crate::msgs::{ExecuteMsg, InstantiateMsg, QueryMsg, QueryResponse, UserScore, UserScores};
pub use crate::state::{Contract, StageInfo};
