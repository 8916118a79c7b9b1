//! The messages that the contract takes and the answers it gives.

use vstd::prelude::*;
use crate::state::StageInfo;

verus! {

/// What the contract is set up with: the addresses first allowed to change
/// the ledger.
#[derive(Clone, Debug, PartialEq, Eq)]
pub struct InstantiateMsg {
    pub allow_list: Vec<String>,
}

/// A change to the ledger.
#[derive(Clone, Debug, PartialEq, Eq)]
pub enum ExecuteMsg {
    PrepareStage { stage: u64 },
    FinalizeStage { stage: u64 },
    IncreaseScore { addr: String, stage: u64, amount: u64 },
    DecreaseScore { addr: String, stage: u64, amount: u64 },
    UpdateScore { addr: String, stage: u64, amount: u64 },
    UpdateScores { stage: u64, scores: Vec<(String, u64)> },
    AddAllowList { addr: String },
    RemoveAllowList { addr: String },
}

/// A question to the ledger.
#[derive(Clone, Debug, PartialEq, Eq)]
pub enum QueryMsg {
    GetScore { addr: String, stage: u64 },
    GetScores { stage: u64, limit: u8, start_after: Option<String> },
    GetStageInfo { stage: u64 },
}

/// The score of one user in one stage.
#[derive(Clone, Debug, PartialEq, Eq)]
pub struct UserScore {
    pub stage: u64,
    pub addr: String,
    pub score: u64,
}

/// A page of scores, in the order of their keys.
#[derive(Clone, Debug, PartialEq, Eq)]
pub struct UserScores {
    pub scores: Vec<UserScore>,
}

/// The answer to a question, by the kind of question asked.
#[derive(Clone, Debug, PartialEq, Eq)]
pub enum QueryResponse {
    Score(UserScore),
    Scores(UserScores),
    StageInfo(StageInfo),
}

/// The addresses of a list, each as the text it holds.
pub open spec fn addr_views(addrs: Seq<String>) -> Seq<Seq<char>> {
    addrs.map_values(|addr: String| addr@)
}

/// The entries of a batch, each as the address text and the amount.
pub open spec fn entry_views(entries: Seq<(String, u64)>) -> Seq<(Seq<char>, u64)> {
    entries.map_values(|entry: (String, u64)| (entry.0@, entry.1))
}

} // verus!
