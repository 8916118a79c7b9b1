//! The stored state: what a stage is, and where the tables of a contract lie.

use vstd::prelude::*;
use cosmwasm_std::MemoryStorage;
use crate::error::ContractError;
use crate::ledger::Ledger;
use crate::store::{allow_rows, namespace_fits, score_rows, stage_rows, StageRow};

verus! {

/// A scoring round: its number, the sum of its users' scores, and whether it
/// is closed to further score changes.
#[derive(Clone, Copy, Debug, PartialEq, Eq, Structural)]
pub struct StageInfo {
    pub stage: u64,
    pub total_score: u64,
    pub is_finalized: bool,
}

impl StageInfo {
    /// A stage as it is when first opened: nothing scored, not final.
    pub open spec fn fresh(stage: u64) -> StageInfo {
        StageInfo { stage, total_score: 0, is_finalized: false }
    }

    /// The stage as it is stored.
    pub open spec fn as_row(self) -> StageRow {
        (self.stage, self.total_score, self.is_finalized)
    }

    /// The stage that a stored row stands for.
    pub open spec fn of_row(row: StageRow) -> StageInfo {
        StageInfo { stage: row.0, total_score: row.1, is_finalized: row.2 }
    }

    /// The stage after its total changed by `delta`.
    pub open spec fn with_total_delta(self, delta: int) -> Result<StageInfo, ContractError> {
        if self.total_score + delta < 0 {
            Err(ContractError::Underflow)
        } else if self.total_score + delta > u64::MAX {
            Err(ContractError::Overflow)
        } else {
            Ok(StageInfo { total_score: (self.total_score + delta) as u64, ..self })
        }
    }

    /// A newly opened stage.
    pub fn new(stage: u64) -> (r: StageInfo)
        ensures
            r == StageInfo::fresh(stage),
    {
        StageInfo { stage, total_score: 0, is_finalized: false }
    }

    /// The row to store for this stage.
    pub fn to_row(&self) -> (row: StageRow)
        ensures
            row == self.as_row(),
    {
        (self.stage, self.total_score, self.is_finalized)
    }

    /// The stage read from a stored row.
    pub fn from_row(row: StageRow) -> (r: StageInfo)
        ensures
            r == StageInfo::of_row(row),
    {
        StageInfo { stage: row.0, total_score: row.1, is_finalized: row.2 }
    }

    /// Adds a signed change to the total: `Underflow` where the total would
    /// drop below zero, `Overflow` where it would not fit, else the stage with
    /// the new total and nothing else changed.
    pub fn apply_total_delta(&self, delta: i128) -> (r: Result<StageInfo, ContractError>)
        ensures
            r == self.with_total_delta(delta as int),
    {
        if delta >= 0 {
            if delta > (u64::MAX - self.total_score) as i128 {
                Err(ContractError::Overflow)
            } else {
                Ok(
                    StageInfo {
                        stage: self.stage,
                        total_score: self.total_score + delta as u64,
                        is_finalized: self.is_finalized,
                    },
                )
            }
        } else {
            if delta < -(self.total_score as i128) {
                Err(ContractError::Underflow)
            } else {
                Ok(
                    StageInfo {
                        stage: self.stage,
                        total_score: self.total_score - ((-delta) as u64),
                        is_finalized: self.is_finalized,
                    },
                )
            }
        }
    }
}

/// What a stored stage row stands for; `None` for one that does not decode.
pub open spec fn stage_view(row: Option<StageRow>) -> Option<StageInfo> {
    match row {
        Some(row) => Some(StageInfo::of_row(row)),
        None => None,
    }
}

/// The handle of a ledger: the namespaces under which its three tables lie in
/// a storage. The namespaces differ from each other, so the tables never
/// share a key.
pub struct Contract<'a> {
    scores: &'a str,
    stages: &'a str,
    allow_list: &'a str,
}

impl<'a> Contract<'a> {
    #[verifier::type_invariant]
    spec fn namespaces_apart(self) -> bool {
        &&& namespace_fits(self.scores@)
        &&& namespace_fits(self.stages@)
        &&& namespace_fits(self.allow_list@)
        &&& self.scores@ != self.stages@
        &&& self.scores@ != self.allow_list@
        &&& self.stages@ != self.allow_list@
    }

    /// The namespace of the score table.
    pub closed spec fn scores_key(self) -> Seq<char> {
        self.scores@
    }

    /// The namespace of the stage table.
    pub closed spec fn stages_key(self) -> Seq<char> {
        self.stages@
    }

    /// The namespace of the allow list.
    pub closed spec fn allow_list_key(self) -> Seq<char> {
        self.allow_list@
    }

    /// The ledger that this contract has in `store`.
    pub open spec fn ledger(self, store: MemoryStorage) -> Ledger {
        Ledger {
            allow_list: allow_rows(store, self.allow_list_key()),
            stages: stage_rows(store, self.stages_key()).map_values(
                |row: Option<StageRow>| stage_view(row),
            ),
            scores: score_rows(store, self.scores_key()),
        }
    }

    /// The namespaces of the score table, the stage table and the allow list,
    /// in this order.
    pub(crate) fn namespaces(&self) -> (r: (&'a str, &'a str, &'a str))
        ensures
            r.0@ == self.scores_key(),
            r.1@ == self.stages_key(),
            r.2@ == self.allow_list_key(),
            namespace_fits(r.0@),
            namespace_fits(r.1@),
            namespace_fits(r.2@),
            r.0@ != r.1@,
            r.0@ != r.2@,
            r.1@ != r.2@,
    {
        proof {
            use_type_invariant(self);
        }
        (self.scores, self.stages, self.allow_list)
    }

    /// A contract with its tables under the given namespaces.
    pub(crate) fn new(scores_key: &'a str, stages_key: &'a str, allow_list_key: &'a str) -> (r:
        Self)
        requires
            namespace_fits(scores_key@),
            namespace_fits(stages_key@),
            namespace_fits(allow_list_key@),
            scores_key@ != stages_key@,
            scores_key@ != allow_list_key@,
            stages_key@ != allow_list_key@,
        ensures
            r.scores_key() == scores_key@,
            r.stages_key() == stages_key@,
            r.allow_list_key() == allow_list_key@,
    {
        Self { scores: scores_key, stages: stages_key, allow_list: allow_list_key }
    }
}

impl Default for Contract<'static> {
    /// The contract with its tables under `scores`, `stages` and `allow_list`.
    fn default() -> (r: Self)
        ensures
            r.scores_key() == "scores"@,
            r.stages_key() == "stages"@,
            r.allow_list_key() == "allow_list"@,
    {
        proof {
            reveal_strlit("scores");
            reveal_strlit("stages");
            reveal_strlit("allow_list");
            vstd::utf8::is_ascii_chars_encode_utf8("scores"@);
            vstd::utf8::is_ascii_chars_encode_utf8("stages"@);
            vstd::utf8::is_ascii_chars_encode_utf8("allow_list"@);
            assert("scores"@[1] != "stages"@[1]);
        }
        Contract::new("scores", "stages", "allow_list")
    }
}

} // verus!
