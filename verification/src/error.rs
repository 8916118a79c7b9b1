//! The ways in which an operation on the ledger can be turned down.

use vstd::prelude::*;

verus! {

/// Why an operation was refused. A refused operation changes nothing.
#[derive(Clone, Copy, Debug, PartialEq, Eq, Structural)]
pub enum ContractError {
    /// The caller is not on the allow list.
    PermissionDenied,
    /// Stage numbers start at one.
    InvalidStage,
    /// The stage or the score entry asked for does not exist.
    NotFound,
    /// The stage is closed to score changes.
    StageFinalized,
    /// More was to be taken than the user or the stage holds.
    InsufficientScore,
    /// The user has no score entry in the stage.
    UserNotFound,
    /// A stage total would drop below zero.
    Underflow,
    /// A score or a stage total would exceed `u64::MAX`.
    Overflow,
    /// A stored value that the operation had to read could not be decoded.
    Undecodable,
}

impl ContractError {
    /// The text that goes with each kind of refusal.
    pub open spec fn text(self) -> Seq<char> {
        match self {
            ContractError::PermissionDenied => "Address is not allowed"@,
            ContractError::InvalidStage => "Stage can not be zero"@,
            ContractError::NotFound => "Stage not found"@,
            ContractError::StageFinalized => "Stage finalized"@,
            ContractError::InsufficientScore => "Insufficient score"@,
            ContractError::UserNotFound => "User score not found"@,
            ContractError::Underflow => "Stage total underflow"@,
            ContractError::Overflow => "Score overflow"@,
            ContractError::Undecodable => "Stored value can not be decoded"@,
        }
    }

    /// The message a caller is shown for this refusal.
    pub fn message(&self) -> (r: String)
        ensures
            r@ == self.text(),
    {
        match self {
            ContractError::PermissionDenied => "Address is not allowed".to_owned(),
            ContractError::InvalidStage => "Stage can not be zero".to_owned(),
            ContractError::NotFound => "Stage not found".to_owned(),
            ContractError::StageFinalized => "Stage finalized".to_owned(),
            ContractError::InsufficientScore => "Insufficient score".to_owned(),
            ContractError::UserNotFound => "User score not found".to_owned(),
            ContractError::Underflow => "Stage total underflow".to_owned(),
            ContractError::Overflow => "Score overflow".to_owned(),
            ContractError::Undecodable => "Stored value can not be decoded".to_owned(),
        }
    }
}

} // verus!
