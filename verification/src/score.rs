//! The arithmetic of one score entry.
//!
//! A user without an entry counts as having a score of zero when a score is
//! raised or set, and as unknown when one is lowered.

use vstd::prelude::*;
use crate::error::ContractError;

verus! {

/// The score that a change starts from: the stored one, or zero without an entry.
pub open spec fn prior_score(prior: Option<u64>) -> nat {
    match prior {
        Some(score) => score as nat,
        None => 0,
    }
}

/// What raising a score by `amount` gives.
pub open spec fn increased(prior: Option<u64>, amount: u64) -> Result<u64, ContractError> {
    if prior_score(prior) + amount <= u64::MAX {
        Ok((prior_score(prior) + amount) as u64)
    } else {
        Err(ContractError::Overflow)
    }
}

/// What lowering a score by `amount` gives.
pub open spec fn decreased(prior: Option<u64>, amount: u64) -> Result<u64, ContractError> {
    match prior {
        None => Err(ContractError::UserNotFound),
        Some(score) => if amount > score {
            Err(ContractError::InsufficientScore)
        } else {
            Ok((score - amount) as u64)
        },
    }
}

/// By how much setting a score to `amount` changes it.
pub open spec fn set_delta(prior: Option<u64>, amount: u64) -> int {
    amount - prior_score(prior)
}

/// Raises a score by `amount`: the new score, or `Overflow` where it would not
/// fit.
pub fn increase(prior: Option<u64>, amount: u64) -> (r: Result<u64, ContractError>)
    ensures
        r == increased(prior, amount),
{
    let base = match prior {
        Some(score) => score,
        None => 0,
    };
    match base.checked_add(amount) {
        Some(score) => Ok(score),
        None => Err(ContractError::Overflow),
    }
}

/// Lowers a score by `amount`: the new score, `UserNotFound` without an entry,
/// `InsufficientScore` where the entry holds less than `amount`.
pub fn decrease(prior: Option<u64>, amount: u64) -> (r: Result<u64, ContractError>)
    ensures
        r == decreased(prior, amount),
{
    match prior {
        None => Err(ContractError::UserNotFound),
        Some(score) => if amount > score {
            Err(ContractError::InsufficientScore)
        } else {
            Ok(score - amount)
        },
    }
}

/// Sets a score to `amount`: the new score and the signed change against the
/// score before, which the stage total has to follow.
pub fn set(prior: Option<u64>, amount: u64) -> (r: (u64, i128))
    ensures
        r.0 == amount,
        r.1 == set_delta(prior, amount),
{
    let base = match prior {
        Some(score) => score,
        None => 0,
    };
    (amount, amount as i128 - base as i128)
}

} // verus!
