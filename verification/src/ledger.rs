//! The ledger as a mathematical object, and what each operation makes of it.
//!
//! Every operation of the contract is stated here as a function from the
//! ledger before and the operation's arguments to either a refusal or the
//! ledger after together with the events reported. The executable operations
//! promise to do exactly this to the storage.

use vstd::prelude::*;
use crate::error::ContractError;
use crate::event::{
    add_allow_list_view, finalize_stage_view, prepare_stage_view, remove_allow_list_view,
    update_score_view, EventView,
};
use crate::keys::score_key;
use crate::msgs::{entry_views, ExecuteMsg};
use crate::score::{decreased, increased, set_delta};
use crate::state::StageInfo;

verus! {

/// The whole ledger as the operations see it.
#[verifier::ext_equal]
pub struct Ledger {
    /// The addresses that may change the ledger.
    pub allow_list: Set<Seq<char>>,
    /// The stages by number. `None` marks a stored value that does not decode.
    pub stages: Map<u64, Option<StageInfo>>,
    /// The scores by key (see `keys::score_key`). `None` marks a stored value
    /// that does not decode.
    pub scores: Map<Seq<u8>, Option<u64>>,
}

/// What a successful operation leaves: the ledger after it and the events it
/// reports, in order.
#[verifier::ext_equal]
pub struct Step {
    pub next: Ledger,
    pub events: Seq<EventView>,
}

/// The stage a score change works on, and whether the change opens it.
pub struct Opened {
    pub info: StageInfo,
    pub created: bool,
}

impl Opened {
    /// The events that opening reports: one for a new stage, none otherwise.
    pub open spec fn events(self, stage: u64) -> Seq<EventView> {
        if self.created {
            seq![prepare_stage_view(stage)]
        } else {
            Seq::empty()
        }
    }
}

impl Ledger {
    /// Whether `addr` may change the ledger.
    pub open spec fn allows(self, addr: Seq<char>) -> bool {
        self.allow_list.contains(addr)
    }

    /// The stage stored under `stage`, if any.
    pub open spec fn stage(self, stage: u64) -> Result<Option<StageInfo>, ContractError> {
        if !self.stages.dom().contains(stage) {
            Ok(None)
        } else {
            match self.stages[stage] {
                Some(info) => Ok(Some(info)),
                None => Err(ContractError::Undecodable),
            }
        }
    }

    /// The score stored under `key`, if any.
    pub open spec fn score_at(self, key: Seq<u8>) -> Result<Option<u64>, ContractError> {
        if !self.scores.dom().contains(key) {
            Ok(None)
        } else {
            match self.scores[key] {
                Some(score) => Ok(Some(score)),
                None => Err(ContractError::Undecodable),
            }
        }
    }

    /// The ledger with `info` stored under `stage`.
    pub open spec fn with_stage(self, stage: u64, info: StageInfo) -> Ledger {
        Ledger { stages: self.stages.insert(stage, Some(info)), ..self }
    }

    /// The ledger with one score written.
    pub open spec fn with_score(self, key: Seq<u8>, score: u64) -> Ledger {
        Ledger { scores: self.scores.insert(key, Some(score)), ..self }
    }

    /// The stage that a change to `stage` works on: the stored one, or a
    /// fresh one where there is none yet. Stage zero is never opened.
    pub open spec fn opened(self, stage: u64) -> Result<Opened, ContractError> {
        if stage == 0 {
            Err(ContractError::InvalidStage)
        } else {
            match self.stage(stage) {
                Err(e) => Err(e),
                Ok(None) => Ok(Opened { info: StageInfo::fresh(stage), created: true }),
                Ok(Some(info)) => Ok(Opened { info, created: false }),
            }
        }
    }

    /// Opens `stage` if it is not there yet; reports the opening and nothing
    /// else.
    pub open spec fn prepared(self, stage: u64) -> Result<Step, ContractError> {
        match self.opened(stage) {
            Err(e) => Err(e),
            Ok(opened) => Ok(
                Step {
                    next: if opened.created {
                        self.with_stage(stage, opened.info)
                    } else {
                        self
                    },
                    events: opened.events(stage),
                },
            ),
        }
    }

    /// Seeds the allow list with `addrs`, one event per address in order.
    pub open spec fn instantiate(self, addrs: Seq<Seq<char>>) -> Step
        decreases addrs.len(),
    {
        if addrs.len() == 0 {
            Step { next: self, events: Seq::empty() }
        } else {
            let before = self.instantiate(addrs.drop_last());
            Step {
                next: Ledger {
                    allow_list: before.next.allow_list.insert(addrs.last()),
                    ..before.next
                },
                events: before.events.push(add_allow_list_view(addrs.last())),
            }
        }
    }

    /// `sender` puts `addr` on the allow list.
    pub open spec fn add_allow_list(self, sender: Seq<char>, addr: Seq<char>) -> Result<
        Step,
        ContractError,
    > {
        if !self.allows(sender) {
            Err(ContractError::PermissionDenied)
        } else {
            Ok(
                Step {
                    next: Ledger { allow_list: self.allow_list.insert(addr), ..self },
                    events: seq![add_allow_list_view(addr)],
                },
            )
        }
    }

    /// `sender` takes `addr` off the allow list.
    pub open spec fn remove_allow_list(self, sender: Seq<char>, addr: Seq<char>) -> Result<
        Step,
        ContractError,
    > {
        if !self.allows(sender) {
            Err(ContractError::PermissionDenied)
        } else {
            Ok(
                Step {
                    next: Ledger { allow_list: self.allow_list.remove(addr), ..self },
                    events: seq![remove_allow_list_view(addr)],
                },
            )
        }
    }

    /// `sender` opens `stage`.
    pub open spec fn prepare_stage(self, sender: Seq<char>, stage: u64) -> Result<
        Step,
        ContractError,
    > {
        if !self.allows(sender) {
            Err(ContractError::PermissionDenied)
        } else {
            self.prepared(stage)
        }
    }

    /// `sender` closes `stage` to score changes.
    pub open spec fn finalize_stage(self, sender: Seq<char>, stage: u64) -> Result<
        Step,
        ContractError,
    > {
        if !self.allows(sender) {
            Err(ContractError::PermissionDenied)
        } else {
            match self.stage(stage) {
                Err(e) => Err(e),
                Ok(None) => Err(ContractError::NotFound),
                Ok(Some(info)) => Ok(
                    Step {
                        next: self.with_stage(stage, StageInfo { is_finalized: true, ..info }),
                        events: seq![finalize_stage_view(stage)],
                    },
                ),
            }
        }
    }

    /// The stage that `sender` may change scores in: opened, and not final.
    pub open spec fn open_for(self, sender: Seq<char>, stage: u64) -> Result<
        Opened,
        ContractError,
    > {
        if !self.allows(sender) {
            Err(ContractError::PermissionDenied)
        } else {
            match self.opened(stage) {
                Err(e) => Err(e),
                Ok(opened) => if opened.info.is_finalized {
                    Err(ContractError::StageFinalized)
                } else {
                    Ok(opened)
                },
            }
        }
    }

    /// The ledger after the score of `addr` in `stage` became `score` and the
    /// stage became `info`, with the event that reports it.
    pub open spec fn scored(self, addr: Seq<char>, stage: u64, info: StageInfo, score: u64) -> Step {
        Step {
            next: self.with_score(score_key(addr, stage), score).with_stage(stage, info),
            events: seq![update_score_view(addr, stage, score, info.total_score)],
        }
    }

    /// `sender` raises the score of `addr` in `stage` by `amount`.
    pub open spec fn increase_score(
        self,
        sender: Seq<char>,
        addr: Seq<char>,
        stage: u64,
        amount: u64,
    ) -> Result<Step, ContractError> {
        match self.open_for(sender, stage) {
            Err(e) => Err(e),
            Ok(opened) => match self.score_at(score_key(addr, stage)) {
                Err(e) => Err(e),
                Ok(prior) => match increased(prior, amount) {
                    Err(e) => Err(e),
                    Ok(score) => if opened.info.total_score + amount > u64::MAX {
                        Err(ContractError::Overflow)
                    } else {
                        let info = StageInfo {
                            total_score: (opened.info.total_score + amount) as u64,
                            ..opened.info
                        };
                        let step = self.scored(addr, stage, info, score);
                        Ok(Step { next: step.next, events: opened.events(stage) + step.events })
                    },
                },
            },
        }
    }

    /// `sender` lowers the score of `addr` in `stage` by `amount`.
    pub open spec fn decrease_score(
        self,
        sender: Seq<char>,
        addr: Seq<char>,
        stage: u64,
        amount: u64,
    ) -> Result<Step, ContractError> {
        match self.open_for(sender, stage) {
            Err(e) => Err(e),
            Ok(opened) => match self.score_at(score_key(addr, stage)) {
                Err(e) => Err(e),
                Ok(prior) => match decreased(prior, amount) {
                    Err(e) => Err(e),
                    Ok(score) => if amount > opened.info.total_score {
                        Err(ContractError::InsufficientScore)
                    } else {
                        let info = StageInfo {
                            total_score: (opened.info.total_score - amount) as u64,
                            ..opened.info
                        };
                        let step = self.scored(addr, stage, info, score);
                        Ok(Step { next: step.next, events: opened.events(stage) + step.events })
                    },
                },
            },
        }
    }

    /// The score of `addr` in `stage`, which stands at `info`, is set to
    /// `amount`, and the stage total follows by the difference.
    pub open spec fn set_score(
        self,
        stage: u64,
        info: StageInfo,
        addr: Seq<char>,
        amount: u64,
    ) -> Result<(Step, StageInfo), ContractError> {
        match self.score_at(score_key(addr, stage)) {
            Err(e) => Err(e),
            Ok(prior) => match info.with_total_delta(set_delta(prior, amount)) {
                Err(e) => Err(e),
                Ok(after) => Ok((self.scored(addr, stage, after, amount), after)),
            },
        }
    }

    /// `sender` sets the score of `addr` in `stage` to `amount`.
    pub open spec fn update_score(
        self,
        sender: Seq<char>,
        addr: Seq<char>,
        stage: u64,
        amount: u64,
    ) -> Result<Step, ContractError> {
        match self.open_for(sender, stage) {
            Err(e) => Err(e),
            Ok(opened) => match self.set_score(stage, opened.info, addr, amount) {
                Err(e) => Err(e),
                Ok((step, _)) => Ok(
                    Step { next: step.next, events: opened.events(stage) + step.events },
                ),
            },
        }
    }

    /// The scores of `stage`, which stands at `info`, are set one after the
    /// other, each on the ledger that the ones before it left.
    pub open spec fn set_scores(
        self,
        stage: u64,
        info: StageInfo,
        entries: Seq<(Seq<char>, u64)>,
    ) -> Result<(Step, StageInfo), ContractError>
        decreases entries.len(),
    {
        if entries.len() == 0 {
            Ok((Step { next: self, events: Seq::empty() }, info))
        } else {
            match self.set_scores(stage, info, entries.drop_last()) {
                Err(e) => Err(e),
                Ok((before, info)) => match before.next.set_score(
                    stage,
                    info,
                    entries.last().0,
                    entries.last().1,
                ) {
                    Err(e) => Err(e),
                    Ok((step, info)) => Ok(
                        (Step { next: step.next, events: before.events + step.events }, info),
                    ),
                },
            }
        }
    }

    /// `sender` sets the scores of several users in `stage`, all or none.
    pub open spec fn update_scores(
        self,
        sender: Seq<char>,
        stage: u64,
        entries: Seq<(Seq<char>, u64)>,
    ) -> Result<Step, ContractError> {
        match self.open_for(sender, stage) {
            Err(e) => Err(e),
            Ok(opened) => match self.prepared(stage).unwrap().next.set_scores(
                stage,
                opened.info,
                entries,
            ) {
                Err(e) => Err(e),
                Ok((step, _)) => Ok(
                    Step { next: step.next, events: opened.events(stage) + step.events },
                ),
            },
        }
    }

    /// The score of `addr` in the existing, open stage `stage` is set to
    /// `amount`.
    pub open spec fn update_score_internal(self, stage: u64, addr: Seq<char>, amount: u64) -> Result<
        Step,
        ContractError,
    > {
        match self.stage(stage) {
            Err(e) => Err(e),
            Ok(None) => Err(ContractError::NotFound),
            Ok(Some(info)) => if info.is_finalized {
                Err(ContractError::StageFinalized)
            } else {
                match self.set_score(stage, info, addr, amount) {
                    Err(e) => Err(e),
                    Ok((step, _)) => Ok(step),
                }
            },
        }
    }

    /// `sender` has the change `msg` made.
    pub open spec fn execute(self, sender: Seq<char>, msg: ExecuteMsg) -> Result<
        Step,
        ContractError,
    > {
        match msg {
            ExecuteMsg::PrepareStage { stage } => self.prepare_stage(sender, stage),
            ExecuteMsg::FinalizeStage { stage } => self.finalize_stage(sender, stage),
            ExecuteMsg::IncreaseScore { addr, stage, amount } => self.increase_score(
                sender,
                addr@,
                stage,
                amount,
            ),
            ExecuteMsg::DecreaseScore { addr, stage, amount } => self.decrease_score(
                sender,
                addr@,
                stage,
                amount,
            ),
            ExecuteMsg::UpdateScore { addr, stage, amount } => self.update_score(
                sender,
                addr@,
                stage,
                amount,
            ),
            ExecuteMsg::UpdateScores { stage, scores } => self.update_scores(
                sender,
                stage,
                entry_views(scores@),
            ),
            ExecuteMsg::AddAllowList { addr } => self.add_allow_list(sender, addr@),
            ExecuteMsg::RemoveAllowList { addr } => self.remove_allow_list(sender, addr@),
        }
    }
}

} // verus!
