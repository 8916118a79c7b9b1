//! What holds of the ledger whatever is done to it.

use vstd::prelude::*;
use crate::balance::{held, lemma_scored_balanced, lemma_staged_balanced};
use crate::error::ContractError;
use crate::keys::score_key;
use crate::ledger::{Ledger, Step};
use crate::msgs::{entry_views, ExecuteMsg};
use crate::score::prior_score;
use crate::state::StageInfo;

verus! {

impl Ledger {
    /// Whether `stage` is stored as final.
    pub open spec fn is_final(self, stage: u64) -> bool {
        &&& self.stages.dom().contains(stage)
        &&& self.stages[stage] matches Some(info)
        &&& info.is_finalized
    }

    /// Whether a change from this ledger to `after` keeps what must hold of
    /// every change: a balanced ledger stays balanced, and a final stage stays
    /// final.
    pub open spec fn kept_by(self, after: Ledger) -> bool {
        &&& self.balanced() ==> after.balanced()
        &&& forall|stage: u64| #[trigger] self.is_final(stage) ==> after.is_final(stage)
    }

    /// The score that `addr` has in `stage`, zero without an entry.
    pub open spec fn score_of(self, addr: Seq<char>, stage: u64) -> nat {
        held(self.scores, score_key(addr, stage))
    }

    /// The total that `stage` stands at, zero where it is not stored.
    pub open spec fn total_of(self, stage: u64) -> nat {
        match self.stage(stage) {
            Ok(Some(info)) => info.total_score as nat,
            _ => 0,
        }
    }
}

/// Setting one score of an open stage keeps a balanced ledger balanced, as
/// long as the stage stands at what is stored for it, or is new.
pub proof fn lemma_set_score_balanced(
    ledger: Ledger,
    stage: u64,
    info: StageInfo,
    addr: Seq<char>,
    amount: u64,
)
    requires
        ledger.balanced(),
        ledger.set_score(stage, info, addr, amount) is Ok,
        if ledger.stages.dom().contains(stage) {
            ledger.stages[stage] matches Some(stored) && stored.total_score == info.total_score
        } else {
            info.total_score == 0
        },
    ensures
        ledger.set_score(stage, info, addr, amount)->Ok_0.0.next.balanced(),
        ledger.set_score(stage, info, addr, amount)->Ok_0.0.next.allow_list == ledger.allow_list,
        ledger.set_score(stage, info, addr, amount)->Ok_0.0.next.stages == ledger.stages.insert(
            stage,
            Some(ledger.set_score(stage, info, addr, amount)->Ok_0.1),
        ),
        ledger.set_score(stage, info, addr, amount)->Ok_0.1.is_finalized == info.is_finalized,
{
    let after = ledger.set_score(stage, info, addr, amount)->Ok_0.1;
    lemma_scored_balanced(ledger, addr, stage, after, amount);
}

/// Setting the scores of a batch keeps a balanced ledger balanced, and
/// touches no stage but the one of the batch.
pub proof fn lemma_set_scores_balanced(
    ledger: Ledger,
    stage: u64,
    info: StageInfo,
    entries: Seq<(Seq<char>, u64)>,
)
    requires
        ledger.balanced(),
        ledger.set_scores(stage, info, entries) is Ok,
        ledger.stages.dom().contains(stage),
        ledger.stages[stage] matches Some(stored) && stored.total_score == info.total_score,
    ensures
        ledger.set_scores(stage, info, entries)->Ok_0.0.next.balanced(),
        ledger.set_scores(stage, info, entries)->Ok_0.0.next.allow_list == ledger.allow_list,
        ledger.set_scores(stage, info, entries)->Ok_0.0.next.stages.dom().contains(stage),
        ledger.set_scores(stage, info, entries)->Ok_0.1.is_finalized == info.is_finalized,
        ledger.set_scores(stage, info, entries)->Ok_0.0.next.stages.remove(stage)
            == ledger.stages.remove(stage),
        ledger.set_scores(stage, info, entries)->Ok_0.0.next.stages[stage] == if entries.len()
            > 0 {
            Some(ledger.set_scores(stage, info, entries)->Ok_0.1)
        } else {
            ledger.stages[stage]
        },
        entries.len() == 0 ==> ledger.set_scores(stage, info, entries)->Ok_0.1 == info,
    decreases entries.len(),
{
    if entries.len() > 0 {
        let (before, reached) = ledger.set_scores(stage, info, entries.drop_last())->Ok_0;
        lemma_set_scores_balanced(ledger, stage, info, entries.drop_last());
        lemma_set_score_balanced(
            before.next,
            stage,
            reached,
            entries.last().0,
            entries.last().1,
        );
        let after = ledger.set_scores(stage, info, entries)->Ok_0.0.next;
        assert(after.stages.remove(stage) =~= before.next.stages.remove(stage));
    }
}

/// Opening a stage keeps what must hold.
pub proof fn lemma_prepared_keeps(ledger: Ledger, stage: u64)
    requires
        ledger.prepared(stage) is Ok,
    ensures
        ledger.kept_by(ledger.prepared(stage)->Ok_0.next),
{
    let opened = ledger.opened(stage)->Ok_0;
    if opened.created && ledger.balanced() {
        lemma_staged_balanced(ledger, stage, opened.info);
    }
}

/// Opening a stage for a sender keeps what must hold.
pub proof fn lemma_prepare_stage_keeps(ledger: Ledger, sender: Seq<char>, stage: u64)
    requires
        ledger.prepare_stage(sender, stage) is Ok,
    ensures
        ledger.kept_by(ledger.prepare_stage(sender, stage)->Ok_0.next),
{
    lemma_prepared_keeps(ledger, stage);
}

/// Making a stage final keeps what must hold.
pub proof fn lemma_finalize_stage_keeps(ledger: Ledger, sender: Seq<char>, stage: u64)
    requires
        ledger.finalize_stage(sender, stage) is Ok,
    ensures
        ledger.kept_by(ledger.finalize_stage(sender, stage)->Ok_0.next),
{
    let info = ledger.stage(stage)->Ok_0->Some_0;
    if ledger.balanced() {
        lemma_staged_balanced(ledger, stage, StageInfo { is_finalized: true, ..info });
    }
}

/// Raising a score keeps what must hold.
pub proof fn lemma_increase_score_keeps(
    ledger: Ledger,
    sender: Seq<char>,
    addr: Seq<char>,
    stage: u64,
    amount: u64,
)
    requires
        ledger.increase_score(sender, addr, stage, amount) is Ok,
    ensures
        ledger.kept_by(ledger.increase_score(sender, addr, stage, amount)->Ok_0.next),
{
    let opened = ledger.open_for(sender, stage)->Ok_0;
    let info = StageInfo {
        total_score: (opened.info.total_score + amount) as u64,
        ..opened.info
    };
    let prior = ledger.score_at(score_key(addr, stage))->Ok_0;
    if ledger.balanced() {
        lemma_scored_balanced(ledger, addr, stage, info, (prior_score(prior) + amount) as u64);
    }
}

/// Lowering a score keeps what must hold.
pub proof fn lemma_decrease_score_keeps(
    ledger: Ledger,
    sender: Seq<char>,
    addr: Seq<char>,
    stage: u64,
    amount: u64,
)
    requires
        ledger.decrease_score(sender, addr, stage, amount) is Ok,
    ensures
        ledger.kept_by(ledger.decrease_score(sender, addr, stage, amount)->Ok_0.next),
{
    let opened = ledger.open_for(sender, stage)->Ok_0;
    let info = StageInfo {
        total_score: (opened.info.total_score - amount) as u64,
        ..opened.info
    };
    let prior = ledger.score_at(score_key(addr, stage))->Ok_0;
    if ledger.balanced() {
        lemma_scored_balanced(ledger, addr, stage, info, (prior_score(prior) - amount) as u64);
    }
}

/// Setting a score of a stored, open stage keeps what must hold.
pub proof fn lemma_update_score_internal_keeps(
    ledger: Ledger,
    stage: u64,
    addr: Seq<char>,
    amount: u64,
)
    requires
        ledger.update_score_internal(stage, addr, amount) is Ok,
    ensures
        ledger.kept_by(ledger.update_score_internal(stage, addr, amount)->Ok_0.next),
{
    let info = ledger.stage(stage)->Ok_0->Some_0;
    if ledger.balanced() {
        lemma_set_score_balanced(ledger, stage, info, addr, amount);
    }
}

/// Setting a score keeps what must hold.
pub proof fn lemma_update_score_keeps(
    ledger: Ledger,
    sender: Seq<char>,
    addr: Seq<char>,
    stage: u64,
    amount: u64,
)
    requires
        ledger.update_score(sender, addr, stage, amount) is Ok,
    ensures
        ledger.kept_by(ledger.update_score(sender, addr, stage, amount)->Ok_0.next),
{
    let opened = ledger.open_for(sender, stage)->Ok_0;
    if ledger.balanced() {
        lemma_set_score_balanced(ledger, stage, opened.info, addr, amount);
    }
}

/// Setting the scores of a batch keeps what must hold.
pub proof fn lemma_update_scores_keeps(
    ledger: Ledger,
    sender: Seq<char>,
    stage: u64,
    entries: Seq<(Seq<char>, u64)>,
)
    requires
        ledger.update_scores(sender, stage, entries) is Ok,
    ensures
        ledger.kept_by(ledger.update_scores(sender, stage, entries)->Ok_0.next),
{
    let opened = ledger.open_for(sender, stage)->Ok_0;
    let start = ledger.prepared(stage)->Ok_0.next;
    let next = ledger.update_scores(sender, stage, entries)->Ok_0.next;
    lemma_prepared_keeps(ledger, stage);
    if ledger.balanced() {
        lemma_set_scores_balanced(start, stage, opened.info, entries);
    }
    lemma_set_scores_frame(start, stage, opened.info, entries);
    assert forall|other: u64| #[trigger] ledger.is_final(other) implies next.is_final(other) by {
        assert(other != stage);
        assert(start.stages.remove(stage).contains_pair(other, ledger.stages[other]));
        assert(next.stages.remove(stage).contains_pair(other, ledger.stages[other]));
    }
}

/// Putting an address on the allow list keeps what must hold.
pub proof fn lemma_add_allow_list_keeps(ledger: Ledger, sender: Seq<char>, addr: Seq<char>)
    requires
        ledger.add_allow_list(sender, addr) is Ok,
    ensures
        ledger.kept_by(ledger.add_allow_list(sender, addr)->Ok_0.next),
{
}

/// Taking an address off the allow list keeps what must hold.
pub proof fn lemma_remove_allow_list_keeps(ledger: Ledger, sender: Seq<char>, addr: Seq<char>)
    requires
        ledger.remove_allow_list(sender, addr) is Ok,
    ensures
        ledger.kept_by(ledger.remove_allow_list(sender, addr)->Ok_0.next),
{
}

/// After every change that goes through, the total of each stage is the sum
/// of the scores of the stage, and a stage that was final is final.
pub proof fn lemma_execute_keeps(ledger: Ledger, sender: Seq<char>, msg: ExecuteMsg)
    requires
        ledger.execute(sender, msg) is Ok,
    ensures
        ledger.kept_by(ledger.execute(sender, msg)->Ok_0.next),
{
    match msg {
        ExecuteMsg::PrepareStage { stage } => {
            lemma_prepare_stage_keeps(ledger, sender, stage);
        },
        ExecuteMsg::FinalizeStage { stage } => {
            lemma_finalize_stage_keeps(ledger, sender, stage);
        },
        ExecuteMsg::IncreaseScore { addr, stage, amount } => {
            lemma_increase_score_keeps(ledger, sender, addr@, stage, amount);
        },
        ExecuteMsg::DecreaseScore { addr, stage, amount } => {
            lemma_decrease_score_keeps(ledger, sender, addr@, stage, amount);
        },
        ExecuteMsg::UpdateScore { addr, stage, amount } => {
            lemma_update_score_keeps(ledger, sender, addr@, stage, amount);
        },
        ExecuteMsg::UpdateScores { stage, scores } => {
            lemma_update_scores_keeps(ledger, sender, stage, entry_views(scores@));
        },
        ExecuteMsg::AddAllowList { addr } => {},
        ExecuteMsg::RemoveAllowList { addr } => {},
    }
}

/// Seeding the allow list changes neither stages nor scores.
pub proof fn lemma_instantiate_keeps_tables(ledger: Ledger, addrs: Seq<Seq<char>>)
    ensures
        ledger.instantiate(addrs).next.stages == ledger.stages,
        ledger.instantiate(addrs).next.scores == ledger.scores,
        ledger.kept_by(ledger.instantiate(addrs).next),
        forall|i: int| 0 <= i < addrs.len() ==> ledger.instantiate(addrs).next.allows(addrs[i]),
        ledger.instantiate(addrs).events.len() == addrs.len(),
    decreases addrs.len(),
{
    if addrs.len() > 0 {
        lemma_instantiate_keeps_tables(ledger, addrs.drop_last());
        assert forall|i: int| 0 <= i < addrs.len() implies ledger.instantiate(addrs).next.allows(
            addrs[i],
        ) by {
            if i < addrs.len() - 1 {
                assert(addrs.drop_last()[i] == addrs[i]);
            }
        }
    }
}

/// Setting the scores of a batch changes no stage but the one of the batch,
/// and leaves the allow list alone.
pub proof fn lemma_set_scores_frame(
    ledger: Ledger,
    stage: u64,
    info: StageInfo,
    entries: Seq<(Seq<char>, u64)>,
)
    requires
        ledger.set_scores(stage, info, entries) is Ok,
    ensures
        ledger.set_scores(stage, info, entries)->Ok_0.0.next.allow_list == ledger.allow_list,
        ledger.set_scores(stage, info, entries)->Ok_0.0.next.stages.remove(stage)
            == ledger.stages.remove(stage),
    decreases entries.len(),
{
    if entries.len() > 0 {
        lemma_set_scores_frame(ledger, stage, info, entries.drop_last());
        let before = ledger.set_scores(stage, info, entries.drop_last())->Ok_0.0.next;
        let after = ledger.set_scores(stage, info, entries)->Ok_0.0.next;
        assert(after.stages.remove(stage) =~= before.stages.remove(stage));
    } else {
        assert(ledger.stages.remove(stage) =~= ledger.stages.remove(stage));
    }
}

/// Opening a stage a second time changes nothing and reports nothing.
pub proof fn lemma_prepare_stage_idempotent(ledger: Ledger, sender: Seq<char>, stage: u64)
    requires
        ledger.prepare_stage(sender, stage) is Ok,
    ensures
        ledger.prepare_stage(sender, stage)->Ok_0.next.prepare_stage(sender, stage) == Ok::<
            Step,
            ContractError,
        >(Step { next: ledger.prepare_stage(sender, stage)->Ok_0.next, events: Seq::empty() }),
{
}

/// Raising a score and then lowering it by the same amount goes through and
/// brings the user's score and the stage total back to what they were.
pub proof fn lemma_increase_then_decrease(
    ledger: Ledger,
    sender: Seq<char>,
    addr: Seq<char>,
    stage: u64,
    amount: u64,
)
    requires
        ledger.increase_score(sender, addr, stage, amount) is Ok,
    ensures
        ({
            let raised = ledger.increase_score(sender, addr, stage, amount)->Ok_0.next;
            &&& raised.decrease_score(sender, addr, stage, amount) is Ok
            &&& raised.decrease_score(sender, addr, stage, amount)->Ok_0.next.score_of(addr, stage)
                == ledger.score_of(addr, stage)
            &&& raised.decrease_score(sender, addr, stage, amount)->Ok_0.next.total_of(stage)
                == ledger.total_of(stage)
        }),
{
}

/// Setting a score leaves the user with exactly that score, whatever it was
/// before, and moves the stage total by exactly the difference.
pub proof fn lemma_update_score_sets(
    ledger: Ledger,
    sender: Seq<char>,
    addr: Seq<char>,
    stage: u64,
    amount: u64,
)
    requires
        ledger.update_score(sender, addr, stage, amount) is Ok,
    ensures
        ({
            let next = ledger.update_score(sender, addr, stage, amount)->Ok_0.next;
            &&& next.score_at(score_key(addr, stage)) == Ok::<Option<u64>, ContractError>(
                Some(amount),
            )
            &&& next.total_of(stage) == ledger.total_of(stage) + amount - ledger.score_of(
                addr,
                stage,
            )
        }),
{
}

/// Stage zero is never opened: stage numbers start at one.
pub proof fn lemma_stage_zero_refused(ledger: Ledger, sender: Seq<char>)
    ensures
        ledger.prepared(0) == Err::<Step, ContractError>(ContractError::InvalidStage),
        ledger.allows(sender) ==> ledger.prepare_stage(sender, 0) == Err::<Step, ContractError>(
            ContractError::InvalidStage,
        ),
        !ledger.allows(sender) ==> ledger.prepare_stage(sender, 0) == Err::<Step, ContractError>(
            ContractError::PermissionDenied,
        ),
{
}

/// Lowering a score by more than the user has is refused with
/// `InsufficientScore`, for any sender who may change the open stage.
pub proof fn lemma_decrease_beyond_score(
    ledger: Ledger,
    sender: Seq<char>,
    addr: Seq<char>,
    stage: u64,
    amount: u64,
)
    requires
        ledger.open_for(sender, stage) is Ok,
        ledger.score_at(score_key(addr, stage)) matches Ok(Some(score)) && amount > score,
    ensures
        ledger.decrease_score(sender, addr, stage, amount) == Err::<Step, ContractError>(
            ContractError::InsufficientScore,
        ),
{
}

} // verus!
