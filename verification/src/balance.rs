//! The balance of the ledger: every stage total is the sum of the scores of
//! the stage.

use vstd::prelude::*;
use crate::keys::{in_stage, lemma_one_stage, lemma_score_key_in_stage, score_key};
use crate::ledger::Ledger;
use crate::state::StageInfo;
use crate::tally::{lemma_total_agrees, lemma_total_empty, lemma_total_split, total};

verus! {

/// What each entry of a score table counts for: its score, and nothing where
/// the stored value does not decode.
pub open spec fn points(scores: Map<Seq<u8>, Option<u64>>) -> spec_fn(Seq<u8>) -> nat {
    |key: Seq<u8>|
        match scores[key] {
            Some(score) => score as nat,
            None => 0nat,
        }
}

/// The keys of a score table that belong to `stage`.
pub open spec fn stage_keys(scores: Map<Seq<u8>, Option<u64>>, stage: u64) -> Set<Seq<u8>> {
    scores.dom().filter(|key: Seq<u8>| in_stage(key, stage))
}

/// The sum of the scores of `stage`.
pub open spec fn stage_sum(scores: Map<Seq<u8>, Option<u64>>, stage: u64) -> nat {
    total(stage_keys(scores, stage), points(scores))
}

/// What the entry under `key` counts for; nothing where there is none.
pub open spec fn held(scores: Map<Seq<u8>, Option<u64>>, key: Seq<u8>) -> nat {
    if scores.dom().contains(key) {
        points(scores)(key)
    } else {
        0
    }
}

impl Ledger {
    /// Whether `stage` is stored with a total that is the sum of its scores.
    pub open spec fn stage_balanced(self, stage: u64) -> bool {
        &&& self.stages[stage] matches Some(info)
        &&& info.total_score == stage_sum(self.scores, stage)
    }

    /// Whether scores are kept for stored stages only.
    pub open spec fn scores_belong(self) -> bool {
        forall|key: Seq<u8>, stage: u64|
            self.scores.dom().contains(key) && #[trigger] in_stage(key, stage)
                ==> self.stages.dom().contains(stage)
    }

    /// The ledger is balanced: the total of every stage is the sum of the
    /// scores kept for it, and scores are kept for stored stages only.
    pub open spec fn balanced(self) -> bool {
        &&& self.scores.dom().finite()
        &&& self.scores_belong()
        &&& forall|stage: u64| #[trigger]
            self.stages.dom().contains(stage) ==> self.stage_balanced(stage)
    }
}

/// A stage without keys has a sum of zero.
pub proof fn lemma_sum_of_no_keys(scores: Map<Seq<u8>, Option<u64>>, stage: u64)
    requires
        forall|key: Seq<u8>| scores.dom().contains(key) ==> !in_stage(key, stage),
    ensures
        stage_sum(scores, stage) == 0,
{
    assert(stage_keys(scores, stage) =~= Set::<Seq<u8>>::empty());
    lemma_total_empty(points(scores));
}

/// Writing a score moves the sum of its stage by the difference to what the
/// key counted for before.
pub proof fn lemma_sum_after_write(
    scores: Map<Seq<u8>, Option<u64>>,
    key: Seq<u8>,
    score: u64,
    stage: u64,
)
    requires
        scores.dom().finite(),
        in_stage(key, stage),
    ensures
        stage_sum(scores.insert(key, Some(score)), stage) + held(scores, key) == stage_sum(
            scores,
            stage,
        ) + score,
{
    let after = scores.insert(key, Some(score));
    let keys = stage_keys(scores, stage);
    let keys_after = stage_keys(after, stage);
    let rest = keys.remove(key);
    scores.dom().lemma_len_filter(|key: Seq<u8>| in_stage(key, stage));
    after.dom().lemma_len_filter(|key: Seq<u8>| in_stage(key, stage));
    assert(keys_after.remove(key) =~= rest);
    lemma_total_split(keys_after, points(after), key);
    assert forall|k: Seq<u8>| rest.contains(k) implies points(after)(k) == points(scores)(k) by {}
    lemma_total_agrees(rest, points(after), points(scores));
    if scores.dom().contains(key) {
        lemma_total_split(keys, points(scores), key);
    } else {
        assert(rest =~= keys);
    }
}

/// Writing a score leaves the sums of the other stages as they were.
pub proof fn lemma_other_sum_after_write(
    scores: Map<Seq<u8>, Option<u64>>,
    key: Seq<u8>,
    score: u64,
    other: u64,
)
    requires
        scores.dom().finite(),
        !in_stage(key, other),
    ensures
        stage_sum(scores.insert(key, Some(score)), other) == stage_sum(scores, other),
{
    let after = scores.insert(key, Some(score));
    let keys = stage_keys(scores, other);
    scores.dom().lemma_len_filter(|key: Seq<u8>| in_stage(key, other));
    assert(stage_keys(after, other) =~= keys);
    assert forall|k: Seq<u8>| keys.contains(k) implies points(after)(k) == points(scores)(k) by {}
    lemma_total_agrees(keys, points(after), points(scores));
}

/// A ledger stays balanced when a score is written together with a stage
/// total that moved by as much as the score did. The stage may be new, as
/// long as the total then is the score.
pub proof fn lemma_scored_balanced(
    ledger: Ledger,
    addr: Seq<char>,
    stage: u64,
    info: StageInfo,
    score: u64,
)
    requires
        ledger.balanced(),
        info.total_score + held(ledger.scores, score_key(addr, stage)) == score + (if ledger.stages.dom().contains(
            stage,
        ) {
            ledger.stages[stage]->Some_0.total_score as int
        } else {
            0
        }),
    ensures
        ledger.scored(addr, stage, info, score).next.balanced(),
{
    let key = score_key(addr, stage);
    let next = ledger.scored(addr, stage, info, score).next;
    lemma_score_key_in_stage(addr, stage);
    lemma_sum_after_write(ledger.scores, key, score, stage);
    if !ledger.stages.dom().contains(stage) {
        assert forall|k: Seq<u8>| ledger.scores.dom().contains(k) implies !in_stage(k, stage) by {
            if in_stage(k, stage) {
                assert(ledger.stages.dom().contains(stage));
            }
        }
        lemma_sum_of_no_keys(ledger.scores, stage);
    } else {
        assert(ledger.stage_balanced(stage));
    }
    assert forall|k: Seq<u8>, s: u64| next.scores.dom().contains(k) && #[trigger] in_stage(
        k,
        s,
    ) implies next.stages.dom().contains(s) by {
        if k == key {
            lemma_one_stage(k, s, stage);
        }
    }
    assert forall|s: u64| #[trigger] next.stages.dom().contains(s) implies next.stage_balanced(
        s,
    ) by {
        if s != stage {
            assert(ledger.stages.dom().contains(s));
            assert(ledger.stage_balanced(s));
            if in_stage(key, s) {
                lemma_one_stage(key, s, stage);
            }
            lemma_other_sum_after_write(ledger.scores, key, score, s);
        }
    }
}

/// A balanced ledger stays balanced when a stage without scores is stored
/// with a total of zero, and when a stored stage is stored again with its
/// total unchanged.
pub proof fn lemma_staged_balanced(ledger: Ledger, stage: u64, info: StageInfo)
    requires
        ledger.balanced(),
        if ledger.stages.dom().contains(stage) {
            ledger.stages[stage] matches Some(before) && before.total_score == info.total_score
        } else {
            info.total_score == 0
        },
    ensures
        ledger.with_stage(stage, info).balanced(),
{
    let next = ledger.with_stage(stage, info);
    if !ledger.stages.dom().contains(stage) {
        assert forall|k: Seq<u8>| ledger.scores.dom().contains(k) implies !in_stage(k, stage) by {
            if in_stage(k, stage) {
                assert(ledger.stages.dom().contains(stage));
            }
        }
        lemma_sum_of_no_keys(ledger.scores, stage);
    } else {
        assert(ledger.stage_balanced(stage));
    }
    assert forall|s: u64| #[trigger] next.stages.dom().contains(s) implies next.stage_balanced(
        s,
    ) by {
        if s != stage {
            assert(ledger.stages.dom().contains(s));
            assert(ledger.stage_balanced(s));
        }
    }
}

} // verus!
