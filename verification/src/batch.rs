//! Setting many scores at once, all or none.
//!
//! A batch is first worked through without writing: each entry is checked on
//! the ledger as the entries before it would leave it, with the writes that
//! are still to be made kept in a list. Only a batch that passes as a whole is
//! written.

use vstd::prelude::*;
use cosmwasm_std::{Event, MemoryStorage};
use crate::error::ContractError;
use crate::event::{event_views, generate_update_score_event};
use crate::execute::carried_out;
use crate::keys::{score_key, user_score_key};
use crate::laws::lemma_update_scores_keeps;
use crate::ledger::{Ledger, Step};
use crate::msgs::entry_views;
use crate::state::{Contract, StageInfo};
use crate::store::row_views;

verus! {

/// The score table after `writes` were made to it in order.
pub open spec fn overlay(base: Map<Seq<u8>, Option<u64>>, writes: Seq<(Seq<u8>, u64)>) -> Map<
    Seq<u8>,
    Option<u64>,
>
    decreases writes.len(),
{
    if writes.len() == 0 {
        base
    } else {
        overlay(base, writes.drop_last()).insert(writes.last().0, Some(writes.last().1))
    }
}

/// The score that the latest write to `key` among `writes` sets, if any.
pub open spec fn pending(writes: Seq<(Seq<u8>, u64)>, key: Seq<u8>) -> Option<u64>
    decreases writes.len(),
{
    if writes.len() == 0 {
        None
    } else if writes.last().0 == key {
        Some(writes.last().1)
    } else {
        pending(writes.drop_last(), key)
    }
}

/// A key reads, after the writes, what the latest write to it set, and what
/// the table held before where none wrote to it.
pub proof fn lemma_overlay_reads(
    base: Map<Seq<u8>, Option<u64>>,
    writes: Seq<(Seq<u8>, u64)>,
    key: Seq<u8>,
)
    ensures
        match pending(writes, key) {
            Some(score) => overlay(base, writes).contains_pair(key, Some(score)),
            None => {
                &&& overlay(base, writes).dom().contains(key) == base.dom().contains(key)
                &&& base.dom().contains(key) ==> overlay(base, writes)[key] == base[key]
            },
        },
    decreases writes.len(),
{
    if writes.len() > 0 {
        lemma_overlay_reads(base, writes.drop_last(), key);
    }
}

/// A batch that is refused at some entry is refused as a whole, for the same
/// reason.
pub proof fn lemma_refusal_stays(
    ledger: Ledger,
    stage: u64,
    info: StageInfo,
    entries: Seq<(Seq<char>, u64)>,
    upto: int,
)
    requires
        0 <= upto <= entries.len(),
        ledger.set_scores(stage, info, entries.take(upto)) is Err,
    ensures
        ledger.set_scores(stage, info, entries) == ledger.set_scores(
            stage,
            info,
            entries.take(upto),
        ),
    decreases entries.len() - upto,
{
    if upto == entries.len() {
        assert(entries.take(upto) =~= entries);
    } else {
        let longer = entries.take(upto + 1);
        assert(longer.drop_last() =~= entries.take(upto));
        lemma_refusal_stays(ledger, stage, info, entries, upto + 1);
    }
}

/// Whether two byte strings are the same.
fn same_bytes(a: &Vec<u8>, b: &Vec<u8>) -> (r: bool)
    ensures
        r == (a@ == b@),
{
    if a.len() != b.len() {
        return false;
    }
    let mut i: usize = 0;
    while i < a.len()
        invariant
            i <= a.len(),
            a.len() == b.len(),
            a@.take(i as int) == b@.take(i as int),
        decreases a.len() - i,
    {
        if a[i] != b[i] {
            return false;
        }
        assert(a@.take(i as int + 1) =~= a@.take(i as int).push(a@[i as int]));
        assert(b@.take(i as int + 1) =~= b@.take(i as int).push(b@[i as int]));
        i += 1;
    }
    assert(a@.take(i as int) =~= a@);
    assert(b@.take(i as int) =~= b@);
    true
}

/// The score that the writes still to be made set for `key`, if any.
fn pending_score(writes: &Vec<(Vec<u8>, u64)>, key: &Vec<u8>) -> (r: Option<u64>)
    ensures
        r == pending(row_views(writes@), key@),
{
    let ghost all = row_views(writes@);
    let mut j: usize = writes.len();
    assert(all.take(j as int) =~= all);
    while j > 0
        invariant
            j <= writes.len(),
            all == row_views(writes@),
            pending(all, key@) == pending(all.take(j as int), key@),
        decreases j,
    {
        j -= 1;
        assert(all.take(j as int + 1).drop_last() =~= all.take(j as int));
        assert(all.take(j as int + 1).last() == (writes@[j as int].0@, writes@[j as int].1));
        if same_bytes(&writes[j].0, key) {
            return Some(writes[j].1);
        }
    }
    None
}

/// What working through a batch without writing gives: the writes to make,
/// the stage as it will stand, and the events to report.
struct Plan {
    writes: Vec<(Vec<u8>, u64)>,
    info: StageInfo,
    events: Vec<Event>,
}

impl<'a> Contract<'a> {
    /// Works through the batch `scores` for `stage`, which stands at `info`,
    /// without writing. `ledger` is the ledger that the batch starts from; its
    /// scores are those in `store`.
    fn plan_scores(
        &self,
        store: &MemoryStorage,
        Ghost(ledger): Ghost<Ledger>,
        stage: u64,
        info: StageInfo,
        scores: &Vec<(String, u64)>,
    ) -> (r: Result<Plan, ContractError>)
        requires
            ledger.scores == self.ledger(*store).scores,
        ensures
            match ledger.set_scores(stage, info, entry_views(scores@)) {
                Ok((step, after)) => {
                    &&& r is Ok
                    &&& r->Ok_0.info == after
                    &&& r->Ok_0.writes.len() == scores.len()
                    &&& event_views(r->Ok_0.events@) == step.events
                    &&& step.next.scores == overlay(ledger.scores, row_views(r->Ok_0.writes@))
                    &&& step.next.allow_list == ledger.allow_list
                    &&& step.next.stages == if scores.len() > 0 {
                        ledger.stages.insert(stage, Some(after))
                    } else {
                        ledger.stages
                    }
                },
                Err(e) => r == Err::<Plan, ContractError>(e),
            },
    {
        let ghost entries = entry_views(scores@);
        let ghost mut reached = ledger;
        let mut plan = Plan { writes: Vec::new(), info, events: Vec::new() };
        let mut i: usize = 0;
        assert(event_views(plan.events@) =~= Seq::empty());
        assert(row_views(plan.writes@) =~= Seq::empty());
        while i < scores.len()
            invariant
                i <= scores.len(),
                entries == entry_views(scores@),
                ledger.scores == self.ledger(*store).scores,
                plan.writes.len() == i,
                ledger.set_scores(stage, info, entries.take(i as int)) == Ok::<
                    (Step, StageInfo),
                    ContractError,
                >((Step { next: reached, events: event_views(plan.events@) }, plan.info)),
                reached.scores == overlay(ledger.scores, row_views(plan.writes@)),
                reached.allow_list == ledger.allow_list,
                reached.stages == if i > 0 {
                    ledger.stages.insert(stage, Some(plan.info))
                } else {
                    ledger.stages
                },
            decreases scores.len() - i,
        {
            let addr = scores[i].0.as_str();
            let amount = scores[i].1;
            let user_key = user_score_key(addr, stage);
            proof {
                let upto = entries.take(i as int + 1);
                assert(upto.drop_last() =~= entries.take(i as int));
                assert(upto.last() == (addr@, amount));
                lemma_overlay_reads(ledger.scores, row_views(plan.writes@), user_key@);
            }
            let found = match pending_score(&plan.writes, &user_key) {
                Some(score) => Ok(Some(score)),
                None => self.load_score(store, &user_key),
            };
            assert(found == reached.score_at(score_key(addr@, stage)));
            let prior = match found {
                Err(e) => {
                    proof {
                        lemma_refusal_stays(ledger, stage, info, entries, i as int + 1);
                    }
                    return Err(e);
                },
                Ok(prior) => prior,
            };
            let (new_score, score_diff) = crate::score::set(prior, amount);
            let after = match plan.info.apply_total_delta(score_diff) {
                Err(e) => {
                    proof {
                        lemma_refusal_stays(ledger, stage, info, entries, i as int + 1);
                    }
                    return Err(e);
                },
                Ok(after) => after,
            };
            let ghost step = reached.scored(addr@, stage, after, amount);
            let ghost told = event_views(plan.events@);
            let ghost written = row_views(plan.writes@);
            plan.writes.push((user_key, new_score));
            plan.events.push(generate_update_score_event(addr, stage, new_score, after.total_score));
            plan.info = after;
            proof {
                assert(event_views(plan.events@) =~= told + step.events);
                let now = row_views(plan.writes@);
                assert(now.drop_last() =~= written);
                assert(now.last() == (score_key(addr@, stage), amount));
                assert(step.next.stages =~= ledger.stages.insert(stage, Some(after)));
                reached = step.next;
            }
            i += 1;
        }
        assert(entries.take(i as int) =~= entries);
        Ok(plan)
    }

    /// Makes the writes of a plan, in order.
    fn write_scores(&self, store: &mut MemoryStorage, writes: &Vec<(Vec<u8>, u64)>)
        ensures
            self.ledger(*final(store)) == (Ledger {
                scores: overlay(self.ledger(*old(store)).scores, row_views(writes@)),
                ..self.ledger(*old(store))
            }),
    {
        let ghost start = self.ledger(*store);
        let ghost all = row_views(writes@);
        let mut j: usize = 0;
        assert(self.ledger(*store).scores =~= overlay(start.scores, all.take(0)));
        while j < writes.len()
            invariant
                j <= writes.len(),
                all == row_views(writes@),
                self.ledger(*store).allow_list == start.allow_list,
                self.ledger(*store).stages == start.stages,
                self.ledger(*store).scores == overlay(start.scores, all.take(j as int)),
            decreases writes.len() - j,
        {
            self.save_score(store, &writes[j].0, writes[j].1);
            proof {
                let upto = all.take(j as int + 1);
                assert(upto.drop_last() =~= all.take(j as int));
                assert(upto.last() == (writes@[j as int].0@, writes@[j as int].1));
            }
            j += 1;
        }
        assert(all.take(j as int) =~= all);
    }

    /// Sets the scores of several users in `stage` on behalf of `sender`, in
    /// the order given: each as `update_score` would, on the ledger that the
    /// entries before it leave. If any entry is refused, so is the batch, and
    /// nothing is written.
    pub fn update_scores(
        &self,
        store: &mut MemoryStorage,
        sender: &str,
        stage: u64,
        scores: &Vec<(String, u64)>,
    ) -> (r: Result<Vec<Event>, ContractError>)
        ensures
            carried_out(
                *self,
                *old(store),
                *final(store),
                r,
                self.ledger(*old(store)).update_scores(sender@, stage, entry_views(scores@)),
            ),
    {
        proof {
            let before = self.ledger(*store);
            if before.update_scores(sender@, stage, entry_views(scores@)) is Ok {
                lemma_update_scores_keeps(before, sender@, stage, entry_views(scores@));
            }
        }
        let opened = match self.open_stage_for(store, sender, stage) {
            Err(e) => { return Err(e); },
            Ok(opened) => opened,
        };
        let ghost start = self.ledger(*store).prepared(stage)->Ok_0.next;
        let plan = match self.plan_scores(store, Ghost(start), stage, opened.info, scores) {
            Err(e) => { return Err(e); },
            Ok(plan) => plan,
        };
        self.write_scores(store, &plan.writes);
        if opened.created || scores.len() > 0 {
            self.save_stage(store, stage, plan.info);
        }
        let mut events = Self::opening_events(&opened, stage);
        let ghost first = event_views(events@);
        let ghost rest = event_views(plan.events@);
        let mut told = plan.events;
        events.append(&mut told);
        proof {
            let step = start.set_scores(stage, opened.info, entry_views(scores@))->Ok_0.0;
            assert(event_views(events@) =~= first + rest);
            assert(self.ledger(*store).stages =~= step.next.stages);
        }
        Ok(events)
    }
}

} // verus!
