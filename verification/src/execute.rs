//! The operations that change the ledger.
//!
//! Each operation first reads what it needs and decides; only when nothing
//! stands against it does it write. A refused operation therefore leaves the
//! storage exactly as it was.

use vstd::prelude::*;
use cosmwasm_std::{Event, MemoryStorage};
use crate::error::ContractError;
use crate::event::{
    event_view, event_views, generate_add_allow_list_event, generate_finalize_stage_event,
    generate_prepare_stage_event, generate_remove_allow_list_event, generate_update_score_event,
};
use crate::keys::{score_key, user_score_key};
use crate::laws::{
    lemma_add_allow_list_keeps, lemma_decrease_score_keeps,
    lemma_remove_allow_list_keeps, lemma_finalize_stage_keeps,
    lemma_increase_score_keeps, lemma_instantiate_keeps_tables, lemma_prepare_stage_keeps,
    lemma_prepared_keeps, lemma_update_score_internal_keeps, lemma_update_score_keeps,
};
use crate::ledger::{Ledger, Opened, Step};
use crate::msgs::{addr_views, ExecuteMsg, InstantiateMsg};
use crate::score::{decrease, increase};
use crate::state::{Contract, StageInfo};
use crate::store::{
    allow_has, allow_remove, allow_save, score_may_load, score_save, stage_may_load, stage_save,
};

verus! {

/// Whether an operation did to the storage what the ledger says it does:
/// on success the ledger after and the events reported are those of `expected`,
/// on refusal the error is that of `expected` and the storage is unchanged.
/// Either way a balanced ledger is left balanced, and a final stage final.
pub open spec fn carried_out(
    contract: Contract,
    before: MemoryStorage,
    after: MemoryStorage,
    result: Result<Vec<Event>, ContractError>,
    expected: Result<Step, ContractError>,
) -> bool {
    &&& contract.ledger(before).kept_by(contract.ledger(after))
    &&& match expected {
        Ok(step) => {
            &&& result is Ok
            &&& contract.ledger(after) == step.next
            &&& event_views(result->Ok_0@) == step.events
        },
        Err(e) => {
            &&& result == Err::<Vec<Event>, ContractError>(e)
            &&& after == before
        },
    }
}

impl<'a> Contract<'a> {
    /// Passes a caller that is on the allow list and turns any other down
    /// with `PermissionDenied`.
    pub fn check_permission(&self, store: &MemoryStorage, account_addr: &str) -> (r: Result<
        (),
        ContractError,
    >)
        ensures
            self.ledger(*store).allows(account_addr@) ==> r == Ok::<(), ContractError>(()),
            !self.ledger(*store).allows(account_addr@) ==> r == Err::<(), ContractError>(
                ContractError::PermissionDenied,
            ),
    {
        let (_, _, allow_list) = self.namespaces();
        if allow_has(store, allow_list, account_addr) {
            Ok(())
        } else {
            Err(ContractError::PermissionDenied)
        }
    }

    /// Reads the stage stored under `stage`.
    pub(crate) fn load_stage(&self, store: &MemoryStorage, stage: u64) -> (r: Result<
        Option<StageInfo>,
        ContractError,
    >)
        ensures
            r == self.ledger(*store).stage(stage),
    {
        let (_, stages, _) = self.namespaces();
        match stage_may_load(store, stages, stage) {
            Ok(Some(row)) => Ok(Some(StageInfo::from_row(row))),
            Ok(None) => Ok(None),
            Err(_) => Err(ContractError::Undecodable),
        }
    }

    /// Reads the score stored under `key`.
    pub(crate) fn load_score(&self, store: &MemoryStorage, key: &Vec<u8>) -> (r: Result<
        Option<u64>,
        ContractError,
    >)
        ensures
            r == self.ledger(*store).score_at(key@),
    {
        let (scores, _, _) = self.namespaces();
        match score_may_load(store, scores, key) {
            Ok(found) => Ok(found),
            Err(_) => Err(ContractError::Undecodable),
        }
    }

    /// Writes `info` under `stage`.
    pub(crate) fn save_stage(&self, store: &mut MemoryStorage, stage: u64, info: StageInfo)
        ensures
            self.ledger(*final(store)) == self.ledger(*old(store)).with_stage(stage, info),
    {
        let (_, stages, _) = self.namespaces();
        let _ = stage_save(store, stages, stage, info.to_row());
        assert(self.ledger(*store).stages =~= self.ledger(*old(store)).stages.insert(
            stage,
            Some(info),
        ));
    }

    /// Writes `score` under `key`.
    pub(crate) fn save_score(&self, store: &mut MemoryStorage, key: &Vec<u8>, score: u64)
        ensures
            self.ledger(*final(store)) == self.ledger(*old(store)).with_score(key@, score),
    {
        let (scores, _, _) = self.namespaces();
        let _ = score_save(store, scores, key, score);
    }

    /// Finds the stage that a change to `stage` works on, without writing.
    pub(crate) fn open_stage(&self, store: &MemoryStorage, stage: u64) -> (r: Result<
        Opened,
        ContractError,
    >)
        ensures
            r == self.ledger(*store).opened(stage),
    {
        if stage == 0 {
            return Err(ContractError::InvalidStage);
        }
        match self.load_stage(store, stage) {
            Err(e) => Err(e),
            Ok(None) => Ok(Opened { info: StageInfo::new(stage), created: true }),
            Ok(Some(info)) => Ok(Opened { info, created: false }),
        }
    }

    /// Finds the stage that `sender` may change scores in, without writing.
    pub(crate) fn open_stage_for(&self, store: &MemoryStorage, sender: &str, stage: u64) -> (r:
        Result<Opened, ContractError>)
        ensures
            r == self.ledger(*store).open_for(sender@, stage),
    {
        match self.check_permission(store, sender) {
            Err(e) => Err(e),
            Ok(()) => match self.open_stage(store, stage) {
                Err(e) => Err(e),
                Ok(opened) => if opened.info.is_finalized {
                    Err(ContractError::StageFinalized)
                } else {
                    Ok(opened)
                },
            },
        }
    }

    /// Opens `stage` where it does not exist yet: stores it with a total of
    /// zero and not final, and returns the event that reports it. An existing
    /// stage is left as it is and gives no event. Stage zero is refused with
    /// `InvalidStage`.
    pub fn prepare_stage_internal(&self, stage: u64, storage: &mut MemoryStorage) -> (r: Result<
        Option<Event>,
        ContractError,
    >)
        ensures
            match self.ledger(*old(storage)).prepared(stage) {
                Ok(step) => {
                    &&& r is Ok
                    &&& self.ledger(*final(storage)) == step.next
                    &&& match r->Ok_0 {
                        Some(event) => step.events == seq![event_view(event)],
                        None => step.events == Seq::<crate::event::EventView>::empty(),
                    }
                },
                Err(e) => r == Err::<Option<Event>, ContractError>(e) && *final(storage) == *old(
                    storage,
                ),
            },
            self.ledger(*old(storage)).kept_by(self.ledger(*final(storage))),
    {
        proof {
            let before = self.ledger(*storage);
            if before.prepared(stage) is Ok {
                lemma_prepared_keeps(before, stage);
            }
        }
        match self.open_stage(storage, stage) {
            Err(e) => Err(e),
            Ok(opened) => {
                if opened.created {
                    self.save_stage(storage, stage, opened.info);
                    Ok(Some(generate_prepare_stage_event(stage)))
                } else {
                    Ok(None)
                }
            },
        }
    }

    /// The events that opening a stage reports.
    pub(crate) fn opening_events(opened: &Opened, stage: u64) -> (events: Vec<Event>)
        ensures
            event_views(events@) == opened.events(stage),
    {
        let mut events: Vec<Event> = Vec::new();
        if opened.created {
            events.push(generate_prepare_stage_event(stage));
        }
        assert(event_views(events@) =~= opened.events(stage));
        events
    }

    /// Writes a changed score and its stage, and adds the event that reports
    /// the change to `events`.
    fn record_score(
        &self,
        store: &mut MemoryStorage,
        events: Vec<Event>,
        addr: &str,
        stage: u64,
        info: StageInfo,
        key: &Vec<u8>,
        score: u64,
    ) -> (r: Vec<Event>)
        requires
            key@ == score_key(addr@, stage),
        ensures
            self.ledger(*final(store)) == self.ledger(*old(store)).scored(
                addr@,
                stage,
                info,
                score,
            ).next,
            event_views(r@) == event_views(events@) + self.ledger(*old(store)).scored(
                addr@,
                stage,
                info,
                score,
            ).events,
    {
        let ghost given = events@;
        let mut events = events;
        self.save_score(store, key, score);
        self.save_stage(store, stage, info);
        events.push(generate_update_score_event(addr, stage, score, info.total_score));
        assert(event_views(events@) =~= event_views(given) + self.ledger(
            *old(store),
        ).scored(addr@, stage, info, score).events);
        events
    }

    /// Opens `stage` on behalf of `sender`. An allowed sender opens any stage
    /// but zero; the event reports a stage that was not there before.
    pub fn prepare_stage(&self, store: &mut MemoryStorage, sender: &str, stage: u64) -> (r: Result<
        Vec<Event>,
        ContractError,
    >)
        ensures
            carried_out(
                *self,
                *old(store),
                *final(store),
                r,
                self.ledger(*old(store)).prepare_stage(sender@, stage),
            ),
    {
        proof {
            let before = self.ledger(*store);
            if before.prepare_stage(sender@, stage) is Ok {
                lemma_prepare_stage_keeps(before, sender@, stage);
            }
        }
        match self.check_permission(store, sender) {
            Err(e) => Err(e),
            Ok(()) => match self.prepare_stage_internal(stage, store) {
                Err(e) => Err(e),
                Ok(prepare_event) => {
                    let mut events: Vec<Event> = Vec::new();
                    match prepare_event {
                        Some(event) => {
                            events.push(event);
                        },
                        None => {},
                    }
                    assert(event_views(events@) =~= self.ledger(*old(store)).prepared(
                        stage,
                    )->Ok_0.events);
                    Ok(events)
                },
            },
        }
    }

    /// Closes `stage` to score changes on behalf of `sender`. The stage must
    /// exist (`NotFound`); closing a closed stage changes nothing.
    pub fn finalize_stage(&self, store: &mut MemoryStorage, sender: &str, stage: u64) -> (r:
        Result<Vec<Event>, ContractError>)
        ensures
            carried_out(
                *self,
                *old(store),
                *final(store),
                r,
                self.ledger(*old(store)).finalize_stage(sender@, stage),
            ),
    {
        proof {
            let before = self.ledger(*store);
            if before.finalize_stage(sender@, stage) is Ok {
                lemma_finalize_stage_keeps(before, sender@, stage);
            }
        }
        match self.check_permission(store, sender) {
            Err(e) => Err(e),
            Ok(()) => match self.load_stage(store, stage) {
                Err(e) => Err(e),
                Ok(None) => Err(ContractError::NotFound),
                Ok(Some(info)) => {
                    let closed = StageInfo {
                        stage: info.stage,
                        total_score: info.total_score,
                        is_finalized: true,
                    };
                    self.save_stage(store, stage, closed);
                    let mut events: Vec<Event> = Vec::new();
                    events.push(generate_finalize_stage_event(stage));
                    assert(event_views(events@) =~= self.ledger(*old(store)).finalize_stage(
                        sender@,
                        stage,
                    )->Ok_0.events);
                    Ok(events)
                },
            },
        }
    }

    /// Raises the score of `addr` in `stage` by `amount` on behalf of
    /// `sender`, and the stage total with it. The stage is opened if need be.
    /// Refused for a sender not allowed, stage zero, a final stage, and where
    /// the score or the total would not fit in 64 bits.
    pub fn increase_score(
        &self,
        store: &mut MemoryStorage,
        sender: &str,
        addr: &str,
        stage: u64,
        amount: u64,
    ) -> (r: Result<Vec<Event>, ContractError>)
        ensures
            carried_out(
                *self,
                *old(store),
                *final(store),
                r,
                self.ledger(*old(store)).increase_score(sender@, addr@, stage, amount),
            ),
    {
        proof {
            let before = self.ledger(*store);
            if before.increase_score(sender@, addr@, stage, amount) is Ok {
                lemma_increase_score_keeps(before, sender@, addr@, stage, amount);
            }
        }
        let opened = match self.open_stage_for(store, sender, stage) {
            Err(e) => { return Err(e); },
            Ok(opened) => opened,
        };
        let user_key = user_score_key(addr, stage);
        let prior = match self.load_score(store, &user_key) {
            Err(e) => { return Err(e); },
            Ok(prior) => prior,
        };
        let new_score = match increase(prior, amount) {
            Err(e) => { return Err(e); },
            Ok(score) => score,
        };
        let total_score = match opened.info.total_score.checked_add(amount) {
            None => { return Err(ContractError::Overflow); },
            Some(total) => total,
        };
        let info = StageInfo {
            stage: opened.info.stage,
            total_score,
            is_finalized: opened.info.is_finalized,
        };
        let events = Self::opening_events(&opened, stage);
        Ok(self.record_score(store, events, addr, stage, info, &user_key, new_score))
    }

    /// Lowers the score of `addr` in `stage` by `amount` on behalf of
    /// `sender`, and the stage total with it. Refused for a sender not
    /// allowed, stage zero, a final stage, a user without a score
    /// (`UserNotFound`), and with `InsufficientScore` where `amount` exceeds
    /// the user's score or the stage total.
    pub fn decrease_score(
        &self,
        store: &mut MemoryStorage,
        sender: &str,
        addr: &str,
        stage: u64,
        amount: u64,
    ) -> (r: Result<Vec<Event>, ContractError>)
        ensures
            carried_out(
                *self,
                *old(store),
                *final(store),
                r,
                self.ledger(*old(store)).decrease_score(sender@, addr@, stage, amount),
            ),
    {
        proof {
            let before = self.ledger(*store);
            if before.decrease_score(sender@, addr@, stage, amount) is Ok {
                lemma_decrease_score_keeps(before, sender@, addr@, stage, amount);
            }
        }
        let opened = match self.open_stage_for(store, sender, stage) {
            Err(e) => { return Err(e); },
            Ok(opened) => opened,
        };
        let user_key = user_score_key(addr, stage);
        let prior = match self.load_score(store, &user_key) {
            Err(e) => { return Err(e); },
            Ok(prior) => prior,
        };
        let new_score = match decrease(prior, amount) {
            Err(e) => { return Err(e); },
            Ok(score) => score,
        };
        if amount > opened.info.total_score {
            return Err(ContractError::InsufficientScore);
        }
        let info = StageInfo {
            stage: opened.info.stage,
            total_score: opened.info.total_score - amount,
            is_finalized: opened.info.is_finalized,
        };
        let events = Self::opening_events(&opened, stage);
        Ok(self.record_score(store, events, addr, stage, info, &user_key, new_score))
    }

    /// Sets the score of `addr` in `stage`, which stands at `info`, to
    /// `amount`: writes the score and the stage with its total moved by the
    /// difference, and returns the event and the stage as written.
    fn apply_set(
        &self,
        store: &mut MemoryStorage,
        stage: u64,
        info: StageInfo,
        addr: &str,
        amount: u64,
    ) -> (r: Result<(Event, StageInfo), ContractError>)
        ensures
            match self.ledger(*old(store)).set_score(stage, info, addr@, amount) {
                Ok((step, after)) => {
                    &&& r is Ok
                    &&& r->Ok_0.1 == after
                    &&& seq![event_view(r->Ok_0.0)] == step.events
                    &&& self.ledger(*final(store)) == step.next
                },
                Err(e) => r == Err::<(Event, StageInfo), ContractError>(e) && *final(store)
                    == *old(store),
            },
    {
        let user_key = user_score_key(addr, stage);
        let prior = match self.load_score(store, &user_key) {
            Err(e) => { return Err(e); },
            Ok(prior) => prior,
        };
        let (new_score, score_diff) = crate::score::set(prior, amount);
        let after = match info.apply_total_delta(score_diff) {
            Err(e) => { return Err(e); },
            Ok(after) => after,
        };
        self.save_score(store, &user_key, new_score);
        self.save_stage(store, stage, after);
        Ok((generate_update_score_event(addr, stage, new_score, after.total_score), after))
    }

    /// Sets the score of `addr` in `stage` to `amount` and moves the stage
    /// total by the difference. The stage must exist (`NotFound`) and must not
    /// be final (`StageFinalized`).
    pub fn update_score_internal(
        &self,
        storage: &mut MemoryStorage,
        stage: u64,
        addr: &str,
        amount: u64,
    ) -> (r: Result<Event, ContractError>)
        ensures
            match self.ledger(*old(storage)).update_score_internal(stage, addr@, amount) {
                Ok(step) => {
                    &&& r is Ok
                    &&& seq![event_view(r->Ok_0)] == step.events
                    &&& self.ledger(*final(storage)) == step.next
                },
                Err(e) => r == Err::<Event, ContractError>(e) && *final(storage) == *old(storage),
            },
            self.ledger(*old(storage)).kept_by(self.ledger(*final(storage))),
    {
        proof {
            let before = self.ledger(*storage);
            if before.update_score_internal(stage, addr@, amount) is Ok {
                lemma_update_score_internal_keeps(before, stage, addr@, amount);
            }
        }
        match self.load_stage(storage, stage) {
            Err(e) => Err(e),
            Ok(None) => Err(ContractError::NotFound),
            Ok(Some(info)) => {
                if info.is_finalized {
                    return Err(ContractError::StageFinalized);
                }
                match self.apply_set(storage, stage, info, addr, amount) {
                    Err(e) => Err(e),
                    Ok((event, _)) => Ok(event),
                }
            },
        }
    }

    /// Sets the score of `addr` in `stage` to `amount` on behalf of `sender`;
    /// the stage total follows by the difference. The stage is opened if need
    /// be. Refused for a sender not allowed, stage zero, a final stage, and
    /// where the total would leave the range of 64 bits.
    pub fn update_score(
        &self,
        store: &mut MemoryStorage,
        sender: &str,
        addr: &str,
        stage: u64,
        amount: u64,
    ) -> (r: Result<Vec<Event>, ContractError>)
        ensures
            carried_out(
                *self,
                *old(store),
                *final(store),
                r,
                self.ledger(*old(store)).update_score(sender@, addr@, stage, amount),
            ),
    {
        proof {
            let before = self.ledger(*store);
            if before.update_score(sender@, addr@, stage, amount) is Ok {
                lemma_update_score_keeps(before, sender@, addr@, stage, amount);
            }
        }
        let opened = match self.open_stage_for(store, sender, stage) {
            Err(e) => { return Err(e); },
            Ok(opened) => opened,
        };
        match self.apply_set(store, stage, opened.info, addr, amount) {
            Err(e) => Err(e),
            Ok((event, _)) => {
                let mut events = Self::opening_events(&opened, stage);
                events.push(event);
                assert(event_views(events@) =~= opened.events(stage) + seq![event_view(event)]);
                Ok(events)
            },
        }
    }

    /// Puts `addr` on the allow list and returns the event that reports it.
    /// An address already there stays there.
    pub fn add_allow_list_internal(&self, storage: &mut MemoryStorage, addr: &str) -> (event: Event)
        ensures
            self.ledger(*final(storage)) == (Ledger {
                allow_list: self.ledger(*old(storage)).allow_list.insert(addr@),
                ..self.ledger(*old(storage))
            }),
            event_view(event) == crate::event::add_allow_list_view(addr@),
    {
        let (_, _, allow_list) = self.namespaces();
        let _ = allow_save(storage, allow_list, addr);
        generate_add_allow_list_event(addr)
    }

    /// Puts `addr` on the allow list on behalf of `sender`.
    pub fn add_allow_list(&self, store: &mut MemoryStorage, sender: &str, addr: &str) -> (r: Result<
        Vec<Event>,
        ContractError,
    >)
        ensures
            carried_out(
                *self,
                *old(store),
                *final(store),
                r,
                self.ledger(*old(store)).add_allow_list(sender@, addr@),
            ),
    {
        proof {
            let before = self.ledger(*store);
            if before.add_allow_list(sender@, addr@) is Ok {
                lemma_add_allow_list_keeps(before, sender@, addr@);
            }
        }
        match self.check_permission(store, sender) {
            Err(e) => Err(e),
            Ok(()) => {
                let event = self.add_allow_list_internal(store, addr);
                let mut events: Vec<Event> = Vec::new();
                events.push(event);
                assert(event_views(events@) =~= seq![event_view(event)]);
                Ok(events)
            },
        }
    }

    /// Takes `addr` off the allow list on behalf of `sender`. Taking off an
    /// address that is not on it changes nothing and is no error.
    pub fn remove_allow_list(&self, store: &mut MemoryStorage, sender: &str, addr: &str) -> (r:
        Result<Vec<Event>, ContractError>)
        ensures
            carried_out(
                *self,
                *old(store),
                *final(store),
                r,
                self.ledger(*old(store)).remove_allow_list(sender@, addr@),
            ),
    {
        proof {
            let before = self.ledger(*store);
            if before.remove_allow_list(sender@, addr@) is Ok {
                lemma_remove_allow_list_keeps(before, sender@, addr@);
            }
        }
        match self.check_permission(store, sender) {
            Err(e) => Err(e),
            Ok(()) => {
                let (_, _, allow_list) = self.namespaces();
                allow_remove(store, allow_list, addr);
                let mut events: Vec<Event> = Vec::new();
                events.push(generate_remove_allow_list_event(addr));
                assert(event_views(events@) =~= seq![
                    crate::event::remove_allow_list_view(addr@),
                ]);
                Ok(events)
            },
        }
    }

    /// Seeds the allow list with the addresses of `msg`, in order, and
    /// returns one event per address. Nobody's permission is asked.
    pub fn instantiate(&self, store: &mut MemoryStorage, msg: &InstantiateMsg) -> (events: Vec<
        Event,
    >)
        ensures
            self.ledger(*final(store)) == self.ledger(*old(store)).instantiate(
                addr_views(msg.allow_list@),
            ).next,
            event_views(events@) == self.ledger(*old(store)).instantiate(
                addr_views(msg.allow_list@),
            ).events,
            self.ledger(*old(store)).kept_by(self.ledger(*final(store))),
    {
        let ghost start = self.ledger(*store);
        proof {
            lemma_instantiate_keeps_tables(start, addr_views(msg.allow_list@));
        }
        let ghost addrs = addr_views(msg.allow_list@);
        let mut events: Vec<Event> = Vec::new();
        let mut i: usize = 0;
        assert(event_views(events@) =~= start.instantiate(addrs.take(0)).events);
        while i < msg.allow_list.len()
            invariant
                i <= msg.allow_list.len(),
                addrs == addr_views(msg.allow_list@),
                self.ledger(*store) == start.instantiate(addrs.take(i as int)).next,
                event_views(events@) == start.instantiate(addrs.take(i as int)).events,
            decreases msg.allow_list.len() - i,
        {
            let event = self.add_allow_list_internal(store, msg.allow_list[i].as_str());
            events.push(event);
            proof {
                let upto = addrs.take(i as int + 1);
                assert(upto.drop_last() =~= addrs.take(i as int));
                assert(upto.last() == msg.allow_list@[i as int]@);
                assert(event_views(events@) =~= start.instantiate(upto).events);
            }
            i += 1;
        }
        assert(addrs.take(i as int) =~= addrs);
        events
    }

    /// Makes the change that `msg` asks for on behalf of `sender`. Whatever
    /// the change, a sender who is not on the allow list is refused with
    /// `PermissionDenied` before anything else is looked at.
    ///
    /// A change that goes through keeps a balanced ledger balanced, and no
    /// change makes a final stage open again.
    pub fn execute(&self, store: &mut MemoryStorage, sender: &str, msg: ExecuteMsg) -> (r: Result<
        Vec<Event>,
        ContractError,
    >)
        ensures
            carried_out(
                *self,
                *old(store),
                *final(store),
                r,
                self.ledger(*old(store)).execute(sender@, msg),
            ),
    {
        match msg {
            ExecuteMsg::PrepareStage { stage } => self.prepare_stage(store, sender, stage),
            ExecuteMsg::FinalizeStage { stage } => self.finalize_stage(store, sender, stage),
            ExecuteMsg::IncreaseScore { addr, stage, amount } => self.increase_score(
                store,
                sender,
                addr.as_str(),
                stage,
                amount,
            ),
            ExecuteMsg::DecreaseScore { addr, stage, amount } => self.decrease_score(
                store,
                sender,
                addr.as_str(),
                stage,
                amount,
            ),
            ExecuteMsg::UpdateScore { addr, stage, amount } => self.update_score(
                store,
                sender,
                addr.as_str(),
                stage,
                amount,
            ),
            ExecuteMsg::UpdateScores { stage, scores } => self.update_scores(
                store,
                sender,
                stage,
                &scores,
            ),
            ExecuteMsg::AddAllowList { addr } => self.add_allow_list(store, sender, addr.as_str()),
            ExecuteMsg::RemoveAllowList { addr } => self.remove_allow_list(
                store,
                sender,
                addr.as_str(),
            ),
        }
    }
}

} // verus!
