//! The questions that the ledger answers. Nobody's permission is asked, and
//! nothing is written.

use vstd::prelude::*;
use vstd::utf8::valid_utf8;
use cosmwasm_std::MemoryStorage;
use crate::error::ContractError;
use crate::keys::{
    addr_of_bytes, be_bytes, lemma_be_bytes_injective, lemma_score_key_in_stage, score_key,
    stage_bytes, stage_of_bytes, user_score_key,
};
use crate::order::{lemma_after_key_of_stage, lemma_stage_range};
use crate::msgs::{QueryMsg, QueryResponse, UserScore, UserScores};
use crate::state::{Contract, StageInfo};
use crate::store::{end_view, is_range, row_views, score_range, within};

verus! {

/// The key after which a page of the scores of `stage` starts: that of the
/// user to start after, or, without one, the bare stage number, which lies
/// before the keys of all users with a name.
pub open spec fn page_start(stage: u64, start_after: Option<Seq<char>>) -> Seq<u8> {
    match start_after {
        Some(addr) => score_key(addr, stage),
        None => be_bytes(stage),
    }
}

/// The key before which the scores of `stage` end: the number of the next
/// stage. After the last stage there is no such key.
pub open spec fn page_end(stage: u64) -> Option<Seq<u8>> {
    if stage == u64::MAX {
        None
    } else {
        Some(be_bytes((stage + 1) as u64))
    }
}

/// Whether a key of the score table spells a stage and an address.
pub open spec fn well_keyed(key: Seq<u8>) -> bool {
    key.len() >= 8 && valid_utf8(key.subrange(8, key.len() as int))
}

/// Whether `entry` is what the stored row `row` says of a score in `stage`.
pub open spec fn reads_as(entry: UserScore, row: (Seq<u8>, u64), stage: u64) -> bool {
    &&& entry.stage == stage
    &&& row.0 == score_key(entry.addr@, stage)
    &&& row.1 == entry.score
}

/// How many entries a page of at most `limit` takes from `available`.
pub open spec fn page_len(limit: u8, available: nat) -> nat {
    if limit <= available {
        limit as nat
    } else {
        available
    }
}

/// Whether `result` is the page of at most `limit` entries from the start of
/// `rows`, which are scores of `stage`: the entries decoded in order, or
/// `Undecodable` where one of these keys does not spell a stage and an
/// address.
pub open spec fn is_page(
    result: Result<UserScores, ContractError>,
    rows: Seq<(Seq<u8>, u64)>,
    stage: u64,
    limit: u8,
) -> bool {
    if forall|i: int| 0 <= i < page_len(limit, rows.len()) ==> well_keyed(#[trigger] rows[i].0) {
        &&& result is Ok
        &&& result->Ok_0.scores.len() == page_len(limit, rows.len())
        &&& forall|i: int|
            0 <= i < page_len(limit, rows.len()) ==> reads_as(
                #[trigger] result->Ok_0.scores[i],
                rows[i],
                stage,
            )
    } else {
        result == Err::<UserScores, ContractError>(ContractError::Undecodable)
    }
}

/// The text of an optional address.
pub open spec fn start_view(start_after: Option<&str>) -> Option<Seq<char>> {
    match start_after {
        Some(addr) => Some(addr@),
        None => None,
    }
}

/// Whether some score with a key between `after` and `before` does not decode.
pub open spec fn range_damaged(
    table: Map<Seq<u8>, Option<u64>>,
    after: Seq<u8>,
    before: Option<Seq<u8>>,
) -> bool {
    exists|key: Seq<u8>| within(key, after, before) && #[trigger] table.contains_pair(key, None)
}

/// Whether `result` answers the question for a page of the scores of `stage`
/// in `table`: `Undecodable` where a score in the range of the stage does not
/// decode, else the page of at most `limit` entries from the start of the
/// range, which begins after `start_after`.
pub open spec fn answers_page(
    result: Result<UserScores, ContractError>,
    table: Map<Seq<u8>, Option<u64>>,
    stage: u64,
    limit: u8,
    start_after: Option<Seq<char>>,
) -> bool {
    let after = page_start(stage, start_after);
    let before = page_end(stage);
    if range_damaged(table, after, before) {
        result == Err::<UserScores, ContractError>(ContractError::Undecodable)
    } else {
        exists|rows: Seq<(Seq<u8>, u64)>| #[trigger]
            is_range(rows, table, after, before) && is_page(result, rows, stage, limit)
    }
}

impl<'a> Contract<'a> {
    /// The score of `addr` in `stage`; `NotFound` where the user has none.
    pub fn get_score(&self, store: &MemoryStorage, addr: &str, stage: u64) -> (r: Result<
        UserScore,
        ContractError,
    >)
        ensures
            match self.ledger(*store).score_at(score_key(addr@, stage)) {
                Ok(Some(score)) => {
                    &&& r is Ok
                    &&& r->Ok_0.stage == stage
                    &&& r->Ok_0.addr@ == addr@
                    &&& r->Ok_0.score == score
                },
                Ok(None) => r == Err::<UserScore, ContractError>(ContractError::NotFound),
                Err(e) => r == Err::<UserScore, ContractError>(e),
            },
    {
        let user_key = user_score_key(addr, stage);
        match self.load_score(store, &user_key) {
            Err(e) => Err(e),
            Ok(None) => Err(ContractError::NotFound),
            Ok(Some(score)) => Ok(UserScore { stage, addr: addr.to_owned(), score }),
        }
    }

    /// The stage stored under `stage`; `NotFound` where it was never opened.
    pub fn get_stage_info(&self, store: &MemoryStorage, stage: u64) -> (r: Result<
        StageInfo,
        ContractError,
    >)
        ensures
            match self.ledger(*store).stage(stage) {
                Ok(Some(info)) => r == Ok::<StageInfo, ContractError>(info),
                Ok(None) => r == Err::<StageInfo, ContractError>(ContractError::NotFound),
                Err(e) => r == Err::<StageInfo, ContractError>(e),
            },
    {
        match self.load_stage(store, stage) {
            Err(e) => Err(e),
            Ok(None) => Err(ContractError::NotFound),
            Ok(Some(info)) => Ok(info),
        }
    }

    /// A page of the scores of `stage`: at most `limit` entries in the
    /// bytewise order of their keys, which is that of the users' addresses,
    /// starting after the entry of `start_after` where one is given. The
    /// answer depends on the storage and the arguments alone, so a caller
    /// pages through a stage by passing the last address of one page as
    /// `start_after` of the next.
    ///
    /// `Undecodable` where a score in the range of the stage does not decode,
    /// or a key on the page does not spell a stage and an address.
    pub fn get_scores(
        &self,
        store: &MemoryStorage,
        stage: u64,
        limit: u8,
        start_after: Option<&str>,
    ) -> (r: Result<UserScores, ContractError>)
        ensures
            answers_page(r, self.ledger(*store).scores, stage, limit, start_view(start_after)),
    {
        let (scores_key, _, _) = self.namespaces();
        let after = match start_after {
            Some(addr) => user_score_key(addr, stage),
            None => stage_bytes(stage),
        };
        let before = if stage == u64::MAX {
            None
        } else {
            Some(stage_bytes(stage + 1))
        };
        let ghost table = self.ledger(*store).scores;
        let ghost from = page_start(stage, start_view(start_after));
        let ghost to = page_end(stage);
        assert(after@ == from && end_view(before) == to);
        let rows = match score_range(store, scores_key, after, before) {
            Err(_) => { return Err(ContractError::Undecodable); },
            Ok(rows) => rows,
        };
        let ghost all = row_views(rows@);
        assert(!range_damaged(table, from, to)) by {
            if range_damaged(table, from, to) {
                let key = choose|key: Seq<u8>| within(key, from, to) && #[trigger]
                    table.contains_pair(key, None);
                assert(table.dom().contains(key) && within(key, from, to));
            }
        }
        let mut scores: Vec<UserScore> = Vec::new();
        let mut i: usize = 0;
        while i < rows.len() && i < limit as usize
            invariant
                i <= rows.len(),
                i <= limit,
                all == row_views(rows@),
                table == self.ledger(*store).scores,
                from == page_start(stage, start_view(start_after)),
                to == page_end(stage),
                is_range(all, table, from, to),
                !range_damaged(table, from, to),
                scores.len() == i,
                forall|k: int| 0 <= k < i ==> well_keyed(#[trigger] all[k].0),
                forall|k: int| 0 <= k < i ==> reads_as(#[trigger] scores[k], all[k], stage),
            decreases rows.len() - i,
        {
            let key = &rows[i].0;
            let score = rows[i].1;
            assert(all[i as int] == (key@, score));
            if key.len() < 8 {
                assert(!well_keyed(all[i as int].0));
                assert(is_page(Err(ContractError::Undecodable), all, stage, limit));
                return Err(ContractError::Undecodable);
            }
            let start = [key[0], key[1], key[2], key[3], key[4], key[5], key[6], key[7]];
            assert(start@ =~= key@.subrange(0, 8));
            let found_stage = stage_of_bytes(start);
            let mut head = key.clone();
            let tail = head.split_off(8);
            assert(tail@ =~= key@.subrange(8, key@.len() as int));
            let addr = match addr_of_bytes(tail) {
                Err(_) => {
                    assert(!well_keyed(all[i as int].0));
                    assert(is_page(Err(ContractError::Undecodable), all, stage, limit));
                    return Err(ContractError::Undecodable);
                },
                Ok(addr) => addr,
            };
            proof {
                vstd::utf8::decode_utf8_encode_utf8(tail@);
                assert(key@ =~= key@.subrange(0, 8) + key@.subrange(8, key@.len() as int));
                assert(within(all[i as int].0, from, to));
                match start_after {
                    Some(addr) => {
                        lemma_score_key_in_stage(addr@, stage);
                        lemma_after_key_of_stage(key@, from, stage);
                    },
                    None => {
                        lemma_stage_range(key@, stage);
                    },
                }
                lemma_be_bytes_injective(found_stage, stage);
            }
            scores.push(UserScore { stage: found_stage, addr, score });
            i += 1;
        }
        let r = Ok(UserScores { scores });
        assert(is_page(r, all, stage, limit));
        r
    }

    /// Answers the question that `msg` asks.
    pub fn query(&self, store: &MemoryStorage, msg: QueryMsg) -> (r: Result<
        QueryResponse,
        ContractError,
    >)
        ensures
            match msg {
                QueryMsg::GetScore { addr, stage } => match self.ledger(*store).score_at(
                    score_key(addr@, stage),
                ) {
                    Ok(Some(score)) => {
                        &&& r matches Ok(QueryResponse::Score(entry))
                        &&& entry.stage == stage
                        &&& entry.addr@ == addr@
                        &&& entry.score == score
                    },
                    Ok(None) => r == Err::<QueryResponse, ContractError>(ContractError::NotFound),
                    Err(e) => r == Err::<QueryResponse, ContractError>(e),
                },
                QueryMsg::GetScores { stage, limit, start_after } => {
                    let table = self.ledger(*store).scores;
                    let start = match start_after {
                        Some(addr) => Some(addr@),
                        None => None,
                    };
                    match r {
                        Ok(QueryResponse::Scores(page)) => answers_page(
                            Ok(page),
                            table,
                            stage,
                            limit,
                            start,
                        ),
                        Ok(_) => false,
                        Err(e) => answers_page(Err(e), table, stage, limit, start),
                    }
                },
                QueryMsg::GetStageInfo { stage } => match self.ledger(*store).stage(stage) {
                    Ok(Some(info)) => r == Ok::<QueryResponse, ContractError>(
                        QueryResponse::StageInfo(info),
                    ),
                    Ok(None) => r == Err::<QueryResponse, ContractError>(ContractError::NotFound),
                    Err(e) => r == Err::<QueryResponse, ContractError>(e),
                },
            },
    {
        match msg {
            QueryMsg::GetScore { addr, stage } => match self.get_score(
                store,
                addr.as_str(),
                stage,
            ) {
                Err(e) => Err(e),
                Ok(entry) => Ok(QueryResponse::Score(entry)),
            },
            QueryMsg::GetScores { stage, limit, start_after } => {
                let found = match &start_after {
                    Some(addr) => self.get_scores(store, stage, limit, Some(addr.as_str())),
                    None => self.get_scores(store, stage, limit, None),
                };
                match found {
                    Err(e) => Err(e),
                    Ok(page) => Ok(QueryResponse::Scores(page)),
                }
            },
            QueryMsg::GetStageInfo { stage } => match self.get_stage_info(store, stage) {
                Err(e) => Err(e),
                Ok(info) => Ok(QueryResponse::StageInfo(info)),
            },
        }
    }
}

} // verus!
