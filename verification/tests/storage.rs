use cosmwasm_std::{Addr, Empty, Event, MemoryStorage};
use score_ledger::event::{
    generate_add_allow_list_event, generate_finalize_stage_event, generate_prepare_stage_event,
    generate_remove_allow_list_event,
};
use score_ledger::score::{decrease, increase};
use score_ledger::{
    generate_update_score_event, user_score_key, Contract, ContractError, ExecuteMsg,
    InstantiateMsg, QueryMsg, QueryResponse, StageInfo, UserScore, UserScores,
};

fn ledger_for(allowed: &[&str]) -> (Contract<'static>, MemoryStorage) {
    let contract = Contract::default();
    let mut store = MemoryStorage::new();
    let msg = InstantiateMsg { allow_list: allowed.iter().map(|a| a.to_string()).collect() };
    contract.instantiate(&mut store, &msg);
    (contract, store)
}

fn entry(addr: &str, stage: u64, score: u64) -> UserScore {
    UserScore { addr: addr.to_string(), stage, score }
}

#[test]
fn score_key_is_stage_bytes_then_address() {
    assert_eq!(user_score_key("bob", 1), vec![0, 0, 0, 0, 0, 0, 0, 1, b'b', b'o', b'b']);
    assert_eq!(
        user_score_key("", 0x0102030405060708),
        vec![1, 2, 3, 4, 5, 6, 7, 8]
    );
    assert_eq!(user_score_key("é", u64::MAX), vec![255, 255, 255, 255, 255, 255, 255, 255, 0xc3, 0xa9]);
    assert!(user_score_key("zzz", 255) < user_score_key("", 256));
}

#[test]
fn tables_lie_where_the_storage_maps_expect_them() {
    let (contract, mut store) = ledger_for(&["alice"]);
    contract.increase_score(&mut store, "alice", "bob", 1, 50).unwrap();
    let allow_list = cw_storage_plus::Map::<Addr, Empty>::new("allow_list");
    assert!(allow_list.has(&store, Addr::unchecked("alice")));
    assert!(!allow_list.has(&store, Addr::unchecked("bob")));
    let stages = cw_storage_plus::Map::<u64, (u64, u64, bool)>::new("stages");
    assert_eq!(stages.load(&store, 1).unwrap(), (1, 50, false));
    assert!(!stages.has(&store, 2));
    let scores = cw_storage_plus::Map::<Vec<u8>, u64>::new("scores");
    assert_eq!(scores.load(&store, user_score_key("bob", 1)).unwrap(), 50);
    assert!(!scores.has(&store, user_score_key("alice", 1)));
}

#[test]
fn what_is_written_to_the_tables_is_what_the_ledger_reads() {
    let (contract, mut store) = ledger_for(&[]);
    cw_storage_plus::Map::<Addr, Empty>::new("allow_list")
        .save(&mut store, Addr::unchecked("carol"), &Empty {})
        .unwrap();
    cw_storage_plus::Map::<u64, (u64, u64, bool)>::new("stages")
        .save(&mut store, 9, &(9, 4, true))
        .unwrap();
    cw_storage_plus::Map::<Vec<u8>, u64>::new("scores")
        .save(&mut store, user_score_key("dave", 9), &4)
        .unwrap();
    assert_eq!(contract.check_permission(&store, "carol"), Ok(()));
    assert_eq!(
        contract.get_stage_info(&store, 9).unwrap(),
        StageInfo { stage: 9, total_score: 4, is_finalized: true }
    );
    assert_eq!(contract.get_score(&store, "dave", 9).unwrap(), entry("dave", 9, 4));
    assert_eq!(contract.get_scores(&store, 9, 5, None).unwrap().scores, vec![entry("dave", 9, 4)]);
}

#[test]
fn allow_list_grows_and_shrinks() {
    let (contract, mut store) = ledger_for(&["alice"]);
    let added = contract.add_allow_list(&mut store, "alice", "bob").unwrap();
    assert_eq!(added, vec![Event::new("add-allow-list").add_attribute("addr", "bob")]);
    assert_eq!(contract.check_permission(&store, "bob"), Ok(()));
    assert_eq!(contract.add_allow_list(&mut store, "bob", "bob").unwrap().len(), 1);
    let removed = contract.remove_allow_list(&mut store, "bob", "alice").unwrap();
    assert_eq!(removed, vec![Event::new("remove-allow-list").add_attribute("addr", "alice")]);
    assert_eq!(contract.check_permission(&store, "alice"), Err(ContractError::PermissionDenied));
    assert_eq!(contract.remove_allow_list(&mut store, "bob", "alice").unwrap(), removed);
    assert_eq!(contract.remove_allow_list(&mut store, "bob", "bob").unwrap().len(), 1);
    assert_eq!(contract.check_permission(&store, "bob"), Err(ContractError::PermissionDenied));
    assert_eq!(
        contract.add_allow_list(&mut store, "bob", "bob"),
        Err(ContractError::PermissionDenied)
    );
}

#[test]
fn instantiate_reports_each_address_in_order() {
    let contract = Contract::default();
    let mut store = MemoryStorage::new();
    let msg = InstantiateMsg {
        allow_list: vec!["carol".to_string(), "alice".to_string(), "carol".to_string()],
    };
    let events = contract.instantiate(&mut store, &msg);
    assert_eq!(
        events,
        vec![
            Event::new("add-allow-list").add_attribute("addr", "carol"),
            Event::new("add-allow-list").add_attribute("addr", "alice"),
            Event::new("add-allow-list").add_attribute("addr", "carol"),
        ]
    );
    assert_eq!(contract.check_permission(&store, "alice"), Ok(()));
    assert_eq!(contract.check_permission(&store, "carol"), Ok(()));
    assert_eq!(contract.check_permission(&store, "bob"), Err(ContractError::PermissionDenied));
    let empty = contract.instantiate(&mut MemoryStorage::new(), &InstantiateMsg { allow_list: vec![] });
    assert!(empty.is_empty());
}

#[test]
fn add_allow_list_internal_asks_no_permission() {
    let contract = Contract::default();
    let mut store = MemoryStorage::new();
    let event = contract.add_allow_list_internal(&mut store, "alice");
    assert_eq!(event, Event::new("add-allow-list").add_attribute("addr", "alice"));
    assert_eq!(contract.check_permission(&store, "alice"), Ok(()));
}

#[test]
fn events_carry_numbers_in_decimal() {
    assert_eq!(
        generate_update_score_event("bob", 0, 10, u64::MAX),
        Event::new("update-score")
            .add_attribute("addr", "bob")
            .add_attribute("stage", "0")
            .add_attribute("score", "10")
            .add_attribute("total_score", "18446744073709551615")
    );
    assert_eq!(
        generate_prepare_stage_event(1234567890),
        Event::new("prepare-stage").add_attribute("stage", "1234567890")
    );
    assert_eq!(
        generate_finalize_stage_event(7),
        Event::new("finalize-stage").add_attribute("stage", "7")
    );
    assert_eq!(
        generate_add_allow_list_event("x"),
        Event::new("add-allow-list").add_attribute("addr", "x")
    );
    assert_eq!(
        generate_remove_allow_list_event(""),
        Event::new("remove-allow-list").add_attribute("addr", "")
    );
}

#[test]
fn score_arithmetic_is_exact() {
    assert_eq!(increase(None, 0), Ok(0));
    assert_eq!(increase(None, 7), Ok(7));
    assert_eq!(increase(Some(5), 7), Ok(12));
    assert_eq!(increase(Some(u64::MAX), 0), Ok(u64::MAX));
    assert_eq!(increase(Some(u64::MAX - 1), 2), Err(ContractError::Overflow));
    assert_eq!(decrease(None, 0), Err(ContractError::UserNotFound));
    assert_eq!(decrease(Some(5), 5), Ok(0));
    assert_eq!(decrease(Some(5), 2), Ok(3));
    assert_eq!(decrease(Some(5), 6), Err(ContractError::InsufficientScore));
    assert_eq!(score_ledger::score::set(None, 9), (9, 9));
    assert_eq!(score_ledger::score::set(Some(12), 9), (9, -3));
    assert_eq!(score_ledger::score::set(Some(u64::MAX), 0), (0, -(u64::MAX as i128)));
    assert_eq!(score_ledger::score::set(Some(0), u64::MAX), (u64::MAX, u64::MAX as i128));
}

#[test]
fn stage_total_follows_a_signed_change() {
    let info = StageInfo { stage: 2, total_score: 10, is_finalized: true };
    assert_eq!(
        info.apply_total_delta(5),
        Ok(StageInfo { stage: 2, total_score: 15, is_finalized: true })
    );
    assert_eq!(
        info.apply_total_delta(-10),
        Ok(StageInfo { stage: 2, total_score: 0, is_finalized: true })
    );
    assert_eq!(info.apply_total_delta(0), Ok(info));
    assert_eq!(info.apply_total_delta(-11), Err(ContractError::Underflow));
    assert_eq!(info.apply_total_delta(i128::MIN), Err(ContractError::Underflow));
    assert_eq!(
        info.apply_total_delta((u64::MAX - 10) as i128),
        Ok(StageInfo { stage: 2, total_score: u64::MAX, is_finalized: true })
    );
    assert_eq!(info.apply_total_delta((u64::MAX - 9) as i128), Err(ContractError::Overflow));
    assert_eq!(info.apply_total_delta(i128::MAX), Err(ContractError::Overflow));
    assert_eq!(StageInfo::new(3), StageInfo { stage: 3, total_score: 0, is_finalized: false });
    assert_eq!(info.to_row(), (2, 10, true));
    assert_eq!(StageInfo::from_row((2, 10, true)), info);
}

#[test]
fn scores_come_in_the_order_of_addresses() {
    let (contract, mut store) = ledger_for(&["alice"]);
    for (addr, amount) in [("dave", 4), ("bob", 2), ("carol", 3), ("bobby", 9), ("alice", 1)] {
        contract.increase_score(&mut store, "alice", addr, 1, amount).unwrap();
    }
    contract.increase_score(&mut store, "alice", "aaron", 2, 7).unwrap();
    let all = contract.get_scores(&store, 1, 255, None).unwrap();
    assert_eq!(
        all.scores,
        vec![
            entry("alice", 1, 1),
            entry("bob", 1, 2),
            entry("bobby", 1, 9),
            entry("carol", 1, 3),
            entry("dave", 1, 4),
        ]
    );
    let first = contract.get_scores(&store, 1, 2, None).unwrap();
    assert_eq!(first.scores, vec![entry("alice", 1, 1), entry("bob", 1, 2)]);
    let second = contract.get_scores(&store, 1, 2, Some("bob")).unwrap();
    assert_eq!(second.scores, vec![entry("bobby", 1, 9), entry("carol", 1, 3)]);
    let third = contract.get_scores(&store, 1, 2, Some("carol")).unwrap();
    assert_eq!(third.scores, vec![entry("dave", 1, 4)]);
    assert!(contract.get_scores(&store, 1, 2, Some("dave")).unwrap().scores.is_empty());
    assert!(contract.get_scores(&store, 1, 0, None).unwrap().scores.is_empty());
    let between = contract.get_scores(&store, 1, 1, Some("bo")).unwrap();
    assert_eq!(between.scores, vec![entry("bob", 1, 2)]);
    assert_eq!(contract.get_scores(&store, 1, 2, None).unwrap(), first);
    assert_eq!(contract.get_scores(&store, 2, 255, None).unwrap().scores, vec![entry("aaron", 2, 7)]);
    assert!(contract.get_scores(&store, 3, 255, None).unwrap().scores.is_empty());
    assert!(contract.get_scores(&store, 0, 255, None).unwrap().scores.is_empty());
}

#[test]
fn a_page_never_leaves_its_stage() {
    let (contract, mut store) = ledger_for(&["alice"]);
    for stage in [254u64, 255, 256, 257, u64::MAX - 1, u64::MAX] {
        contract.increase_score(&mut store, "alice", "bob", stage, stage % 1000).unwrap();
        contract.increase_score(&mut store, "alice", "\u{10ffff}", stage, 1).unwrap();
    }
    for stage in [254u64, 255, 256, 257, u64::MAX - 1, u64::MAX] {
        let page = contract.get_scores(&store, stage, 255, None).unwrap();
        assert_eq!(
            page.scores,
            vec![entry("bob", stage, stage % 1000), entry("\u{10ffff}", stage, 1)]
        );
        let rest = contract.get_scores(&store, stage, 255, Some("bob")).unwrap();
        assert_eq!(rest.scores, vec![entry("\u{10ffff}", stage, 1)]);
        assert!(contract.get_scores(&store, stage, 255, Some("\u{10ffff}")).unwrap().scores.is_empty());
    }
}

#[test]
fn user_without_a_name_is_stored_but_not_listed() {
    let (contract, mut store) = ledger_for(&["alice"]);
    contract.increase_score(&mut store, "alice", "", 1, 5).unwrap();
    contract.increase_score(&mut store, "alice", "bob", 1, 1).unwrap();
    assert_eq!(contract.get_score(&store, "", 1).unwrap().score, 5);
    assert_eq!(contract.get_stage_info(&store, 1).unwrap().total_score, 6);
    assert_eq!(contract.get_scores(&store, 1, 10, None).unwrap().scores, vec![entry("bob", 1, 1)]);
    assert_eq!(contract.get_scores(&store, 1, 10, Some("")).unwrap().scores, vec![entry("bob", 1, 1)]);
}

#[test]
fn execute_and_query_dispatch_by_message() {
    let (contract, mut store) = ledger_for(&["alice"]);
    let events = contract
        .execute(
            &mut store,
            "alice",
            ExecuteMsg::IncreaseScore { addr: "bob".to_string(), stage: 1, amount: 50 },
        )
        .unwrap();
    assert_eq!(events.len(), 2);
    assert_eq!(events[1], generate_update_score_event("bob", 1, 50, 50));
    assert_eq!(
        contract.execute(&mut store, "eve", ExecuteMsg::PrepareStage { stage: 2 }),
        Err(ContractError::PermissionDenied)
    );
    assert_eq!(
        contract.execute(&mut store, "alice", ExecuteMsg::PrepareStage { stage: 2 }).unwrap(),
        vec![generate_prepare_stage_event(2)]
    );
    assert_eq!(
        contract.execute(&mut store, "alice", ExecuteMsg::FinalizeStage { stage: 2 }).unwrap(),
        vec![generate_finalize_stage_event(2)]
    );
    assert_eq!(
        contract.query(&store, QueryMsg::GetScore { addr: "bob".to_string(), stage: 1 }),
        Ok(QueryResponse::Score(entry("bob", 1, 50)))
    );
    assert_eq!(
        contract.query(&store, QueryMsg::GetScore { addr: "bob".to_string(), stage: 2 }),
        Err(ContractError::NotFound)
    );
    assert_eq!(
        contract.query(&store, QueryMsg::GetStageInfo { stage: 2 }),
        Ok(QueryResponse::StageInfo(StageInfo { stage: 2, total_score: 0, is_finalized: true }))
    );
    assert_eq!(
        contract.query(&store, QueryMsg::GetStageInfo { stage: 3 }),
        Err(ContractError::NotFound)
    );
    assert_eq!(
        contract.query(&store, QueryMsg::GetScores { stage: 1, limit: 10, start_after: None }),
        Ok(QueryResponse::Scores(UserScores { scores: vec![entry("bob", 1, 50)] }))
    );
    assert_eq!(
        contract.query(
            &store,
            QueryMsg::GetScores { stage: 1, limit: 10, start_after: Some("bob".to_string()) }
        ),
        Ok(QueryResponse::Scores(UserScores { scores: vec![] }))
    );
}

#[test]
fn update_score_internal_needs_an_open_stage() {
    let (contract, mut store) = ledger_for(&["alice"]);
    contract.prepare_stage(&mut store, "alice", 1).unwrap();
    let event = contract.update_score_internal(&mut store, 1, "bob", 8).unwrap();
    assert_eq!(event, generate_update_score_event("bob", 1, 8, 8));
    let event = contract.update_score_internal(&mut store, 1, "bob", 3).unwrap();
    assert_eq!(event, generate_update_score_event("bob", 1, 3, 3));
    assert_eq!(contract.get_stage_info(&store, 1).unwrap().total_score, 3);
}
