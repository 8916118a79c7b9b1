use cosmwasm_std::{Event, MemoryStorage};
use score_ledger::{Contract, ContractError, InstantiateMsg, UserScore};

fn ledger_with_alice() -> (Contract<'static>, MemoryStorage) {
    let contract = Contract::default();
    let mut store = MemoryStorage::new();
    let msg = InstantiateMsg { allow_list: vec!["alice".to_string()] };
    let events = contract.instantiate(&mut store, &msg);
    assert_eq!(events, vec![Event::new("add-allow-list").add_attribute("addr", "alice")]);
    (contract, store)
}

fn update_score_event(addr: &str, stage: &str, score: &str, total: &str) -> Event {
    Event::new("update-score")
        .add_attribute("addr", addr)
        .add_attribute("stage", stage)
        .add_attribute("score", score)
        .add_attribute("total_score", total)
}

#[test]
fn first_increase_opens_the_stage() {
    let (contract, mut store) = ledger_with_alice();
    let events = contract.increase_score(&mut store, "alice", "bob", 1, 50).unwrap();
    assert_eq!(
        events,
        vec![
            Event::new("prepare-stage").add_attribute("stage", "1"),
            update_score_event("bob", "1", "50", "50"),
        ]
    );
}

#[test]
fn decrease_reports_new_score_and_total() {
    let (contract, mut store) = ledger_with_alice();
    contract.increase_score(&mut store, "alice", "bob", 1, 50).unwrap();
    let events = contract.decrease_score(&mut store, "alice", "bob", 1, 20).unwrap();
    assert_eq!(events, vec![update_score_event("bob", "1", "30", "30")]);
}

#[test]
fn finalized_stage_refuses_increase() {
    let (contract, mut store) = ledger_with_alice();
    contract.increase_score(&mut store, "alice", "bob", 1, 50).unwrap();
    contract.decrease_score(&mut store, "alice", "bob", 1, 20).unwrap();
    let events = contract.finalize_stage(&mut store, "alice", 1).unwrap();
    assert_eq!(events, vec![Event::new("finalize-stage").add_attribute("stage", "1")]);
    let refused = contract.increase_score(&mut store, "alice", "bob", 1, 1);
    assert_eq!(refused, Err(ContractError::StageFinalized));
    assert_eq!(contract.get_score(&store, "bob", 1).unwrap().score, 30);
    let info = contract.get_stage_info(&store, 1).unwrap();
    assert_eq!(info.total_score, 30);
    assert!(info.is_finalized);
}

#[test]
fn scores_are_listed_and_paged() {
    let (contract, mut store) = ledger_with_alice();
    contract.increase_score(&mut store, "alice", "bob", 1, 50).unwrap();
    let page = contract.get_scores(&store, 1, 10, None).unwrap();
    assert_eq!(page.scores, vec![UserScore { addr: "bob".to_string(), stage: 1, score: 50 }]);
    let next = contract.get_scores(&store, 1, 10, Some("bob")).unwrap();
    assert!(next.scores.is_empty());
}

#[test]
fn stranger_is_refused_everywhere() {
    let (contract, mut store) = ledger_with_alice();
    let denied = Err(ContractError::PermissionDenied);
    assert_eq!(contract.prepare_stage(&mut store, "eve", 1), denied);
    assert_eq!(contract.finalize_stage(&mut store, "eve", 1), denied);
    assert_eq!(contract.increase_score(&mut store, "eve", "bob", 1, 5), denied);
    assert_eq!(contract.decrease_score(&mut store, "eve", "bob", 1, 5), denied);
    assert_eq!(contract.update_score(&mut store, "eve", "bob", 1, 5), denied);
    assert_eq!(
        contract.update_scores(&mut store, "eve", 1, &vec![("bob".to_string(), 5)]),
        denied
    );
    assert_eq!(contract.add_allow_list(&mut store, "eve", "eve"), denied);
    assert_eq!(contract.remove_allow_list(&mut store, "eve", "alice"), denied);
    assert_eq!(contract.get_stage_info(&store, 1), Err(ContractError::NotFound));
    assert_eq!(contract.get_score(&store, "bob", 1), Err(ContractError::NotFound));
    assert!(contract.check_permission(&store, "alice").is_ok());
}
