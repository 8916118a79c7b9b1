use cosmwasm_std::MemoryStorage;
use score_ledger::{Contract, ContractError, ExecuteMsg, InstantiateMsg, StageInfo};

fn ledger_for(allowed: &[&str]) -> (Contract<'static>, MemoryStorage) {
    let contract = Contract::default();
    let mut store = MemoryStorage::new();
    let msg = InstantiateMsg { allow_list: allowed.iter().map(|a| a.to_string()).collect() };
    contract.instantiate(&mut store, &msg);
    (contract, store)
}

fn sum_of_scores(contract: &Contract, store: &MemoryStorage, stage: u64) -> u64 {
    let page = contract.get_scores(store, stage, 255, None).unwrap();
    page.scores.iter().map(|entry| entry.score).sum()
}

fn assert_balanced(contract: &Contract, store: &MemoryStorage, stages: &[u64]) {
    for stage in stages {
        let info = contract.get_stage_info(store, *stage).unwrap();
        assert_eq!(info.total_score, sum_of_scores(contract, store, *stage));
    }
}

#[test]
fn total_is_sum_of_scores_after_each_change() {
    let (contract, mut store) = ledger_for(&["alice"]);
    let changes = vec![
        ExecuteMsg::IncreaseScore { addr: "bob".to_string(), stage: 1, amount: 50 },
        ExecuteMsg::IncreaseScore { addr: "carol".to_string(), stage: 1, amount: 7 },
        ExecuteMsg::IncreaseScore { addr: "bob".to_string(), stage: 2, amount: 3 },
        ExecuteMsg::DecreaseScore { addr: "bob".to_string(), stage: 1, amount: 20 },
        ExecuteMsg::UpdateScore { addr: "dave".to_string(), stage: 1, amount: 11 },
        ExecuteMsg::UpdateScore { addr: "carol".to_string(), stage: 1, amount: 2 },
        ExecuteMsg::UpdateScores {
            stage: 2,
            scores: vec![("bob".to_string(), 9), ("erin".to_string(), 1), ("bob".to_string(), 4)],
        },
        ExecuteMsg::AddAllowList { addr: "zoe".to_string() },
        ExecuteMsg::FinalizeStage { stage: 1 },
        ExecuteMsg::RemoveAllowList { addr: "zoe".to_string() },
    ];
    for change in changes {
        contract.execute(&mut store, "alice", change).unwrap();
        assert_balanced(&contract, &store, &[1]);
    }
    assert_balanced(&contract, &store, &[1, 2]);
    assert_eq!(contract.get_stage_info(&store, 1).unwrap().total_score, 30 + 2 + 11);
    assert_eq!(contract.get_stage_info(&store, 2).unwrap().total_score, 4 + 1);
}

#[test]
fn finalized_never_reopens() {
    let (contract, mut store) = ledger_for(&["alice"]);
    contract.increase_score(&mut store, "alice", "bob", 1, 5).unwrap();
    contract.finalize_stage(&mut store, "alice", 1).unwrap();
    let attempts = vec![
        ExecuteMsg::PrepareStage { stage: 1 },
        ExecuteMsg::FinalizeStage { stage: 1 },
        ExecuteMsg::IncreaseScore { addr: "bob".to_string(), stage: 1, amount: 1 },
        ExecuteMsg::DecreaseScore { addr: "bob".to_string(), stage: 1, amount: 1 },
        ExecuteMsg::UpdateScore { addr: "bob".to_string(), stage: 1, amount: 1 },
        ExecuteMsg::UpdateScores { stage: 1, scores: vec![("bob".to_string(), 1)] },
        ExecuteMsg::IncreaseScore { addr: "bob".to_string(), stage: 2, amount: 1 },
        ExecuteMsg::AddAllowList { addr: "carol".to_string() },
        ExecuteMsg::RemoveAllowList { addr: "carol".to_string() },
    ];
    for attempt in attempts {
        let _ = contract.execute(&mut store, "alice", attempt);
        assert_eq!(
            contract.get_stage_info(&store, 1).unwrap(),
            StageInfo { stage: 1, total_score: 5, is_finalized: true }
        );
    }
}

#[test]
fn prepare_stage_twice_is_same_as_once() {
    let (contract, mut store) = ledger_for(&["alice"]);
    let first = contract.prepare_stage(&mut store, "alice", 4).unwrap();
    assert_eq!(first.len(), 1);
    let once = contract.get_stage_info(&store, 4).unwrap();
    assert_eq!(once, StageInfo { stage: 4, total_score: 0, is_finalized: false });
    let second = contract.prepare_stage(&mut store, "alice", 4).unwrap();
    assert!(second.is_empty());
    assert_eq!(contract.get_stage_info(&store, 4).unwrap(), once);
    assert!(contract.get_scores(&store, 4, 255, None).unwrap().scores.is_empty());
}

#[test]
fn prepare_stage_keeps_an_existing_total() {
    let (contract, mut store) = ledger_for(&["alice"]);
    contract.increase_score(&mut store, "alice", "bob", 4, 9).unwrap();
    assert!(contract.prepare_stage(&mut store, "alice", 4).unwrap().is_empty());
    assert!(contract.prepare_stage_internal(4, &mut store).unwrap().is_none());
    assert_eq!(contract.get_stage_info(&store, 4).unwrap().total_score, 9);
}

#[test]
fn increase_then_decrease_restores() {
    let (contract, mut store) = ledger_for(&["alice"]);
    contract.increase_score(&mut store, "alice", "bob", 1, 40).unwrap();
    contract.increase_score(&mut store, "alice", "carol", 1, 2).unwrap();
    contract.increase_score(&mut store, "alice", "bob", 1, 17).unwrap();
    contract.decrease_score(&mut store, "alice", "bob", 1, 17).unwrap();
    assert_eq!(contract.get_score(&store, "bob", 1).unwrap().score, 40);
    assert_eq!(contract.get_stage_info(&store, 1).unwrap().total_score, 42);
}

#[test]
fn increase_then_decrease_on_a_new_user_leaves_zero() {
    let (contract, mut store) = ledger_for(&["alice"]);
    contract.increase_score(&mut store, "alice", "bob", 3, 8).unwrap();
    contract.decrease_score(&mut store, "alice", "bob", 3, 8).unwrap();
    assert_eq!(contract.get_score(&store, "bob", 3).unwrap().score, 0);
    assert_eq!(contract.get_stage_info(&store, 3).unwrap().total_score, 0);
}

#[test]
fn update_score_sets_exact_value() {
    let (contract, mut store) = ledger_for(&["alice"]);
    contract.increase_score(&mut store, "alice", "carol", 1, 100).unwrap();
    contract.update_score(&mut store, "alice", "bob", 1, 30).unwrap();
    assert_eq!(contract.get_score(&store, "bob", 1).unwrap().score, 30);
    assert_eq!(contract.get_stage_info(&store, 1).unwrap().total_score, 130);
    contract.update_score(&mut store, "alice", "bob", 1, 12).unwrap();
    assert_eq!(contract.get_score(&store, "bob", 1).unwrap().score, 12);
    assert_eq!(contract.get_stage_info(&store, 1).unwrap().total_score, 112);
    contract.update_score(&mut store, "alice", "bob", 1, 12).unwrap();
    assert_eq!(contract.get_stage_info(&store, 1).unwrap().total_score, 112);
    contract.update_score(&mut store, "alice", "bob", 1, 0).unwrap();
    assert_eq!(contract.get_score(&store, "bob", 1).unwrap().score, 0);
    assert_eq!(contract.get_stage_info(&store, 1).unwrap().total_score, 100);
}

#[test]
fn prepare_stage_zero_is_invalid() {
    let (contract, mut store) = ledger_for(&["alice"]);
    assert_eq!(contract.prepare_stage(&mut store, "alice", 0), Err(ContractError::InvalidStage));
    assert_eq!(contract.prepare_stage_internal(0, &mut store), Err(ContractError::InvalidStage));
    assert_eq!(contract.get_stage_info(&store, 0), Err(ContractError::NotFound));
    assert_eq!(contract.prepare_stage(&mut store, "alice", 1).unwrap().len(), 1);
}

#[test]
fn decrease_beyond_score_is_refused_and_changes_nothing() {
    let (contract, mut store) = ledger_for(&["alice"]);
    contract.increase_score(&mut store, "alice", "bob", 1, 10).unwrap();
    contract.increase_score(&mut store, "alice", "carol", 1, 90).unwrap();
    let refused = contract.decrease_score(&mut store, "alice", "bob", 1, 11);
    assert_eq!(refused, Err(ContractError::InsufficientScore));
    assert_eq!(contract.get_score(&store, "bob", 1).unwrap().score, 10);
    assert_eq!(contract.get_score(&store, "carol", 1).unwrap().score, 90);
    assert_eq!(
        contract.get_stage_info(&store, 1).unwrap(),
        StageInfo { stage: 1, total_score: 100, is_finalized: false }
    );
    assert_eq!(contract.decrease_score(&mut store, "alice", "bob", 1, 10).unwrap().len(), 1);
    assert_eq!(contract.get_score(&store, "bob", 1).unwrap().score, 0);
}

#[test]
fn refused_change_on_a_new_stage_does_not_open_it() {
    let (contract, mut store) = ledger_for(&["alice"]);
    let refused = contract.decrease_score(&mut store, "alice", "bob", 6, 1);
    assert_eq!(refused, Err(ContractError::UserNotFound));
    assert_eq!(contract.get_stage_info(&store, 6), Err(ContractError::NotFound));
}
