use cosmwasm_std::MemoryStorage;
use score_ledger::{user_score_key, Contract, ContractError, InstantiateMsg, StageInfo};

fn ledger_with_alice() -> (Contract<'static>, MemoryStorage) {
    let contract = Contract::default();
    let mut store = MemoryStorage::new();
    contract.instantiate(&mut store, &InstantiateMsg { allow_list: vec!["alice".to_string()] });
    (contract, store)
}

#[test]
fn permission_is_checked_before_the_stage_number() {
    let (contract, mut store) = ledger_with_alice();
    assert_eq!(contract.prepare_stage(&mut store, "eve", 0), Err(ContractError::PermissionDenied));
    assert_eq!(contract.check_permission(&store, "eve"), Err(ContractError::PermissionDenied));
    assert_eq!(contract.check_permission(&store, ""), Err(ContractError::PermissionDenied));
    assert_eq!(contract.check_permission(&store, "alice"), Ok(()));
}

#[test]
fn stage_zero_is_invalid_for_every_score_change() {
    let (contract, mut store) = ledger_with_alice();
    let invalid = Err(ContractError::InvalidStage);
    assert_eq!(contract.increase_score(&mut store, "alice", "bob", 0, 1), invalid);
    assert_eq!(contract.decrease_score(&mut store, "alice", "bob", 0, 1), invalid);
    assert_eq!(contract.update_score(&mut store, "alice", "bob", 0, 1), invalid);
    assert_eq!(contract.update_scores(&mut store, "alice", 0, &vec![]), invalid);
}

#[test]
fn missing_stage_or_score_is_not_found() {
    let (contract, mut store) = ledger_with_alice();
    assert_eq!(contract.finalize_stage(&mut store, "alice", 3), Err(ContractError::NotFound));
    assert_eq!(contract.finalize_stage(&mut store, "alice", 0), Err(ContractError::NotFound));
    assert_eq!(contract.get_stage_info(&store, 3), Err(ContractError::NotFound));
    assert_eq!(contract.get_score(&store, "bob", 3), Err(ContractError::NotFound));
    assert_eq!(
        contract.update_score_internal(&mut store, 3, "bob", 1),
        Err(ContractError::NotFound)
    );
    contract.prepare_stage(&mut store, "alice", 3).unwrap();
    assert_eq!(contract.get_score(&store, "bob", 3), Err(ContractError::NotFound));
}

#[test]
fn final_stage_refuses_every_score_change() {
    let (contract, mut store) = ledger_with_alice();
    contract.increase_score(&mut store, "alice", "bob", 1, 5).unwrap();
    contract.finalize_stage(&mut store, "alice", 1).unwrap();
    let closed = Err(ContractError::StageFinalized);
    assert_eq!(contract.increase_score(&mut store, "alice", "bob", 1, 1), closed);
    assert_eq!(contract.decrease_score(&mut store, "alice", "bob", 1, 1), closed);
    assert_eq!(contract.update_score(&mut store, "alice", "bob", 1, 1), closed);
    assert_eq!(contract.update_scores(&mut store, "alice", 1, &vec![]), closed);
    assert_eq!(
        contract.update_score_internal(&mut store, 1, "bob", 1),
        Err(ContractError::StageFinalized)
    );
    assert_eq!(contract.finalize_stage(&mut store, "alice", 1).unwrap().len(), 1);
    assert_eq!(contract.prepare_stage(&mut store, "alice", 1).unwrap().len(), 0);
    assert_eq!(contract.get_score(&store, "bob", 1).unwrap().score, 5);
}

#[test]
fn decrease_without_a_score_is_user_not_found() {
    let (contract, mut store) = ledger_with_alice();
    contract.increase_score(&mut store, "alice", "bob", 1, 5).unwrap();
    assert_eq!(
        contract.decrease_score(&mut store, "alice", "carol", 1, 0),
        Err(ContractError::UserNotFound)
    );
    assert_eq!(
        contract.decrease_score(&mut store, "alice", "bob", 2, 1),
        Err(ContractError::UserNotFound)
    );
    assert_eq!(contract.get_stage_info(&store, 2), Err(ContractError::NotFound));
}

#[test]
fn decrease_beyond_the_stage_total_is_insufficient() {
    let (contract, mut store) = ledger_with_alice();
    cw_storage_plus::Map::<u64, (u64, u64, bool)>::new("stages").save(&mut store, 1, &(1, 5, false)).unwrap();
    cw_storage_plus::Map::<Vec<u8>, u64>::new("scores").save(&mut store, user_score_key("bob", 1), &10).unwrap();
    assert_eq!(
        contract.decrease_score(&mut store, "alice", "bob", 1, 7),
        Err(ContractError::InsufficientScore)
    );
    assert_eq!(contract.get_score(&store, "bob", 1).unwrap().score, 10);
    assert_eq!(contract.get_stage_info(&store, 1).unwrap().total_score, 5);
    contract.decrease_score(&mut store, "alice", "bob", 1, 5).unwrap();
    assert_eq!(contract.get_score(&store, "bob", 1).unwrap().score, 5);
    assert_eq!(contract.get_stage_info(&store, 1).unwrap().total_score, 0);
}

#[test]
fn total_below_zero_is_underflow() {
    let (contract, mut store) = ledger_with_alice();
    cw_storage_plus::Map::<u64, (u64, u64, bool)>::new("stages").save(&mut store, 1, &(1, 0, false)).unwrap();
    cw_storage_plus::Map::<Vec<u8>, u64>::new("scores").save(&mut store, user_score_key("bob", 1), &10).unwrap();
    assert_eq!(
        contract.update_score(&mut store, "alice", "bob", 1, 5),
        Err(ContractError::Underflow)
    );
    assert_eq!(contract.get_score(&store, "bob", 1).unwrap().score, 10);
    assert_eq!(contract.get_stage_info(&store, 1).unwrap().total_score, 0);
    assert_eq!(contract.update_score(&mut store, "alice", "bob", 1, 10).unwrap().len(), 1);
}

#[test]
fn score_or_total_beyond_64_bits_is_overflow() {
    let (contract, mut store) = ledger_with_alice();
    contract.increase_score(&mut store, "alice", "bob", 1, u64::MAX).unwrap();
    assert_eq!(
        contract.increase_score(&mut store, "alice", "bob", 1, 1),
        Err(ContractError::Overflow)
    );
    assert_eq!(
        contract.increase_score(&mut store, "alice", "carol", 1, 1),
        Err(ContractError::Overflow)
    );
    assert_eq!(
        contract.update_score(&mut store, "alice", "carol", 1, 1),
        Err(ContractError::Overflow)
    );
    assert_eq!(contract.get_score(&store, "carol", 1), Err(ContractError::NotFound));
    assert_eq!(contract.get_score(&store, "bob", 1).unwrap().score, u64::MAX);
    assert_eq!(contract.get_stage_info(&store, 1).unwrap().total_score, u64::MAX);
    contract.update_score(&mut store, "alice", "bob", 1, 1).unwrap();
    contract.update_score(&mut store, "alice", "carol", 1, u64::MAX - 1).unwrap();
    assert_eq!(contract.get_stage_info(&store, 1).unwrap().total_score, u64::MAX);
}

#[test]
fn stored_stage_that_does_not_decode_is_reported() {
    let (contract, mut store) = ledger_with_alice();
    cw_storage_plus::Map::<u64, String>::new("stages").save(&mut store, 1, &"junk".to_string()).unwrap();
    let broken = Err(ContractError::Undecodable);
    assert_eq!(contract.get_stage_info(&store, 1), Err(ContractError::Undecodable));
    assert_eq!(contract.prepare_stage(&mut store, "alice", 1), broken);
    assert_eq!(contract.finalize_stage(&mut store, "alice", 1), broken);
    assert_eq!(contract.increase_score(&mut store, "alice", "bob", 1, 1), broken);
    assert_eq!(contract.prepare_stage_internal(1, &mut store), Err(ContractError::Undecodable));
    assert_eq!(
        cw_storage_plus::Map::<u64, String>::new("stages").load(&store, 1).unwrap(),
        "junk".to_string()
    );
}

#[test]
fn stored_score_that_does_not_decode_is_reported() {
    let (contract, mut store) = ledger_with_alice();
    contract.prepare_stage(&mut store, "alice", 1).unwrap();
    cw_storage_plus::Map::<Vec<u8>, String>::new("scores")
        .save(&mut store, user_score_key("bob", 1), &"junk".to_string())
        .unwrap();
    let broken = Err(ContractError::Undecodable);
    assert_eq!(contract.get_score(&store, "bob", 1), Err(ContractError::Undecodable));
    assert_eq!(contract.increase_score(&mut store, "alice", "bob", 1, 1), broken);
    assert_eq!(contract.decrease_score(&mut store, "alice", "bob", 1, 1), broken);
    assert_eq!(contract.update_score(&mut store, "alice", "bob", 1, 1), broken);
    assert_eq!(contract.get_scores(&store, 1, 10, None), Err(ContractError::Undecodable));
    assert_eq!(
        contract.get_stage_info(&store, 1).unwrap(),
        StageInfo { stage: 1, total_score: 0, is_finalized: false }
    );
    assert_eq!(contract.increase_score(&mut store, "alice", "carol", 1, 1).unwrap().len(), 1);
}

#[test]
fn key_that_spells_no_address_is_reported() {
    let (contract, mut store) = ledger_with_alice();
    let mut key = user_score_key("", 1);
    key.push(0xff);
    cw_storage_plus::Map::<Vec<u8>, u64>::new("scores").save(&mut store, key, &3).unwrap();
    assert_eq!(contract.get_scores(&store, 1, 10, None), Err(ContractError::Undecodable));
    assert_eq!(contract.get_scores(&store, 1, 0, None).unwrap().scores.len(), 0);
}

#[test]
fn key_shorter_than_a_stage_number_is_reported() {
    let (contract, mut store) = ledger_with_alice();
    cw_storage_plus::Map::<Vec<u8>, u64>::new("scores").save(&mut store, vec![0, 0, 0, 0, 0, 0, 1], &3).unwrap();
    assert_eq!(contract.get_scores(&store, 255, 10, None), Err(ContractError::Undecodable));
    assert!(contract.get_scores(&store, 254, 10, None).unwrap().scores.is_empty());
    assert!(contract.get_scores(&store, 256, 10, None).unwrap().scores.is_empty());
}

#[test]
fn every_refusal_has_its_message() {
    assert_eq!(ContractError::PermissionDenied.message(), "Address is not allowed");
    assert_eq!(ContractError::InvalidStage.message(), "Stage can not be zero");
    assert_eq!(ContractError::NotFound.message(), "Stage not found");
    assert_eq!(ContractError::StageFinalized.message(), "Stage finalized");
    assert_eq!(ContractError::InsufficientScore.message(), "Insufficient score");
    assert_eq!(ContractError::UserNotFound.message(), "User score not found");
    assert_eq!(ContractError::Underflow.message(), "Stage total underflow");
    assert_eq!(ContractError::Overflow.message(), "Score overflow");
    assert_eq!(ContractError::Undecodable.message(), "Stored value can not be decoded");
}
