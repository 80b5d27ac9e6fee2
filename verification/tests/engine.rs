use trial_engine::chain::ChainId;
use trial_engine::contract::Contract;
use trial_engine::errors::TrialError;
use trial_engine::key_usage::KeyWithMPC;
use trial_engine::policy::{ExitConditions, ExtChainConstraints, ExtEvmConstraints,
    NearConstraints};

fn ed25519_pk(fill: u8) -> Vec<u8> {
    let mut v = vec![0u8; 33];
    v[0] = 0;
    for i in 1..33 {
        v[i] = fill;
    }
    v
}

fn near_constraints(max_gas: Option<u64>, max_deposit: Option<u128>) -> ExtChainConstraints {
    ExtChainConstraints::NEAR(NearConstraints {
        allowed_methods: vec!["transfer".to_string()],
        allowed_contracts: vec!["token.near".to_string()],
        max_gas,
        max_deposit,
    })
}

fn engine_with_near_trial(
    max_gas: Option<u64>,
    exit_conditions: Option<ExitConditions>,
) -> (Contract, Vec<u8>, u32) {
    let mut c = Contract::new("admin.near".to_string(), "mpc.near".to_string());
    let creator = "creator.near".to_string();
    let trial_id = c
        .create_trial(
            &creator,
            vec![("NEAR".to_string(), near_constraints(max_gas, None))],
            None,
            None,
            exit_conditions,
            None,
        )
        .unwrap();
    let pk = ed25519_pk(7);
    let keys = vec![KeyWithMPC { public_key: pk.clone(), mpc_key: ed25519_pk(9) }];
    c.add_trial_keys(&creator, &keys, trial_id).unwrap();
    c.activate_trial(&pk, &"user.near".to_string(), &"NEAR".to_string()).unwrap();
    (c, pk, trial_id)
}

fn call_transfer(c: &mut Contract, pk: &Vec<u8>, gas: u64) -> Result<
    trial_engine::dispatch::SignRequest,
    TrialError,
> {
    c.call_near_contract(
        pk,
        &"token.near".to_string(),
        &"transfer".to_string(),
        &vec![1u8, 2, 3],
        gas,
        0,
        1,
        [5u8; 32],
        1_000,
    )
}

#[test]
fn accepted_action_counts_once() {
    let (mut c, pk, _) = engine_with_near_trial(Some(30_000_000_000_000), None);
    let req = call_transfer(&mut c, &pk, 20_000_000_000_000).unwrap();
    assert_eq!(req.key_version, 0);
    let usage = c.get_key_usage(&pk).unwrap();
    assert_eq!(usage.usage_stats.total_interactions, 1);
    assert_eq!(usage.usage_stats.gas_used, 20_000_000_000_000u128);
}

#[test]
fn gas_over_ceiling_rejected_and_not_counted() {
    let (mut c, pk, _) = engine_with_near_trial(Some(30_000_000_000_000), None);
    let r = call_transfer(&mut c, &pk, 40_000_000_000_000);
    assert_eq!(r.unwrap_err(), TrialError::GasExceeded);
    let usage = c.get_key_usage(&pk).unwrap();
    assert_eq!(usage.usage_stats.total_interactions, 0);
}

#[test]
fn transaction_limit_blocks_fourth_action() {
    let exit = ExitConditions { transaction_limit: Some(3), success_condition: None,
        time_limit: None };
    let (mut c, pk, _) = engine_with_near_trial(None, Some(exit));
    for _ in 0..3 {
        call_transfer(&mut c, &pk, 1_000).unwrap();
    }
    let r = call_transfer(&mut c, &pk, 1_000);
    assert_eq!(r.unwrap_err(), TrialError::TransactionLimitReached);
    let usage = c.get_key_usage(&pk).unwrap();
    assert_eq!(usage.usage_stats.total_interactions, 3);
    assert_eq!(usage.usage_stats.interactions_per_day, vec![(0u64, 3u64)]);
    assert_eq!(usage.usage_stats.methods_called.len(), 1);
    assert_eq!(usage.usage_stats.methods_called[0].0, "transfer".to_string());
    assert_eq!(usage.usage_stats.methods_called[0].1, 3);
    assert_eq!(usage.usage_stats.contracts_called[0].0, "token.near".to_string());
    assert_eq!(usage.usage_stats.contracts_called[0].1, 3);
}

#[test]
fn method_and_contract_allowlists_are_exact() {
    let (mut c, pk, _) = engine_with_near_trial(None, None);
    let r = c.call_near_contract(
        &pk,
        &"token.near".to_string(),
        &"steal".to_string(),
        &vec![],
        1,
        0,
        1,
        [0u8; 32],
        0,
    );
    assert_eq!(r.unwrap_err(), TrialError::MethodNotAllowed);
    let r = c.call_near_contract(
        &pk,
        &"other.near".to_string(),
        &"transfer".to_string(),
        &vec![],
        1,
        0,
        1,
        [0u8; 32],
        0,
    );
    assert_eq!(r.unwrap_err(), TrialError::ContractNotAllowed);
}

#[test]
fn expired_trial_rejected() {
    let mut c = Contract::new("admin.near".to_string(), "mpc.near".to_string());
    let creator = "creator.near".to_string();
    let trial_id = c
        .create_trial(
            &creator,
            vec![("NEAR".to_string(), near_constraints(None, None))],
            None,
            None,
            None,
            Some(500),
        )
        .unwrap();
    let pk = ed25519_pk(7);
    c.add_trial_keys(
        &creator,
        &vec![KeyWithMPC { public_key: pk.clone(), mpc_key: ed25519_pk(9) }],
        trial_id,
    )
    .unwrap();
    c.activate_trial(&pk, &"user.near".to_string(), &"NEAR".to_string()).unwrap();
    let r = call_transfer(&mut c, &pk, 1);
    assert_eq!(r.unwrap_err(), TrialError::TrialExpired);
}

#[test]
fn unknown_key_is_denied() {
    let (mut c, _, _) = engine_with_near_trial(None, None);
    let stranger = ed25519_pk(42);
    let r = call_transfer(&mut c, &stranger, 1);
    assert_eq!(r.unwrap_err(), TrialError::AccessDenied);
}

#[test]
fn deleted_policy_orphans_key() {
    let (mut c, pk, trial_id) = engine_with_near_trial(None, None);
    c.delete_trial(&"creator.near".to_string(), trial_id).unwrap();
    let r = call_transfer(&mut c, &pk, 1);
    assert_eq!(r.unwrap_err(), TrialError::PolicyNotFound);
    assert!(c.get_key_usage(&pk).is_some());
}

#[test]
fn only_creator_deletes() {
    let (mut c, _, trial_id) = engine_with_near_trial(None, None);
    let r = c.delete_trial(&"mallory.near".to_string(), trial_id);
    assert_eq!(r.unwrap_err(), TrialError::AccessDenied);
}

#[test]
fn unactivated_chain_is_rejected() {
    let mut c = Contract::new("admin.near".to_string(), "mpc.near".to_string());
    let creator = "creator.near".to_string();
    let trial_id = c
        .create_trial(
            &creator,
            vec![("NEAR".to_string(), near_constraints(None, None))],
            None,
            None,
            None,
            None,
        )
        .unwrap();
    let pk = ed25519_pk(7);
    c.add_trial_keys(
        &creator,
        &vec![KeyWithMPC { public_key: pk.clone(), mpc_key: ed25519_pk(9) }],
        trial_id,
    )
    .unwrap();
    let r = call_transfer(&mut c, &pk, 1);
    assert_eq!(r.unwrap_err(), TrialError::NotActivated);
}

#[test]
fn activation_is_idempotent_once() {
    let (mut c, pk, _) = engine_with_near_trial(None, None);
    let r = c.activate_trial(&pk, &"someone-else.near".to_string(), &"NEAR".to_string());
    assert_eq!(r.unwrap_err(), TrialError::AlreadyActivated);
    let usage = c.get_key_usage(&pk).unwrap();
    assert_eq!(usage.account_id_by_chain_id.len(), 1);
    assert_eq!(usage.account_id_by_chain_id[0].0, ChainId::NEAR);
    assert_eq!(usage.account_id_by_chain_id[0].1, "user.near".to_string());
}

#[test]
fn exited_key_never_passes_admission_again() {
    let (mut c, pk, _) = engine_with_near_trial(None, None);
    call_transfer(&mut c, &pk, 1).unwrap();
    let req = c
        .exit_trial(&pk, &ed25519_pk(11), &"user.near".to_string(), 0, [0u8; 32])
        .unwrap();
    assert_eq!(req.key_version, 0);
    let r = call_transfer(&mut c, &pk, 1);
    assert_eq!(r.unwrap_err(), TrialError::AccessDenied);
}

#[test]
fn chain_family_mismatch_rejected_at_creation() {
    let mut c = Contract::new("admin.near".to_string(), "mpc.near".to_string());
    let r = c.create_trial(
        &"creator.near".to_string(),
        vec![("1".to_string(), near_constraints(None, None))],
        None,
        None,
        None,
        None,
    );
    assert_eq!(r.unwrap_err(), TrialError::ChainMismatch);
    let r = c.create_trial(
        &"creator.near".to_string(),
        vec![("polygon".to_string(), near_constraints(None, None))],
        None,
        None,
        None,
        None,
    );
    assert_eq!(r.unwrap_err(), TrialError::InvalidHex);
}

#[test]
fn repeated_chain_entries_are_rejected_at_creation() {
    let mut c = Contract::new("admin.near".to_string(), "mpc.near".to_string());
    let r = c.create_trial(
        &"creator.near".to_string(),
        vec![
            ("NEAR".to_string(), near_constraints(None, None)),
            ("NEAR".to_string(), near_constraints(None, None)),
        ],
        None,
        None,
        None,
        None,
    );
    assert_eq!(r.unwrap_err(), TrialError::ChainMismatch);
}

#[test]
fn account_info_snapshot_reflects_the_policy() {
    let (mut c, pk, trial_id) = engine_with_near_trial(Some(7), None);
    call_transfer(&mut c, &pk, 7).unwrap();
    let info = c.get_trial_account_info(&pk).unwrap();
    assert_eq!(info.trial_id, trial_id);
    assert_eq!(info.usage_stats.total_interactions, 1);
    assert_eq!(info.trial_data.constraints_by_chain_id.len(), 1);
    assert_eq!(info.trial_data.creator_account_id, "creator.near".to_string());
    assert_eq!(info.account_id_by_chain_id[0].1, "user.near".to_string());
}

#[test]
fn trial_id_counter_overflow_is_reported() {
    let mut c = Contract::new("admin.near".to_string(), "mpc.near".to_string());
    c.trial_nonce = u32::MAX;
    let r = c.create_trial(
        &"creator.near".to_string(),
        vec![("NEAR".to_string(), near_constraints(None, None))],
        None,
        None,
        None,
        None,
    );
    assert_eq!(r.unwrap_err(), TrialError::Overflow);
}

#[test]
fn deposit_adjustment_is_exact() {
    let c = Contract::new("a".to_string(), "m".to_string());
    assert_eq!(c.adjust_deposit(100, 150, 10, 600).unwrap(), 100);
    assert_eq!(
        c.adjust_deposit(100, 150, 10, 400).unwrap_err(),
        TrialError::InsufficientDeposit
    );
    assert_eq!(c.adjust_deposit(150, 100, 10, 0).unwrap(), 500);
    assert_eq!(c.adjust_deposit(100, 100, 10, 77).unwrap(), 0);
    assert_eq!(
        c.adjust_deposit(0, u64::MAX, u128::MAX, 0).unwrap_err(),
        TrialError::Overflow
    );
}

#[test]
fn reason_strings_are_stable() {
    assert_eq!(TrialError::AccessDenied.reason(), "Access denied".to_string());
    assert_eq!(
        TrialError::TransactionLimitReached.reason(),
        "Transaction limit reached".to_string()
    );
    assert_eq!(
        TrialError::TrialExpired.reason(),
        "Trial period has expired".to_string()
    );
}

#[test]
fn evm_address_spellings_normalize_to_one_entry() {
    let mut c = Contract::new("admin.near".to_string(), "mpc.near".to_string());
    let creator = "creator.near".to_string();
    let evm = ExtChainConstraints::EVM(ExtEvmConstraints {
        allowed_methods: vec!["transfer".to_string()],
        allowed_contracts: vec!["0xAbCdEf0123456789aBcDeF0123456789abcdef01".to_string()],
        max_gas: None,
        max_value: None,
    });
    let trial_id = c
        .create_trial(&creator, vec![("1".to_string(), evm)], None, None, None, None)
        .unwrap();
    let pk = ed25519_pk(7);
    c.add_trial_keys(
        &creator,
        &vec![KeyWithMPC { public_key: pk.clone(), mpc_key: ed25519_pk(9) }],
        trial_id,
    )
    .unwrap();
    c.activate_trial(
        &pk,
        &"0x1111111111111111111111111111111111111111".to_string(),
        &"1".to_string(),
    )
    .unwrap();
    for spelling in [
        "0xabcdef0123456789abcdef0123456789abcdef01",
        "0xABCDEF0123456789ABCDEF0123456789ABCDEF01",
        "0xAbCdEf0123456789aBcDeF0123456789abcdef01",
    ] {
        let r = c.call_evm_contract(
            &pk,
            1,
            &spelling.to_string(),
            &"transfer".to_string(),
            &vec![],
            &vec![],
            21000,
            0,
            0,
            100,
            1,
            vec![],
            0,
        );
        assert!(r.is_ok(), "spelling {spelling} was rejected");
    }
    let usage = c.get_key_usage(&pk).unwrap();
    assert_eq!(usage.usage_stats.total_interactions, 3);
    assert_eq!(
        usage.usage_stats.contracts_called[0].0,
        "0xabcdef0123456789abcdef0123456789abcdef01".to_string()
    );
    assert_eq!(usage.usage_stats.contracts_called[0].1, 3);
}

#[test]
fn evm_value_ceiling_enforced() {
    let mut c = Contract::new("admin.near".to_string(), "mpc.near".to_string());
    let creator = "creator.near".to_string();
    let evm = ExtChainConstraints::EVM(ExtEvmConstraints {
        allowed_methods: vec!["transfer".to_string()],
        allowed_contracts: vec!["0x0000000000000000000000000000000000000001".to_string()],
        max_gas: Some(50_000),
        max_value: Some(1_000),
    });
    let trial_id = c
        .create_trial(&creator, vec![("5".to_string(), evm)], None, None, None, None)
        .unwrap();
    let pk = ed25519_pk(7);
    c.add_trial_keys(
        &creator,
        &vec![KeyWithMPC { public_key: pk.clone(), mpc_key: ed25519_pk(9) }],
        trial_id,
    )
    .unwrap();
    c.activate_trial(
        &pk,
        &"0x1111111111111111111111111111111111111111".to_string(),
        &"5".to_string(),
    )
    .unwrap();
    let call = |c: &mut Contract, value: u128, gas: u128| {
        c.call_evm_contract(
            &pk,
            5,
            &"0x0000000000000000000000000000000000000001".to_string(),
            &"transfer".to_string(),
            &vec![],
            &vec![],
            gas,
            value,
            0,
            100,
            1,
            vec![],
            0,
        )
    };
    assert!(call(&mut c, 1_000, 21_000).is_ok());
    assert_eq!(call(&mut c, 1_001, 21_000).unwrap_err(), TrialError::ValueExceeded);
    assert_eq!(call(&mut c, 0, 50_001).unwrap_err(), TrialError::GasExceeded);
    let r = c.call_evm_contract(
        &pk,
        5,
        &"0xnotanaddress".to_string(),
        &"transfer".to_string(),
        &vec![],
        &vec![],
        1,
        0,
        0,
        100,
        1,
        vec![],
        0,
    );
    assert_eq!(r.unwrap_err(), TrialError::InvalidAddress);
}
