//! Admission control: decides whether a delegated key may perform an action
//! and accounts accepted actions in the key's usage statistics.
//!
//! `check_and_record` is atomic: either the action passes every check and the
//! whole accounting step is applied, or it fails with the first violation's
//! error and the record is left exactly as it was.

use vstd::prelude::*;

use crate::chain::ChainId;
use crate::errors::TrialError;
use crate::hexformat::{convert_address_to_hex_string, hex_str_of, EvmAddress};
use crate::key_usage::KeyUsage;
use crate::policy::{ChainConstraints, TrialData};
use crate::stats::UsageStats;

verus! {

/// Nanoseconds in one day; interactions are counted per day of this length.
pub const NANOS_PER_DAY: u64 = 86_400_000_000_000;

/// A proposed action on the native chain.
#[derive(Clone, Debug)]
pub struct NearAction {
    pub method_name: String,
    pub contract_id: String,
    pub gas_attached: u64,
    pub deposit_attached: u128,
}

/// A proposed action on one EVM chain.
#[derive(Clone, Debug)]
pub struct EvmAction {
    pub chain_id: u64,
    pub method_name: String,
    pub contract_address: EvmAddress,
    pub gas_limit: u128,
    pub value: u128,
}

/// A proposed action, carrying its own chain identity.
#[derive(Clone, Debug)]
pub enum Action {
    NEAR(NearAction),
    EVM(EvmAction),
}

impl Action {
    /// The chain this action runs on.
    pub open spec fn spec_chain(self) -> ChainId {
        match self {
            Action::NEAR(_) => ChainId::NEAR,
            Action::EVM(a) => ChainId::EVM(a.chain_id),
        }
    }

    /// The method this action calls.
    pub open spec fn spec_method(self) -> Seq<char> {
        match self {
            Action::NEAR(a) => a.method_name@,
            Action::EVM(a) => a.method_name@,
        }
    }

    /// The label the action's target is counted under: the native account
    /// name, or the address as `0x` and forty lower-case hex digits.
    pub open spec fn spec_contract_label(self) -> Seq<char> {
        match self {
            Action::NEAR(a) => a.contract_id@,
            Action::EVM(a) => "0x"@ + hex_str_of(a.contract_address.bytes()),
        }
    }

    /// The execution budget the action attaches.
    pub open spec fn spec_gas(self) -> u128 {
        match self {
            Action::NEAR(a) => a.gas_attached as u128,
            Action::EVM(a) => a.gas_limit,
        }
    }

    /// The value or deposit the action attaches.
    pub open spec fn spec_value(self) -> u128 {
        match self {
            Action::NEAR(a) => a.deposit_attached,
            Action::EVM(a) => a.value,
        }
    }

    /// The chain this action runs on.
    pub fn chain(&self) -> (r: ChainId)
        ensures
            r == self.spec_chain(),
    {
        match self {
            Action::NEAR(_) => ChainId::NEAR,
            Action::EVM(a) => ChainId::EVM(a.chain_id),
        }
    }
}

/// Whether the constraints' method allowlist holds the action's method.
pub open spec fn spec_action_method_ok(k: ChainConstraints, action: Action) -> bool {
    match k {
        ChainConstraints::NEAR(nc) => crate::policy::seq_contains_string(
            nc.allowed_methods@,
            action.spec_method(),
        ),
        ChainConstraints::EVM(ec) => crate::policy::seq_contains_string(
            ec.allowed_methods@,
            action.spec_method(),
        ),
    }
}

/// Whether the constraints' contract allowlist holds the action's target.
/// Native targets match by name; EVM targets match by their 20 bytes, so
/// any spelling of the address matches the same entry.
pub open spec fn spec_action_contract_ok(k: ChainConstraints, action: Action) -> bool {
    match (k, action) {
        (ChainConstraints::NEAR(nc), Action::NEAR(a)) => crate::policy::seq_contains_string(
            nc.allowed_contracts@,
            a.contract_id@,
        ),
        (ChainConstraints::EVM(ec), Action::EVM(a)) => crate::policy::seq_contains_address(
            ec.allowed_contracts@,
            a.contract_address.bytes(),
        ),
        _ => false,
    }
}

/// Whether the action's gas is within the constraints' ceiling; no ceiling
/// admits everything.
pub open spec fn spec_action_gas_ok(k: ChainConstraints, action: Action) -> bool {
    match k {
        ChainConstraints::NEAR(nc) => match nc.max_gas {
            Some(m) => action.spec_gas() <= m,
            None => true,
        },
        ChainConstraints::EVM(ec) => match ec.max_gas {
            Some(m) => action.spec_gas() <= m,
            None => true,
        },
    }
}

/// Whether the action's value or deposit is within the constraints' ceiling.
pub open spec fn spec_action_value_ok(k: ChainConstraints, action: Action) -> bool {
    match k {
        ChainConstraints::NEAR(nc) => match nc.max_deposit {
            Some(m) => action.spec_value() <= m,
            None => true,
        },
        ChainConstraints::EVM(ec) => match ec.max_value {
            Some(m) => action.spec_value() <= m,
            None => true,
        },
    }
}

/// The admission decision, checks in order: expiration; the chain is
/// configured with constraints of the action's family; method allowlist;
/// contract allowlist; gas ceiling; value ceiling; the accounting step fits
/// every accumulator; the transaction ceiling is not yet reached. The first
/// violated check names the error; when none is violated the action is
/// admitted.
pub open spec fn spec_admit(
    trial: TrialData,
    stats: UsageStats,
    action: Action,
    now: u64,
) -> Result<(), TrialError> {
    if trial.spec_has_expired(now) {
        Err(TrialError::TrialExpired)
    } else {
        match trial.spec_constraints(action.spec_chain()) {
            None => Err(TrialError::ChainNotConfigured),
            Some(k) => {
                if !crate::policy::family_matches(action.spec_chain(), k) {
                    Err(TrialError::ChainMismatch)
                } else if !spec_action_method_ok(k, action) {
                    Err(TrialError::MethodNotAllowed)
                } else if !spec_action_contract_ok(k, action) {
                    Err(TrialError::ContractNotAllowed)
                } else if !spec_action_gas_ok(k, action) {
                    Err(TrialError::GasExceeded)
                } else if !spec_action_value_ok(k, action) {
                    Err(TrialError::ValueExceeded)
                } else if !stats.can_record(
                    action.spec_method(),
                    action.spec_contract_label(),
                    now / NANOS_PER_DAY,
                    action.spec_gas(),
                    action.spec_value(),
                ) {
                    Err(TrialError::Overflow)
                } else if !trial.spec_within_transaction_limit(stats.total_interactions) {
                    Err(TrialError::TransactionLimitReached)
                } else {
                    Ok(())
                }
            },
        }
    }
}

/// Validates `action` against `trial` and, exactly when every check passes,
/// accounts it in the key's statistics: one more interaction in total, under
/// the day, the method and the target, and the gas and value added to their
/// accumulators. On any failure the record is returned unchanged, so a
/// rejected action is never visible in the statistics.
pub fn check_and_record(
    trial: &TrialData,
    key_usage: &mut KeyUsage,
    action: &Action,
    now: u64,
) -> (r: Result<(), TrialError>)
    requires
        old(key_usage).wf(),
    ensures
        final(key_usage).wf(),
        r == spec_admit(*trial, old(key_usage).usage_stats, *action, now),
        match r {
            Ok(()) => {
                &&& old(key_usage).usage_stats.recorded(
                    final(key_usage).usage_stats,
                    action.spec_method(),
                    action.spec_contract_label(),
                    now / NANOS_PER_DAY,
                    action.spec_gas(),
                    action.spec_value(),
                )
                &&& final(key_usage).trial_id == old(key_usage).trial_id
                &&& final(key_usage).mpc_key == old(key_usage).mpc_key
                &&& final(key_usage).account_id_by_chain_id == old(
                    key_usage,
                ).account_id_by_chain_id
                &&& final(key_usage).exited == old(key_usage).exited
            },
            Err(_) => *final(key_usage) == *old(key_usage),
        },
{
    if trial.has_expired(now) {
        return Err(TrialError::TrialExpired);
    }
    let chain = action.chain();
    let (method_ok, contract_ok, gas_ok, value_ok) = match trial.get_chain_constraints(&chain) {
        None => {
            return Err(TrialError::ChainNotConfigured);
        },
        Some(k) => {
            let family_ok = match (k, action) {
                (ChainConstraints::NEAR(_), Action::NEAR(_)) => true,
                (ChainConstraints::EVM(_), Action::EVM(_)) => true,
                _ => false,
            };
            if !family_ok {
                return Err(TrialError::ChainMismatch);
            }
            match (k, action) {
                (ChainConstraints::NEAR(nc), Action::NEAR(a)) => {
                    let method_ok = crate::policy::contains_string(
                        &nc.allowed_methods,
                        &a.method_name,
                    );
                    let contract_ok = crate::policy::contains_string(
                        &nc.allowed_contracts,
                        &a.contract_id,
                    );
                    let gas_ok = match nc.max_gas {
                        Some(m) => a.gas_attached <= m,
                        None => true,
                    };
                    let value_ok = match nc.max_deposit {
                        Some(m) => a.deposit_attached <= m,
                        None => true,
                    };
                    (method_ok, contract_ok, gas_ok, value_ok)
                },
                (ChainConstraints::EVM(ec), Action::EVM(a)) => {
                    let method_ok = crate::policy::contains_string(
                        &ec.allowed_methods,
                        &a.method_name,
                    );
                    let contract_ok = crate::policy::contains_address(
                        &ec.allowed_contracts,
                        &a.contract_address,
                    );
                    let gas_ok = match ec.max_gas {
                        Some(m) => a.gas_limit <= m as u128,
                        None => true,
                    };
                    let value_ok = match ec.max_value {
                        Some(m) => a.value <= m,
                        None => true,
                    };
                    (method_ok, contract_ok, gas_ok, value_ok)
                },
                _ => {
                    proof {
                        assert(false);
                    }
                    (false, false, false, false)
                },
            }
        },
    };
    if !method_ok {
        return Err(TrialError::MethodNotAllowed);
    }
    if !contract_ok {
        return Err(TrialError::ContractNotAllowed);
    }
    if !gas_ok {
        return Err(TrialError::GasExceeded);
    }
    if !value_ok {
        return Err(TrialError::ValueExceeded);
    }
    let method = match action {
        Action::NEAR(a) => a.method_name.clone(),
        Action::EVM(a) => a.method_name.clone(),
    };
    let contract_label = match action {
        Action::NEAR(a) => a.contract_id.clone(),
        Action::EVM(a) => convert_address_to_hex_string(&a.contract_address),
    };
    let gas = match action {
        Action::NEAR(a) => a.gas_attached as u128,
        Action::EVM(a) => a.gas_limit,
    };
    let value = match action {
        Action::NEAR(a) => a.deposit_attached,
        Action::EVM(a) => a.value,
    };
    let day = now / NANOS_PER_DAY;
    let total_before = self_total(&key_usage.usage_stats);
    if !can_record_now(&key_usage.usage_stats, &method, &contract_label, day, gas, value) {
        return Err(TrialError::Overflow);
    }
    if !trial.is_within_transaction_limit(total_before) {
        return Err(TrialError::TransactionLimitReached);
    }
    match key_usage.usage_stats.record(&method, &contract_label, day, gas, value) {
        Ok(()) => Ok(()),
        Err(_) => {
            proof {
                assert(false);
            }
            Err(TrialError::Overflow)
        },
    }
}

/// The interaction total before the action.
fn self_total(stats: &UsageStats) -> (r: u64)
    ensures
        r == stats.total_interactions,
{
    stats.total_interactions
}

/// Whether the accounting step of one action fits all accumulators.
fn can_record_now(
    stats: &UsageStats,
    method: &String,
    contract: &String,
    day: u64,
    gas: u128,
    value: u128,
) -> (r: bool)
    ensures
        r == stats.can_record(method@, contract@, day, gas, value),
{
    stats.total_interactions < u64::MAX && gas <= u128::MAX - stats.gas_used && value <= u128::MAX
        - stats.deposit_used && crate::counters::get_u64_count(&stats.interactions_per_day, day)
        < u64::MAX && crate::counters::get_string_count(&stats.methods_called, method) < u64::MAX
        && crate::counters::get_string_count(&stats.contracts_called, contract) < u64::MAX
}

/// The admission decision alone, read-only: what `check_and_record` would
/// return, deciding nothing else and changing nothing.
pub fn admit_probe(trial: &TrialData, key_usage: &KeyUsage, action: &Action, now: u64) -> (r:
    Result<(), TrialError>)
    ensures
        r == spec_admit(*trial, key_usage.usage_stats, *action, now),
{
    if trial.has_expired(now) {
        return Err(TrialError::TrialExpired);
    }
    let chain = action.chain();
    let (method_ok, contract_ok, gas_ok, value_ok) = match trial.get_chain_constraints(&chain) {
        None => {
            return Err(TrialError::ChainNotConfigured);
        },
        Some(k) => {
            let family_ok = match (k, action) {
                (ChainConstraints::NEAR(_), Action::NEAR(_)) => true,
                (ChainConstraints::EVM(_), Action::EVM(_)) => true,
                _ => false,
            };
            if !family_ok {
                return Err(TrialError::ChainMismatch);
            }
            match (k, action) {
                (ChainConstraints::NEAR(nc), Action::NEAR(a)) => {
                    let method_ok = crate::policy::contains_string(
                        &nc.allowed_methods,
                        &a.method_name,
                    );
                    let contract_ok = crate::policy::contains_string(
                        &nc.allowed_contracts,
                        &a.contract_id,
                    );
                    let gas_ok = match nc.max_gas {
                        Some(m) => a.gas_attached <= m,
                        None => true,
                    };
                    let value_ok = match nc.max_deposit {
                        Some(m) => a.deposit_attached <= m,
                        None => true,
                    };
                    (method_ok, contract_ok, gas_ok, value_ok)
                },
                (ChainConstraints::EVM(ec), Action::EVM(a)) => {
                    let method_ok = crate::policy::contains_string(
                        &ec.allowed_methods,
                        &a.method_name,
                    );
                    let contract_ok = crate::policy::contains_address(
                        &ec.allowed_contracts,
                        &a.contract_address,
                    );
                    let gas_ok = match ec.max_gas {
                        Some(m) => a.gas_limit <= m as u128,
                        None => true,
                    };
                    let value_ok = match ec.max_value {
                        Some(m) => a.value <= m,
                        None => true,
                    };
                    (method_ok, contract_ok, gas_ok, value_ok)
                },
                _ => {
                    proof {
                        assert(false);
                    }
                    (false, false, false, false)
                },
            }
        },
    };
    if !method_ok {
        return Err(TrialError::MethodNotAllowed);
    }
    if !contract_ok {
        return Err(TrialError::ContractNotAllowed);
    }
    if !gas_ok {
        return Err(TrialError::GasExceeded);
    }
    if !value_ok {
        return Err(TrialError::ValueExceeded);
    }
    let method = match action {
        Action::NEAR(a) => a.method_name.clone(),
        Action::EVM(a) => a.method_name.clone(),
    };
    let contract_label = match action {
        Action::NEAR(a) => a.contract_id.clone(),
        Action::EVM(a) => convert_address_to_hex_string(&a.contract_address),
    };
    let gas = match action {
        Action::NEAR(a) => a.gas_attached as u128,
        Action::EVM(a) => a.gas_limit,
    };
    let value = match action {
        Action::NEAR(a) => a.deposit_attached,
        Action::EVM(a) => a.value,
    };
    let day = now / NANOS_PER_DAY;
    if !can_record_now(&key_usage.usage_stats, &method, &contract_label, day, gas, value) {
        return Err(TrialError::Overflow);
    }
    if !trial.is_within_transaction_limit(self_total(&key_usage.usage_stats)) {
        return Err(TrialError::TransactionLimitReached);
    }
    Ok(())
}

/// The admission decision for an EVM action, stated over the target's
/// address bytes: the same decision `spec_admit` makes for the action
/// carrying an address with those bytes.
pub open spec fn spec_admit_evm(
    trial: TrialData,
    stats: UsageStats,
    chain_id: u64,
    method_name: String,
    addr_bytes: Seq<u8>,
    gas_limit: u128,
    value: u128,
    now: u64,
) -> Result<(), TrialError> {
    if trial.spec_has_expired(now) {
        Err(TrialError::TrialExpired)
    } else {
        match trial.spec_constraints(ChainId::EVM(chain_id)) {
            None => Err(TrialError::ChainNotConfigured),
            Some(k) => {
                if !(k is EVM) {
                    Err(TrialError::ChainMismatch)
                } else if !crate::policy::seq_contains_string(
                    k->EVM_0.allowed_methods@,
                    method_name@,
                ) {
                    Err(TrialError::MethodNotAllowed)
                } else if !crate::policy::seq_contains_address(
                    k->EVM_0.allowed_contracts@,
                    addr_bytes,
                ) {
                    Err(TrialError::ContractNotAllowed)
                } else if !(match k->EVM_0.max_gas {
                    Some(m) => gas_limit <= m,
                    None => true,
                }) {
                    Err(TrialError::GasExceeded)
                } else if !(match k->EVM_0.max_value {
                    Some(m) => value <= m,
                    None => true,
                }) {
                    Err(TrialError::ValueExceeded)
                } else if !stats.can_record(
                    method_name@,
                    "0x"@ + hex_str_of(addr_bytes),
                    now / NANOS_PER_DAY,
                    gas_limit,
                    value,
                ) {
                    Err(TrialError::Overflow)
                } else if !trial.spec_within_transaction_limit(stats.total_interactions) {
                    Err(TrialError::TransactionLimitReached)
                } else {
                    Ok(())
                }
            },
        }
    }
}

/// The two statements of the EVM admission decision agree.
pub proof fn lemma_spec_admit_evm_agrees(
    trial: TrialData,
    stats: UsageStats,
    a: EvmAction,
    now: u64,
)
    ensures
        spec_admit(trial, stats, Action::EVM(a), now) == spec_admit_evm(
            trial,
            stats,
            a.chain_id,
            a.method_name,
            a.contract_address.bytes(),
            a.gas_limit,
            a.value,
            now,
        ),
{
}

} // verus!
