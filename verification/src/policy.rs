//! Trial policies: per-chain constraints and the checks admission control
//! applies to a proposed action.
//!
//! A policy is well-formed when every chain key carries constraints of its
//! own family; creation rejects anything else, so use-time code may rely on
//! it but does not have to: every check here is exact also on ill-formed
//! data.

use vstd::prelude::*;

use crate::chain::ChainId;
use crate::hexformat::{address_bytes_of, parse_evm_address, parses_as_address, EvmAddress,
    evm_address_eq};

verus! {

/// Constraints for actions on the native chain.
#[derive(Clone, Debug)]
pub struct NearConstraints {
    pub allowed_methods: Vec<String>,
    pub allowed_contracts: Vec<String>,
    pub max_gas: Option<u64>,
    pub max_deposit: Option<u128>,
}

/// Constraints for actions on one EVM chain.
#[derive(Clone, Debug)]
pub struct EvmConstraints {
    pub allowed_methods: Vec<String>,
    pub allowed_contracts: Vec<EvmAddress>,
    pub max_gas: Option<u64>,
    pub max_value: Option<u128>,
}

/// Per-chain constraints, one variant per chain family.
#[derive(Clone, Debug)]
pub enum ChainConstraints {
    NEAR(NearConstraints),
    EVM(EvmConstraints),
}

/// EVM constraints as a creator or a view sees them: addresses as hex text.
#[derive(Clone, Debug)]
pub struct ExtEvmConstraints {
    pub allowed_methods: Vec<String>,
    pub allowed_contracts: Vec<String>,
    pub max_gas: Option<u64>,
    pub max_value: Option<u128>,
}

/// Per-chain constraints as a creator or a view sees them.
#[derive(Clone, Debug)]
pub enum ExtChainConstraints {
    NEAR(NearConstraints),
    EVM(ExtEvmConstraints),
}

/// Global usage ceilings a creator may set beside the per-chain constraints.
#[derive(Clone, Debug)]
pub struct UsageConstraints {
    pub max_contracts: Option<u64>,
    pub max_methods: Option<u64>,
    pub max_token_transfer: Option<u128>,
    pub rate_limit_per_minute: Option<u64>,
    pub blacklisted_addresses: Vec<String>,
}

/// Interaction-rate ceilings a creator may set.
#[derive(Clone, Copy, Debug, PartialEq, Eq, Structural)]
pub struct InteractionLimits {
    pub max_interactions_per_day: Option<u64>,
    pub total_interactions: Option<u64>,
}

/// An external success predicate: a contract, a method, and the return
/// value that counts as success. Checked out of band, not by this engine.
#[derive(Clone, Debug)]
pub struct FunctionSuccessCondition {
    pub contract_id: String,
    pub method_name: String,
    pub expected_return: String,
}

/// When a trial ends on its own: a transaction-count ceiling, an external
/// success predicate, or a time ceiling.
#[derive(Clone, Debug)]
pub struct ExitConditions {
    pub transaction_limit: Option<u64>,
    pub success_condition: Option<FunctionSuccessCondition>,
    pub time_limit: Option<u64>,
}

/// One trial's policy: constraints per chain, optional global limits, an
/// optional expiration time, and the creator who owns it.
#[derive(Clone, Debug)]
pub struct TrialData {
    pub constraints_by_chain_id: Vec<(ChainId, ChainConstraints)>,
    pub usage_constraints: Option<UsageConstraints>,
    pub interaction_limits: Option<InteractionLimits>,
    pub exit_conditions: Option<ExitConditions>,
    pub expiration_time: Option<u64>,
    pub creator_account_id: String,
}

/// Whether a string sequence holds one whose characters are `m`.
pub open spec fn seq_contains_string(s: Seq<String>, m: Seq<char>) -> bool {
    exists|i: int| 0 <= i < s.len() && s[i]@ == m
}

/// Whether an address sequence holds one with bytes `a`.
pub open spec fn seq_contains_address(s: Seq<EvmAddress>, a: Seq<u8>) -> bool {
    exists|i: int| 0 <= i < s.len() && s[i].bytes() == a
}

/// Whether `v` holds a string equal to `m`.
pub fn contains_string(v: &Vec<String>, m: &String) -> (r: bool)
    ensures
        r == seq_contains_string(v@, m@),
{
    let mut i: usize = 0;
    while i < v.len()
        invariant
            i <= v.len(),
            forall|j: int| 0 <= j < i ==> v@[j]@ != m@,
        decreases v.len() - i,
    {
        if v[i] == *m {
            return true;
        }
        i += 1;
    }
    false
}

/// Whether `v` holds an address with the same bytes as `a`.
pub fn contains_address(v: &Vec<EvmAddress>, a: &EvmAddress) -> (r: bool)
    ensures
        r == seq_contains_address(v@, a.bytes()),
{
    let mut i: usize = 0;
    while i < v.len()
        invariant
            i <= v.len(),
            forall|j: int| 0 <= j < i ==> v@[j].bytes() != a.bytes(),
        decreases v.len() - i,
    {
        if evm_address_eq(&v[i], a) {
            return true;
        }
        i += 1;
    }
    false
}

/// The constraints stored under `c`: the first entry whose chain is `c`.
pub open spec fn constraints_for(s: Seq<(ChainId, ChainConstraints)>, c: ChainId) -> Option<
    ChainConstraints,
>
    decreases s.len(),
{
    if s.len() == 0 {
        None
    } else if s[0].0 == c {
        Some(s[0].1)
    } else {
        constraints_for(s.drop_first(), c)
    }
}

/// Whether a constraints variant belongs to a chain's family.
pub open spec fn family_matches(c: ChainId, k: ChainConstraints) -> bool {
    match c {
        ChainId::NEAR => k is NEAR,
        ChainId::EVM(_) => k is EVM,
    }
}

impl TrialData {
    /// Chain keys are unique and each carries constraints of its family.
    pub open spec fn wf(self) -> bool {
        &&& forall|i: int, j: int|
            0 <= i < j < self.constraints_by_chain_id@.len()
                ==> self.constraints_by_chain_id@[i].0 != self.constraints_by_chain_id@[j].0
        &&& forall|i: int|
            0 <= i < self.constraints_by_chain_id@.len() ==> family_matches(
                #[trigger] self.constraints_by_chain_id@[i].0,
                self.constraints_by_chain_id@[i].1,
            )
    }

    /// The constraints this policy stores for `c`.
    pub open spec fn spec_constraints(self, c: ChainId) -> Option<ChainConstraints> {
        constraints_for(self.constraints_by_chain_id@, c)
    }

    /// Whether `method` is allowed on `c`: the chain is configured and its
    /// allowlist holds the method. An unconfigured chain allows nothing.
    pub open spec fn spec_method_allowed(self, method: Seq<char>, c: ChainId) -> bool {
        match self.spec_constraints(c) {
            Some(ChainConstraints::NEAR(nc)) => seq_contains_string(nc.allowed_methods@, method),
            Some(ChainConstraints::EVM(ec)) => seq_contains_string(ec.allowed_methods@, method),
            None => false,
        }
    }

    /// Whether the contract named by `contract` is allowed on `c`. On the
    /// native chain the name must equal an allowlist entry; on an EVM chain
    /// it must parse as an address whose bytes equal an allowlist entry.
    pub open spec fn spec_contract_allowed(self, contract: Seq<char>, c: ChainId) -> bool {
        match self.spec_constraints(c) {
            Some(ChainConstraints::NEAR(nc)) => seq_contains_string(
                nc.allowed_contracts@,
                contract,
            ),
            Some(ChainConstraints::EVM(ec)) => parses_as_address(contract)
                && seq_contains_address(ec.allowed_contracts@, address_bytes_of(contract)),
            None => false,
        }
    }

    /// Whether `gas` is within the ceiling on `c`: no ceiling set admits
    /// everything; an unconfigured chain admits nothing.
    pub open spec fn spec_gas_within_limits(self, gas: u64, c: ChainId) -> bool {
        match self.spec_constraints(c) {
            Some(ChainConstraints::NEAR(nc)) => match nc.max_gas {
                Some(m) => gas <= m,
                None => true,
            },
            Some(ChainConstraints::EVM(ec)) => match ec.max_gas {
                Some(m) => gas <= m,
                None => true,
            },
            None => false,
        }
    }

    /// Whether `deposit` is within the value ceiling on `c`.
    pub open spec fn spec_deposit_within_limits(self, deposit: u128, c: ChainId) -> bool {
        match self.spec_constraints(c) {
            Some(ChainConstraints::NEAR(nc)) => match nc.max_deposit {
                Some(m) => deposit <= m,
                None => true,
            },
            Some(ChainConstraints::EVM(ec)) => match ec.max_value {
                Some(m) => deposit <= m,
                None => true,
            },
            None => false,
        }
    }

    /// Whether the trial is expired at `now`: an expiration time is set and
    /// `now` has reached it.
    pub open spec fn spec_has_expired(self, now: u64) -> bool {
        match self.expiration_time {
            Some(t) => now >= t,
            None => false,
        }
    }

    /// Whether `total` more interactions are still within the exit
    /// condition's transaction ceiling; no ceiling admits everything.
    pub open spec fn spec_within_transaction_limit(self, total: u64) -> bool {
        match self.exit_conditions {
            Some(ec) => match ec.transaction_limit {
                Some(limit) => total < limit,
                None => true,
            },
            None => true,
        }
    }

    /// Retrieves the chain constraints for a given chain.
    pub fn get_chain_constraints(&self, chain_id: &ChainId) -> (r: Option<&ChainConstraints>)
        ensures
            match r {
                Some(k) => self.spec_constraints(*chain_id) == Some(*k),
                None => self.spec_constraints(*chain_id) is None,
            },
    {
        proof {
            assert(self.constraints_by_chain_id@.skip(0) =~= self.constraints_by_chain_id@);
        }
        let v = &self.constraints_by_chain_id;
        let mut i: usize = 0;
        while i < v.len()
            invariant
                i <= v.len(),
                v@ == self.constraints_by_chain_id@,
                constraints_for(v@, *chain_id) == constraints_for(v@.skip(i as int), *chain_id),
            decreases v.len() - i,
        {
            proof {
                assert(v@.skip(i as int)[0] == v@[i as int]);
                assert(v@.skip(i as int).drop_first() =~= v@.skip(i as int + 1));
            }
            if v[i].0 == *chain_id {
                proof {
                    assert(constraints_for(v@.skip(i as int), *chain_id) == Some(
                        v@[i as int].1,
                    ));
                }
                return Some(&v[i].1);
            }
            i += 1;
        }
        proof {
            assert(v@.skip(v@.len() as int) =~= Seq::<(ChainId, ChainConstraints)>::empty());
        }
        None
    }

    /// Checks if a method is allowed on a given chain.
    pub fn is_method_allowed(&self, method: &String, chain_id: &ChainId) -> (r: bool)
        ensures
            r == self.spec_method_allowed(method@, *chain_id),
    {
        match self.get_chain_constraints(chain_id) {
            Some(ChainConstraints::NEAR(nc)) => contains_string(&nc.allowed_methods, method),
            Some(ChainConstraints::EVM(ec)) => contains_string(&ec.allowed_methods, method),
            None => false,
        }
    }

    /// Checks if a contract is allowed on a given chain.
    pub fn is_contract_allowed(&self, contract: &String, chain_id: &ChainId) -> (r: bool)
        ensures
            r == self.spec_contract_allowed(contract@, *chain_id),
    {
        match self.get_chain_constraints(chain_id) {
            Some(ChainConstraints::NEAR(nc)) => contains_string(&nc.allowed_contracts, contract),
            Some(ChainConstraints::EVM(ec)) => {
                match parse_evm_address(contract.as_str()) {
                    Ok(addr) => contains_address(&ec.allowed_contracts, &addr),
                    Err(_) => false,
                }
            },
            None => false,
        }
    }

    /// Checks if the gas limit is within allowed limits.
    pub fn is_gas_within_limits(&self, gas: u64, chain_id: &ChainId) -> (r: bool)
        ensures
            r == self.spec_gas_within_limits(gas, *chain_id),
    {
        match self.get_chain_constraints(chain_id) {
            Some(ChainConstraints::NEAR(nc)) => match nc.max_gas {
                Some(m) => gas <= m,
                None => true,
            },
            Some(ChainConstraints::EVM(ec)) => match ec.max_gas {
                Some(m) => gas <= m,
                None => true,
            },
            None => false,
        }
    }

    /// Checks if the attached deposit or value is within allowed limits.
    pub fn is_deposit_within_limits(&self, deposit: u128, chain_id: &ChainId) -> (r: bool)
        ensures
            r == self.spec_deposit_within_limits(deposit, *chain_id),
    {
        match self.get_chain_constraints(chain_id) {
            Some(ChainConstraints::NEAR(nc)) => match nc.max_deposit {
                Some(m) => deposit <= m,
                None => true,
            },
            Some(ChainConstraints::EVM(ec)) => match ec.max_value {
                Some(m) => deposit <= m,
                None => true,
            },
            None => false,
        }
    }

    /// Checks if the trial has expired.
    pub fn has_expired(&self, current_timestamp: u64) -> (r: bool)
        ensures
            r == self.spec_has_expired(current_timestamp),
    {
        match &self.expiration_time {
            Some(t) => current_timestamp >= *t,
            None => false,
        }
    }

    /// Checks if the transaction limit still admits `total_interactions`.
    pub fn is_within_transaction_limit(&self, total_interactions: u64) -> (r: bool)
        ensures
            r == self.spec_within_transaction_limit(total_interactions),
    {
        match &self.exit_conditions {
            Some(ec) => match ec.transaction_limit {
                Some(limit) => total_interactions < limit,
                None => true,
            },
            None => true,
        }
    }
}

} // verus!
