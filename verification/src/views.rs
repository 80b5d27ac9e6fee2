//! Read-only views: snapshots of policies and delegated-key records with
//! EVM addresses rendered as hex text for callers.

use vstd::prelude::*;

use crate::chain::ChainId;
use crate::contract::Contract;
use crate::hexformat::{convert_address_to_hex_string, hex_str_of};
use crate::key_usage::UserAccountId;
use crate::near_builder::clone_bytes_pub;
use crate::policy::{ChainConstraints, ExitConditions, ExtChainConstraints, ExtEvmConstraints,
    FunctionSuccessCondition, InteractionLimits, NearConstraints, TrialData, UsageConstraints};
use crate::stats::UsageStats;

verus! {

/// A policy as a caller sees it: EVM allowlist addresses as hex text.
#[derive(Debug)]
pub struct ExtTrialData {
    pub constraints_by_chain_id: Vec<(ChainId, ExtChainConstraints)>,
    pub usage_constraints: Option<UsageConstraints>,
    pub interaction_limits: Option<InteractionLimits>,
    pub exit_conditions: Option<ExitConditions>,
    pub expiration_time: Option<u64>,
    pub creator_account_id: String,
}

/// A delegated-key record as a caller sees it: identities as text.
#[derive(Debug)]
pub struct ExtKeyUsage {
    pub trial_id: u32,
    pub mpc_key: Vec<u8>,
    pub account_id_by_chain_id: Vec<(ChainId, String)>,
    pub usage_stats: UsageStats,
}

/// Everything about one delegated key: its record and its trial's policy.
#[derive(Debug)]
pub struct TrialAccountInfo {
    pub trial_id: u32,
    pub trial_data: ExtTrialData,
    pub mpc_key: Vec<u8>,
    pub account_id_by_chain_id: Vec<(ChainId, String)>,
    pub usage_stats: UsageStats,
}

/// Whether one snapshot entry renders one policy entry: same chain, native
/// constraints copied, EVM addresses as `0x` hex text.
pub open spec fn ext_entry_of(
    entry: (ChainId, ChainConstraints),
    out: (ChainId, ExtChainConstraints),
) -> bool {
    &&& out.0 == entry.0
    &&& match (entry.1, out.1) {
        (ChainConstraints::NEAR(nc), ExtChainConstraints::NEAR(nc2)) => {
            &&& nc2.allowed_methods@.len() == nc.allowed_methods@.len()
            &&& forall|j: int|
                0 <= j < nc.allowed_methods@.len() ==> (#[trigger] nc2.allowed_methods@[j])@
                    == nc.allowed_methods@[j]@
            &&& nc2.allowed_contracts@.len() == nc.allowed_contracts@.len()
            &&& forall|j: int|
                0 <= j < nc.allowed_contracts@.len() ==> (#[trigger] nc2.allowed_contracts@[j])@
                    == nc.allowed_contracts@[j]@
            &&& nc2.max_gas == nc.max_gas
            &&& nc2.max_deposit == nc.max_deposit
        },
        (ChainConstraints::EVM(ec), ExtChainConstraints::EVM(ec2)) => {
            &&& ec2.allowed_methods@.len() == ec.allowed_methods@.len()
            &&& forall|j: int|
                0 <= j < ec.allowed_methods@.len() ==> (#[trigger] ec2.allowed_methods@[j])@
                    == ec.allowed_methods@[j]@
            &&& ec2.allowed_contracts@.len() == ec.allowed_contracts@.len()
            &&& forall|j: int|
                0 <= j < ec.allowed_contracts@.len() ==> (#[trigger] ec2.allowed_contracts@[j])@
                    == "0x"@ + hex_str_of(ec.allowed_contracts@[j].bytes())
            &&& ec2.max_gas == ec.max_gas
            &&& ec2.max_value == ec.max_value
        },
        _ => false,
    }
}

/// Whether one snapshot copy of the global ceilings carries the same
/// fields.
pub open spec fn ext_usage_constraints_of(
    u: Option<UsageConstraints>,
    out: Option<UsageConstraints>,
) -> bool {
    match (u, out) {
        (None, None) => true,
        (Some(a), Some(b)) => {
            &&& b.max_contracts == a.max_contracts
            &&& b.max_methods == a.max_methods
            &&& b.max_token_transfer == a.max_token_transfer
            &&& b.rate_limit_per_minute == a.rate_limit_per_minute
            &&& b.blacklisted_addresses@.len() == a.blacklisted_addresses@.len()
            &&& forall|j: int|
                0 <= j < a.blacklisted_addresses@.len() ==> (
                #[trigger] b.blacklisted_addresses@[j])@ == a.blacklisted_addresses@[j]@
        },
        _ => false,
    }
}

/// Whether one snapshot copy of the exit conditions carries the same
/// fields, the success predicate included.
pub open spec fn ext_exit_conditions_of(
    e: Option<ExitConditions>,
    out: Option<ExitConditions>,
) -> bool {
    match (e, out) {
        (None, None) => true,
        (Some(a), Some(b)) => {
            &&& b.transaction_limit == a.transaction_limit
            &&& b.time_limit == a.time_limit
            &&& match (a.success_condition, b.success_condition) {
                (None, None) => true,
                (Some(f), Some(g)) => g.contract_id@ == f.contract_id@ && g.method_name@
                    == f.method_name@ && g.expected_return@ == f.expected_return@,
                _ => false,
            }
        },
        _ => false,
    }
}

/// Whether a snapshot renders a policy, entry by entry, every other field
/// copied unchanged.
pub open spec fn ext_trial_of(td: TrialData, out: ExtTrialData) -> bool {
    &&& out.constraints_by_chain_id@.len() == td.constraints_by_chain_id@.len()
    &&& forall|i: int|
        0 <= i < td.constraints_by_chain_id@.len() ==> ext_entry_of(
            #[trigger] td.constraints_by_chain_id@[i],
            out.constraints_by_chain_id@[i],
        )
    &&& ext_usage_constraints_of(td.usage_constraints, out.usage_constraints)
    &&& out.interaction_limits == td.interaction_limits
    &&& ext_exit_conditions_of(td.exit_conditions, out.exit_conditions)
    &&& out.expiration_time == td.expiration_time
    &&& out.creator_account_id@ == td.creator_account_id@
}

/// The identity text of a binding: the native account name, or the address
/// as `0x` hex text.
pub open spec fn identity_text(a: UserAccountId) -> Seq<char> {
    match a {
        UserAccountId::NEAR(s) => s@,
        UserAccountId::EVM(ad) => "0x"@ + hex_str_of(ad.bytes()),
    }
}

/// Copies a statistics record, counters preserved.
pub fn clone_usage_stats(s: &UsageStats) -> (r: UsageStats)
    ensures
        r.total_interactions == s.total_interactions,
        r.gas_used == s.gas_used,
        r.deposit_used == s.deposit_used,
        r.interactions_per_day@ == s.interactions_per_day@,
        r.methods_called@.len() == s.methods_called@.len(),
        forall|j: int|
            0 <= j < s.methods_called@.len() ==> #[trigger] r.methods_called@[j]
                == s.methods_called@[j],
        r.contracts_called@.len() == s.contracts_called@.len(),
        forall|j: int|
            0 <= j < s.contracts_called@.len() ==> #[trigger] r.contracts_called@[j]
                == s.contracts_called@[j],
{
    UsageStats {
        total_interactions: s.total_interactions,
        interactions_per_day: clone_u64_counts(&s.interactions_per_day),
        methods_called: clone_string_counts(&s.methods_called),
        contracts_called: clone_string_counts(&s.contracts_called),
        gas_used: s.gas_used,
        deposit_used: s.deposit_used,
    }
}

/// Copies an integer-keyed counter map.
fn clone_u64_counts(v: &Vec<(u64, u64)>) -> (r: Vec<(u64, u64)>)
    ensures
        r@ == v@,
{
    let mut out: Vec<(u64, u64)> = Vec::new();
    let mut i: usize = 0;
    while i < v.len()
        invariant
            i <= v@.len(),
            out@ =~= v@.take(i as int),
        decreases v@.len() - i,
    {
        out.push(v[i]);
        i += 1;
    }
    proof {
        assert(out@ =~= v@);
    }
    out
}

/// Copies a string-keyed counter map, pairs preserved.
fn clone_string_counts(v: &Vec<(String, u64)>) -> (r: Vec<(String, u64)>)
    ensures
        r@.len() == v@.len(),
        forall|j: int| 0 <= j < v@.len() ==> #[trigger] r@[j] == v@[j],
{
    let mut out: Vec<(String, u64)> = Vec::new();
    let mut i: usize = 0;
    while i < v.len()
        invariant
            i <= v@.len(),
            out@.len() == i,
            forall|j: int| 0 <= j < i ==> #[trigger] out@[j] == v@[j],
        decreases v@.len() - i,
    {
        out.push((v[i].0.clone(), v[i].1));
        i += 1;
    }
    out
}

/// Renders the bindings of a record as identity text per chain.
fn identity_texts(v: &Vec<(ChainId, UserAccountId)>) -> (r: Vec<(ChainId, String)>)
    ensures
        r@.len() == v@.len(),
        forall|j: int|
            0 <= j < v@.len() ==> (#[trigger] r@[j]).0 == v@[j].0 && r@[j].1@ == identity_text(
                v@[j].1,
            ),
{
    let mut out: Vec<(ChainId, String)> = Vec::new();
    let mut i: usize = 0;
    while i < v.len()
        invariant
            i <= v@.len(),
            out@.len() == i,
            forall|j: int|
                0 <= j < i ==> (#[trigger] out@[j]).0 == v@[j].0 && out@[j].1@ == identity_text(
                    v@[j].1,
                ),
        decreases v@.len() - i,
    {
        let text = match &v[i].1 {
            UserAccountId::NEAR(s) => s.clone(),
            UserAccountId::EVM(ad) => convert_address_to_hex_string(ad),
        };
        out.push((v[i].0, text));
        i += 1;
    }
    out
}

/// Converts a policy to its snapshot form, addresses rendered as hex text.
pub fn trial_data_to_ext_trial_data(trial_data: &TrialData) -> (r: ExtTrialData)
    ensures
        ext_trial_of(*trial_data, r),
{
    let mut entries: Vec<(ChainId, ExtChainConstraints)> = Vec::new();
    let v = &trial_data.constraints_by_chain_id;
    let mut i: usize = 0;
    while i < v.len()
        invariant
            i <= v@.len(),
            v@ == trial_data.constraints_by_chain_id@,
            entries@.len() == i,
            forall|j: int| 0 <= j < i ==> ext_entry_of(#[trigger] v@[j], entries@[j]),
        decreases v@.len() - i,
    {
        let ext = match &v[i].1 {
            ChainConstraints::NEAR(nc) => ExtChainConstraints::NEAR(
                NearConstraints {
                    allowed_methods: crate::near_builder::clone_strings(&nc.allowed_methods),
                    allowed_contracts: crate::near_builder::clone_strings(&nc.allowed_contracts),
                    max_gas: nc.max_gas,
                    max_deposit: nc.max_deposit,
                },
            ),
            ChainConstraints::EVM(ec) => {
                let mut addr_texts: Vec<String> = Vec::new();
                let mut a: usize = 0;
                while a < ec.allowed_contracts.len()
                    invariant
                        a <= ec.allowed_contracts@.len(),
                        addr_texts@.len() == a,
                        forall|l: int|
                            0 <= l < a ==> (#[trigger] addr_texts@[l])@ == "0x"@ + hex_str_of(
                                ec.allowed_contracts@[l].bytes(),
                            ),
                    decreases ec.allowed_contracts@.len() - a,
                {
                    addr_texts.push(convert_address_to_hex_string(&ec.allowed_contracts[a]));
                    a += 1;
                }
                ExtChainConstraints::EVM(
                    ExtEvmConstraints {
                        allowed_methods: crate::near_builder::clone_strings(&ec.allowed_methods),
                        allowed_contracts: addr_texts,
                        max_gas: ec.max_gas,
                        max_value: ec.max_value,
                    },
                )
            },
        };
        entries.push((v[i].0, ext));
        i += 1;
    }
    ExtTrialData {
        constraints_by_chain_id: entries,
        usage_constraints: match &trial_data.usage_constraints {
            Some(u) => Some(
                UsageConstraints {
                    max_contracts: u.max_contracts,
                    max_methods: u.max_methods,
                    max_token_transfer: u.max_token_transfer,
                    rate_limit_per_minute: u.rate_limit_per_minute,
                    blacklisted_addresses: crate::near_builder::clone_strings(
                        &u.blacklisted_addresses,
                    ),
                },
            ),
            None => None,
        },
        interaction_limits: trial_data.interaction_limits,
        exit_conditions: match &trial_data.exit_conditions {
            Some(e) => Some(
                ExitConditions {
                    transaction_limit: e.transaction_limit,
                    success_condition: match &e.success_condition {
                        Some(f) => Some(
                            FunctionSuccessCondition {
                                contract_id: f.contract_id.clone(),
                                method_name: f.method_name.clone(),
                                expected_return: f.expected_return.clone(),
                            },
                        ),
                        None => None,
                    },
                    time_limit: e.time_limit,
                },
            ),
            None => None,
        },
        expiration_time: trial_data.expiration_time,
        creator_account_id: trial_data.creator_account_id.clone(),
    }
}

impl Contract {
    /// The stored policy for a trial id, if any.
    pub fn get_trial_data(&self, trial_id: u32) -> (r: Option<&TrialData>)
        ensures
            match r {
                Some(td) => self.spec_trial(trial_id) == Some(*td),
                None => self.spec_trial(trial_id) is None,
            },
    {
        self.find_trial(trial_id)
    }

    /// The delegated key's record as a caller sees it, if the key is known:
    /// the same trial, derived key, statistics and bindings, identities as
    /// text.
    pub fn get_key_usage(&self, public_key: &Vec<u8>) -> (r: Option<ExtKeyUsage>)
        ensures
            match r {
                Some(e) => self.spec_usage(public_key@) matches Some(ku) && {
                    &&& e.trial_id == ku.trial_id
                    &&& e.mpc_key@ == ku.mpc_key@
                    &&& e.account_id_by_chain_id@.len() == ku.account_id_by_chain_id@.len()
                    &&& forall|j: int|
                        0 <= j < ku.account_id_by_chain_id@.len() ==> (
                        #[trigger] e.account_id_by_chain_id@[j]).0
                            == ku.account_id_by_chain_id@[j].0 && e.account_id_by_chain_id@[j].1@
                            == identity_text(ku.account_id_by_chain_id@[j].1)
                    &&& e.usage_stats.total_interactions == ku.usage_stats.total_interactions
                    &&& e.usage_stats.gas_used == ku.usage_stats.gas_used
                    &&& e.usage_stats.deposit_used == ku.usage_stats.deposit_used
                    &&& e.usage_stats.interactions_per_day@ == ku.usage_stats.interactions_per_day@
                    &&& e.usage_stats.methods_called@ == ku.usage_stats.methods_called@
                    &&& e.usage_stats.contracts_called@ == ku.usage_stats.contracts_called@
                },
                None => self.spec_usage(public_key@) is None,
            },
    {
        match self.find_key_usage(public_key) {
            Some(ku) => Some(
                ExtKeyUsage {
                    trial_id: ku.trial_id,
                    mpc_key: clone_bytes_pub(&ku.mpc_key),
                    account_id_by_chain_id: identity_texts(&ku.account_id_by_chain_id),
                    usage_stats: clone_usage_stats(&ku.usage_stats),
                },
            ),
            None => None,
        }
    }

    /// Everything a caller may see about one delegated key: its record and
    /// its trial's policy snapshot.
    pub fn get_trial_account_info(&self, public_key: &Vec<u8>) -> (r: Option<TrialAccountInfo>)
        ensures
            match r {
                Some(info) => {
                    &&& self.spec_usage(public_key@) matches Some(ku) && {
                        &&& info.trial_id == ku.trial_id
                        &&& info.mpc_key@ == ku.mpc_key@
                        &&& self.spec_trial(ku.trial_id) matches Some(td) && ext_trial_of(
                            td,
                            info.trial_data,
                        )
                        &&& info.usage_stats.total_interactions
                            == ku.usage_stats.total_interactions
                        &&& info.usage_stats.gas_used == ku.usage_stats.gas_used
                        &&& info.usage_stats.deposit_used == ku.usage_stats.deposit_used
                        &&& info.usage_stats.interactions_per_day@
                            == ku.usage_stats.interactions_per_day@
                        &&& info.usage_stats.methods_called@ == ku.usage_stats.methods_called@
                        &&& info.usage_stats.contracts_called@ == ku.usage_stats.contracts_called@
                        &&& info.account_id_by_chain_id@.len()
                            == ku.account_id_by_chain_id@.len()
                        &&& forall|j: int|
                            0 <= j < ku.account_id_by_chain_id@.len() ==> (
                            #[trigger] info.account_id_by_chain_id@[j]).0
                                == ku.account_id_by_chain_id@[j].0
                                && info.account_id_by_chain_id@[j].1@ == identity_text(
                                ku.account_id_by_chain_id@[j].1,
                            )
                    }
                },
                None => self.spec_usage(public_key@) is None || self.spec_trial(
                    self.spec_usage(public_key@)->Some_0.trial_id,
                ) is None,
            },
    {
        let ku = match self.find_key_usage(public_key) {
            Some(ku) => ku,
            None => {
                return None;
            },
        };
        let td = match self.find_trial(ku.trial_id) {
            Some(td) => td,
            None => {
                return None;
            },
        };
        Some(
            TrialAccountInfo {
                trial_id: ku.trial_id,
                trial_data: trial_data_to_ext_trial_data(td),
                mpc_key: clone_bytes_pub(&ku.mpc_key),
                account_id_by_chain_id: identity_texts(&ku.account_id_by_chain_id),
                usage_stats: clone_usage_stats(&ku.usage_stats),
            },
        )
    }
}

} // verus!
