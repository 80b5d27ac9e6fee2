//! Usage statistics of one delegated key.
//!
//! Statistics only ever grow: admission control is their sole writer, and it
//! either applies the whole accounting step of an accepted action or, on any
//! failure, leaves them exactly as they were.

use vstd::prelude::*;

use crate::counters::{bump_string_counter, bump_u64_counter, count_of, get_string_count,
    get_u64_count, unique_keys};
use crate::errors::TrialError;

verus! {

/// Running totals for one delegated key: interaction, gas and deposit
/// accumulators, and per-day, per-method and per-contract counters.
#[derive(Clone, Debug)]
pub struct UsageStats {
    pub total_interactions: u64,
    pub interactions_per_day: Vec<(u64, u64)>,
    pub methods_called: Vec<(String, u64)>,
    pub contracts_called: Vec<(String, u64)>,
    pub gas_used: u128,
    pub deposit_used: u128,
}

impl UsageStats {
    /// Counter maps hold at most one entry per key.
    pub open spec fn wf(self) -> bool {
        &&& unique_keys(self.interactions_per_day@)
        &&& unique_keys(self.methods_called@)
        &&& unique_keys(self.contracts_called@)
    }

    /// The statistics after one accepted action, all accumulators advanced.
    pub open spec fn recorded(
        self,
        other: UsageStats,
        method: Seq<char>,
        contract: Seq<char>,
        day: u64,
        gas: u128,
        deposit: u128,
    ) -> bool {
        &&& other.total_interactions == self.total_interactions + 1
        &&& other.gas_used == self.gas_used + gas
        &&& other.deposit_used == self.deposit_used + deposit
        &&& forall|d: u64|
            count_of(other.interactions_per_day@, d) == if d == day {
                (count_of(self.interactions_per_day@, day) + 1) as u64
            } else {
                count_of(self.interactions_per_day@, d)
            }
        &&& forall|m: Seq<char>|
            count_of(other.methods_called@, m) == if m == method {
                (count_of(self.methods_called@, method) + 1) as u64
            } else {
                count_of(self.methods_called@, m)
            }
        &&& forall|c: Seq<char>|
            count_of(other.contracts_called@, c) == if c == contract {
                (count_of(self.contracts_called@, contract) + 1) as u64
            } else {
                count_of(self.contracts_called@, c)
            }
    }

    /// Whether the accounting step of one action fits all accumulators.
    pub open spec fn can_record(
        self,
        method: Seq<char>,
        contract: Seq<char>,
        day: u64,
        gas: u128,
        deposit: u128,
    ) -> bool {
        &&& self.total_interactions < u64::MAX
        &&& self.gas_used + gas <= u128::MAX
        &&& self.deposit_used + deposit <= u128::MAX
        &&& count_of(self.interactions_per_day@, day) < u64::MAX
        &&& count_of(self.methods_called@, method) < u64::MAX
        &&& count_of(self.contracts_called@, contract) < u64::MAX
    }

    /// Accounts one accepted action: one more interaction in total, under
    /// the day, under the method and under the contract, and the gas and
    /// deposit added to their accumulators. Applied as a whole, or, when
    /// any accumulator would overflow, not at all (`Overflow`).
    pub fn record(
        &mut self,
        method: &String,
        contract: &String,
        day: u64,
        gas: u128,
        deposit: u128,
    ) -> (r: Result<(), TrialError>)
        requires
            old(self).wf(),
        ensures
            final(self).wf(),
            match r {
                Ok(()) => {
                    &&& old(self).can_record(method@, contract@, day, gas, deposit)
                    &&& old(self).recorded(*final(self), method@, contract@, day, gas, deposit)
                },
                Err(e) => {
                    &&& e == TrialError::Overflow
                    &&& !old(self).can_record(method@, contract@, day, gas, deposit)
                    &&& *final(self) == *old(self)
                },
            },
    {
        if self.total_interactions == u64::MAX {
            return Err(TrialError::Overflow);
        }
        if gas > u128::MAX - self.gas_used {
            return Err(TrialError::Overflow);
        }
        if deposit > u128::MAX - self.deposit_used {
            return Err(TrialError::Overflow);
        }
        if get_u64_count(&self.interactions_per_day, day) == u64::MAX {
            return Err(TrialError::Overflow);
        }
        if get_string_count(&self.methods_called, method) == u64::MAX {
            return Err(TrialError::Overflow);
        }
        if get_string_count(&self.contracts_called, contract) == u64::MAX {
            return Err(TrialError::Overflow);
        }
        match bump_u64_counter(&mut self.interactions_per_day, day) {
            Ok(()) => (),
            Err(_) => {
                proof {
                    assert(false);
                }
                return Err(TrialError::Overflow);
            },
        }
        match bump_string_counter(&mut self.methods_called, method) {
            Ok(()) => (),
            Err(_) => {
                proof {
                    assert(false);
                }
                return Err(TrialError::Overflow);
            },
        }
        match bump_string_counter(&mut self.contracts_called, contract) {
            Ok(()) => (),
            Err(_) => {
                proof {
                    assert(false);
                }
                return Err(TrialError::Overflow);
            },
        }
        self.total_interactions = self.total_interactions + 1;
        self.gas_used = self.gas_used + gas;
        self.deposit_used = self.deposit_used + deposit;
        Ok(())
    }
}

impl Default for UsageStats {
    /// Fresh statistics: every accumulator zero, every counter map empty.
    fn default() -> (r: Self)
        ensures
            r.total_interactions == 0,
            r.gas_used == 0,
            r.deposit_used == 0,
            r.interactions_per_day@ =~= Seq::<(u64, u64)>::empty(),
            r.methods_called@ =~= Seq::<(String, u64)>::empty(),
            r.contracts_called@ =~= Seq::<(String, u64)>::empty(),
            r.wf(),
    {
        UsageStats {
            total_interactions: 0,
            interactions_per_day: Vec::new(),
            methods_called: Vec::new(),
            contracts_called: Vec::new(),
            gas_used: 0,
            deposit_used: 0,
        }
    }
}

} // verus!
