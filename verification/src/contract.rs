//! The engine's state and entry points: trial policies and delegated-key
//! records in storage, and the calls that create, populate, use and delete
//! them.
//!
//! Every entry point takes what the host ledger would supply (the caller,
//! the signer's key, the time) as plain arguments, checks everything first,
//! and mutates state only when the whole call is accepted: a failed call
//! leaves the state exactly as it was.

use vstd::prelude::*;

use crate::admission::{admit_probe, check_and_record, lemma_spec_admit_evm_agrees, spec_admit,
    spec_admit_evm, Action, EvmAction, NearAction, NANOS_PER_DAY};
use crate::chain::Chain;
use crate::digest::keccak256_of;
use crate::evm_abi::call_data;
use crate::evm_tokens::{all_parsed_match, lemma_parse_match_congruence, matches_type, parses_to,
    token_parseable, SerializableParam, SerializableParamType, SerializableToken, TokenValue};
use crate::evm_tx::{enc_eip1559, AccessListEntry, EvmTransaction, EvmTransactionView};
use crate::dispatch::{create_sign_request_from_transaction, pk_text, public_key_from_tagged_bytes,
    tagged_pk_ok, tagged_pk_view, SignRequest};
use crate::digest::{hash_payload, sha256_of};
use crate::near_codec::enc_transaction;
use crate::near_types::{ActionView, NearTransactionView, PermissionView, AccessKeyView};
use crate::chain::ChainId;
use crate::errors::TrialError;
use crate::key_usage::{KeyUsage, KeyWithMPC, UserAccountId};
use crate::chain::chain_id_of_text;
use crate::hexformat::{address_bytes_of, parses_as_address};
use crate::policy::{ChainConstraints, EvmConstraints, ExtChainConstraints, TrialData};
use crate::policy::{ExitConditions, InteractionLimits, UsageConstraints};

verus! {

/// A trial's identifier: assigned by one counter, unique, never reused.
pub type TrialId = u32;

/// Storage keys for the engine's two collections.
#[derive(Clone, Copy, Debug, PartialEq, Eq, Structural)]
pub enum StorageKeys {
    TrialDataById,
    KeyUsageByPK,
}

/// The engine's state: policies by trial id, delegated-key records by the
/// delegated public key's bytes, the two privileged accounts, and the
/// counter that issues trial ids.
pub struct Contract {
    pub trial_data_by_id: Vec<(TrialId, TrialData)>,
    pub key_usage_by_pk: Vec<(Vec<u8>, KeyUsage)>,
    pub admin_account: String,
    pub mpc_contract: String,
    pub trial_nonce: TrialId,
}

/// Compares two byte vectors by content.
pub fn bytes_eq(a: &Vec<u8>, b: &Vec<u8>) -> (r: bool)
    ensures
        r == (a@ == b@),
{
    if a.len() != b.len() {
        return false;
    }
    let mut i: usize = 0;
    while i < a.len()
        invariant
            i <= a@.len(),
            a@.len() == b@.len(),
            forall|j: int| 0 <= j < i ==> a@[j] == b@[j],
        decreases a@.len() - i,
    {
        if a[i] != b[i] {
            return false;
        }
        i += 1;
    }
    proof {
        assert(a@ =~= b@);
    }
    true
}

/// The policy stored under a trial id: the first entry with that id.
pub open spec fn trial_for(s: Seq<(u32, TrialData)>, id: u32) -> Option<TrialData>
    decreases s.len(),
{
    if s.len() == 0 {
        None
    } else if s[0].0 == id {
        Some(s[0].1)
    } else {
        trial_for(s.drop_first(), id)
    }
}

/// The record stored under a delegated key: the first entry whose key bytes
/// match.
pub open spec fn usage_for(s: Seq<(Vec<u8>, KeyUsage)>, pk: Seq<u8>) -> Option<KeyUsage>
    decreases s.len(),
{
    if s.len() == 0 {
        None
    } else if s[0].0@ == pk {
        Some(s[0].1)
    } else {
        usage_for(s.drop_first(), pk)
    }
}

impl Contract {
    /// Trial ids are unique and never exceed the counter; delegated keys
    /// are unique; every stored record and policy is well-formed.
    pub open spec fn wf(self) -> bool {
        &&& forall|i: int, j: int|
            0 <= i < j < self.trial_data_by_id@.len() ==> self.trial_data_by_id@[i].0
                != self.trial_data_by_id@[j].0
        &&& forall|i: int|
            0 <= i < self.trial_data_by_id@.len() ==> (#[trigger] self.trial_data_by_id@[i]).0
                <= self.trial_nonce
        &&& forall|i: int|
            0 <= i < self.trial_data_by_id@.len() ==> (
            #[trigger] self.trial_data_by_id@[i]).1.wf()
        &&& forall|i: int, j: int|
            0 <= i < j < self.key_usage_by_pk@.len() ==> self.key_usage_by_pk@[i].0@
                != self.key_usage_by_pk@[j].0@
        &&& forall|i: int|
            0 <= i < self.key_usage_by_pk@.len() ==> (#[trigger] self.key_usage_by_pk@[i]).1.wf()
    }

    /// The policy stored under `id`, if any.
    pub open spec fn spec_trial(self, id: u32) -> Option<TrialData> {
        trial_for(self.trial_data_by_id@, id)
    }

    /// The record stored under key bytes `pk`, if any.
    pub open spec fn spec_usage(self, pk: Seq<u8>) -> Option<KeyUsage> {
        usage_for(self.key_usage_by_pk@, pk)
    }

    /// A fresh engine: empty stores, the two accounts, counter at zero.
    pub fn new(admin_account: String, mpc_contract: String) -> (r: Contract)
        ensures
            r.wf(),
            r.trial_data_by_id@ =~= Seq::<(u32, TrialData)>::empty(),
            r.key_usage_by_pk@ =~= Seq::<(Vec<u8>, KeyUsage)>::empty(),
            r.admin_account == admin_account,
            r.mpc_contract == mpc_contract,
            r.trial_nonce == 0,
    {
        Contract {
            trial_data_by_id: Vec::new(),
            key_usage_by_pk: Vec::new(),
            admin_account,
            mpc_contract,
            trial_nonce: 0,
        }
    }

    /// The stored policy for `trial_id`, if any.
    pub fn find_trial(&self, trial_id: u32) -> (r: Option<&TrialData>)
        ensures
            match r {
                Some(td) => self.spec_trial(trial_id) == Some(*td),
                None => self.spec_trial(trial_id) is None,
            },
    {
        proof {
            assert(self.trial_data_by_id@.skip(0) =~= self.trial_data_by_id@);
        }
        let v = &self.trial_data_by_id;
        let mut i: usize = 0;
        while i < v.len()
            invariant
                i <= v.len(),
                v@ == self.trial_data_by_id@,
                trial_for(v@, trial_id) == trial_for(v@.skip(i as int), trial_id),
            decreases v.len() - i,
        {
            proof {
                assert(v@.skip(i as int)[0] == v@[i as int]);
                assert(v@.skip(i as int).drop_first() =~= v@.skip(i as int + 1));
            }
            if v[i].0 == trial_id {
                proof {
                    assert(trial_for(v@.skip(i as int), trial_id) == Some(v@[i as int].1));
                }
                return Some(&v[i].1);
            }
            i += 1;
        }
        proof {
            assert(v@.skip(v@.len() as int) =~= Seq::<(u32, TrialData)>::empty());
        }
        None
    }

    /// The index of the record stored under `pk`, if any.
    fn find_usage_index(&self, pk: &Vec<u8>) -> (r: Option<usize>)
        ensures
            match r {
                Some(i) => i < self.key_usage_by_pk@.len() && self.key_usage_by_pk@[i as int].0@
                    == pk@ && self.spec_usage(pk@) == Some(self.key_usage_by_pk@[i as int].1) && (
                forall|j: int| 0 <= j < i ==> self.key_usage_by_pk@[j].0@ != pk@),
                None => self.spec_usage(pk@) is None && (forall|j: int|
                    0 <= j < self.key_usage_by_pk@.len() ==> self.key_usage_by_pk@[j].0@ != pk@),
            },
    {
        proof {
            assert(self.key_usage_by_pk@.skip(0) =~= self.key_usage_by_pk@);
        }
        let v = &self.key_usage_by_pk;
        let mut i: usize = 0;
        while i < v.len()
            invariant
                i <= v.len(),
                v@ == self.key_usage_by_pk@,
                usage_for(v@, pk@) == usage_for(v@.skip(i as int), pk@),
                forall|j: int| 0 <= j < i ==> v@[j].0@ != pk@,
            decreases v.len() - i,
        {
            proof {
                assert(v@.skip(i as int)[0] == v@[i as int]);
                assert(v@.skip(i as int).drop_first() =~= v@.skip(i as int + 1));
            }
            if bytes_eq(&v[i].0, pk) {
                proof {
                    assert(usage_for(v@.skip(i as int), pk@) == Some(v@[i as int].1));
                }
                return Some(i);
            }
            i += 1;
        }
        proof {
            assert(v@.skip(v@.len() as int) =~= Seq::<(Vec<u8>, KeyUsage)>::empty());
        }
        None
    }

    /// The stored record for the delegated key `pk`, if any.
    pub fn find_key_usage(&self, pk: &Vec<u8>) -> (r: Option<&KeyUsage>)
        ensures
            match r {
                Some(ku) => self.spec_usage(pk@) == Some(*ku),
                None => self.spec_usage(pk@) is None,
            },
    {
        match self.find_usage_index(pk) {
            Some(i) => Some(&self.key_usage_by_pk[i].1),
            None => None,
        }
    }
}

/// Replacing an entry by one with the same key changes only that key's
/// record.
proof fn lemma_usage_for_update(s: Seq<(Vec<u8>, KeyUsage)>, i: int, x: (Vec<u8>, KeyUsage),
    pk2: Seq<u8>)
    requires
        0 <= i < s.len(),
        x.0@ == s[i].0@,
        forall|j: int| 0 <= j < i ==> s[j].0@ != s[i].0@,
    ensures
        usage_for(s.update(i, x), pk2) == if pk2 == s[i].0@ {
            Some(x.1)
        } else {
            usage_for(s, pk2)
        },
    decreases i,
{
    if i == 0 {
        assert(s.update(i, x).drop_first() =~= s.drop_first());
    } else {
        assert(s.update(i, x).drop_first() =~= s.drop_first().update(i - 1, x));
        lemma_usage_for_update(s.drop_first(), i - 1, x, pk2);
    }
}


/// Replacing the record at a position, its key kept, updates exactly that
/// key's record and preserves the store's well-formedness.
proof fn lemma_usage_store_updated(
    s0: Seq<(Vec<u8>, KeyUsage)>,
    s1: Seq<(Vec<u8>, KeyUsage)>,
    i: int,
    ku: KeyUsage,
)
    requires
        0 <= i < s0.len(),
        s1 == s0.update(i, (s0[i].0, ku)),
        forall|a: int, b: int| 0 <= a < b < s0.len() ==> s0[a].0@ != s0[b].0@,
        forall|j: int| 0 <= j < s0.len() ==> (#[trigger] s0[j]).1.wf(),
        ku.wf(),
    ensures
        forall|pk2: Seq<u8>|
            usage_for(s1, pk2) == if pk2 == s0[i].0@ {
                Some(ku)
            } else {
                usage_for(s0, pk2)
            },
        forall|a: int, b: int| 0 <= a < b < s1.len() ==> s1[a].0@ != s1[b].0@,
        forall|j: int| 0 <= j < s1.len() ==> (#[trigger] s1[j]).1.wf(),
{
    assert forall|pk2: Seq<u8>|
        usage_for(s1, pk2) == if pk2 == s0[i].0@ {
            Some(ku)
        } else {
            usage_for(s0, pk2)
        } by {
        lemma_usage_for_update(s0, i, s1[i], pk2);
    }
    assert forall|a: int, b: int| 0 <= a < b < s1.len() implies s1[a].0@ != s1[b].0@ by {
        assert(s1[a].0@ == s0[a].0@);
        assert(s1[b].0@ == s0[b].0@);
    }
    assert forall|j: int| 0 <= j < s1.len() implies (#[trigger] s1[j]).1.wf() by {
        if j != i {
            assert(s1[j] == s0[j]);
        }
    }
}

/// Appending an entry under a fresh key changes only that key's record.
proof fn lemma_usage_for_push(s: Seq<(Vec<u8>, KeyUsage)>, x: (Vec<u8>, KeyUsage), pk2: Seq<u8>)
    requires
        forall|j: int| 0 <= j < s.len() ==> s[j].0@ != x.0@,
    ensures
        usage_for(s.push(x), pk2) == if pk2 == x.0@ {
            Some(x.1)
        } else {
            usage_for(s, pk2)
        },
    decreases s.len(),
{
    if s.len() == 0 {
        assert(s.push(x)[0] == x);
        assert(s.push(x).drop_first() =~= Seq::<(Vec<u8>, KeyUsage)>::empty());
        if pk2 == x.0@ {
            assert(usage_for(s.push(x), pk2) == Some(x.1));
        } else {
            assert(usage_for(s.push(x), pk2) == usage_for(s.push(x).drop_first(), pk2));
            assert(usage_for(s.push(x).drop_first(), pk2) is None);
            assert(usage_for(s, pk2) is None);
        }
    } else {
        assert(s.push(x)[0] == s[0]);
        assert(s[0].0@ != x.0@);
        assert(s.push(x).drop_first() =~= s.drop_first().push(x));
        assert forall|j: int| 0 <= j < s.drop_first().len() implies s.drop_first()[j].0@
            != x.0@ by {
            assert(s.drop_first()[j] == s[j + 1]);
        }
        lemma_usage_for_push(s.drop_first(), x, pk2);
        if s[0].0@ == pk2 {
            assert(usage_for(s.push(x), pk2) == Some(s[0].1));
            assert(usage_for(s, pk2) == Some(s[0].1));
        } else {
            assert(usage_for(s.push(x), pk2) == usage_for(s.drop_first().push(x), pk2));
            assert(usage_for(s, pk2) == usage_for(s.drop_first(), pk2));
        }
    }
}

/// Appending a policy under a fresh id changes only that id's policy.
proof fn lemma_trial_for_push(s: Seq<(u32, TrialData)>, x: (u32, TrialData), id2: u32)
    requires
        forall|j: int| 0 <= j < s.len() ==> s[j].0 != x.0,
    ensures
        trial_for(s.push(x), id2) == if id2 == x.0 {
            Some(x.1)
        } else {
            trial_for(s, id2)
        },
    decreases s.len(),
{
    if s.len() == 0 {
        assert(s.push(x)[0] == x);
        assert(s.push(x).drop_first() =~= Seq::<(u32, TrialData)>::empty());
        if id2 == x.0 {
            assert(trial_for(s.push(x), id2) == Some(x.1));
        } else {
            assert(trial_for(s.push(x), id2) == trial_for(s.push(x).drop_first(), id2));
            assert(trial_for(s.push(x).drop_first(), id2) is None);
            assert(trial_for(s, id2) is None);
        }
    } else {
        assert(s.push(x)[0] == s[0]);
        assert(s[0].0 != x.0);
        assert(s.push(x).drop_first() =~= s.drop_first().push(x));
        assert forall|j: int| 0 <= j < s.drop_first().len() implies s.drop_first()[j].0
            != x.0 by {
            assert(s.drop_first()[j] == s[j + 1]);
        }
        lemma_trial_for_push(s.drop_first(), x, id2);
        if s[0].0 == id2 {
            assert(trial_for(s.push(x), id2) == Some(s[0].1));
            assert(trial_for(s, id2) == Some(s[0].1));
        } else {
            assert(trial_for(s.push(x), id2) == trial_for(s.drop_first().push(x), id2));
            assert(trial_for(s, id2) == trial_for(s.drop_first(), id2));
        }
    }
}

/// Removing the entry for an id, unique among the keys, removes exactly
/// that id's policy.
proof fn lemma_trial_for_remove(s: Seq<(u32, TrialData)>, i: int, id2: u32)
    requires
        0 <= i < s.len(),
        forall|a: int, b: int| 0 <= a < b < s.len() ==> s[a].0 != s[b].0,
    ensures
        trial_for(s.remove(i), id2) == if id2 == s[i].0 {
            None::<TrialData>
        } else {
            trial_for(s, id2)
        },
    decreases i,
{
    if i == 0 {
        assert(s.remove(0) =~= s.drop_first());
        if id2 == s[0].0 {
            lemma_trial_for_absent_after(s, id2);
        }
    } else {
        assert(s.remove(i).drop_first() =~= s.drop_first().remove(i - 1));
        assert(s.remove(i)[0] == s[0]);
        assert forall|a: int, b: int| 0 <= a < b < s.drop_first().len() implies s.drop_first()[a].0
            != s.drop_first()[b].0 by {
            assert(s.drop_first()[a] == s[a + 1] && s.drop_first()[b] == s[b + 1]);
        }
        lemma_trial_for_remove(s.drop_first(), i - 1, id2);
        assert(s.drop_first()[i - 1] == s[i]);
    }
}

/// When the head holds an id that appears nowhere later, the tail has no
/// policy under it.
proof fn lemma_trial_for_absent_after(s: Seq<(u32, TrialData)>, id2: u32)
    requires
        s.len() > 0,
        forall|a: int, b: int| 0 <= a < b < s.len() ==> s[a].0 != s[b].0,
        id2 == s[0].0,
    ensures
        trial_for(s.drop_first(), id2) is None,
{
    assert forall|j: int| 0 <= j < s.drop_first().len() implies s.drop_first()[j].0 != id2 by {
        assert(s.drop_first()[j] == s[j + 1]);
    }
    lemma_trial_for_none(s.drop_first(), id2);
}

/// When no entry holds an id, there is no policy under it.
proof fn lemma_trial_for_none(s: Seq<(u32, TrialData)>, id2: u32)
    requires
        forall|j: int| 0 <= j < s.len() ==> s[j].0 != id2,
    ensures
        trial_for(s, id2) is None,
    decreases s.len(),
{
    if s.len() > 0 {
        lemma_trial_for_none(s.drop_first(), id2);
    }
}

impl Contract {
    /// Deletes a trial. Only callable by the creator: fails
    /// `PolicyNotFound` when the id holds no policy and `AccessDenied` when
    /// the caller is not its creator; on success exactly that policy is
    /// gone and nothing else changes. Delegated keys that still reference
    /// the id stay, and later use of them fails `PolicyNotFound`.
    pub fn delete_trial(&mut self, predecessor_account_id: &String, trial_id: u32) -> (r: Result<
        (),
        TrialError,
    >)
        requires
            old(self).wf(),
        ensures
            final(self).wf(),
            final(self).key_usage_by_pk == old(self).key_usage_by_pk,
            final(self).trial_nonce == old(self).trial_nonce,
            final(self).admin_account == old(self).admin_account,
            final(self).mpc_contract == old(self).mpc_contract,
            match r {
                Ok(()) => {
                    &&& old(self).spec_trial(trial_id) matches Some(td)
                        && td.creator_account_id@ == predecessor_account_id@
                    &&& forall|id2: u32|
                        final(self).spec_trial(id2) == if id2 == trial_id {
                            None::<TrialData>
                        } else {
                            old(self).spec_trial(id2)
                        }
                },
                Err(e) => {
                    &&& *final(self) == *old(self)
                    &&& match e {
                        TrialError::PolicyNotFound => old(self).spec_trial(trial_id) is None,
                        TrialError::AccessDenied => old(self).spec_trial(trial_id) matches Some(
                            td,
                        ) && td.creator_account_id@ != predecessor_account_id@,
                        _ => false,
                    }
                },
            },
    {
        proof {
            assert(self.trial_data_by_id@.skip(0) =~= self.trial_data_by_id@);
        }
        let ghost s0 = self.trial_data_by_id@;
        let n = self.trial_data_by_id.len();
        let mut i: usize = 0;
        while i < n
            invariant
                i <= n,
                *self == *old(self),
                old(self).wf(),
                n == self.trial_data_by_id@.len(),
                self.trial_data_by_id@ == s0,
                trial_for(s0, trial_id) == trial_for(s0.skip(i as int), trial_id),
                forall|j: int| 0 <= j < i ==> s0[j].0 != trial_id,
            decreases n - i,
        {
            proof {
                assert(s0.skip(i as int)[0] == s0[i as int]);
                assert(s0.skip(i as int).drop_first() =~= s0.skip(i as int + 1));
            }
            if self.trial_data_by_id[i].0 == trial_id {
                proof {
                    assert(trial_for(s0.skip(i as int), trial_id) == Some(s0[i as int].1));
                }
                if self.trial_data_by_id[i].1.creator_account_id == *predecessor_account_id {
                    let ghost iw = i as int;
                    self.trial_data_by_id.remove(i);
                    proof {
                        let old_wf = old(self);
                        lemma_trial_for_remove(s0, iw, trial_id);
                        assert forall|id2: u32|
                            final(self).spec_trial(id2) == if id2 == trial_id {
                                None::<TrialData>
                            } else {
                                trial_for(s0, id2)
                            } by {
                            lemma_trial_for_remove(s0, iw, id2);
                        }
                        assert forall|a: int, b: int|
                            0 <= a < b < self.trial_data_by_id@.len()
                                implies self.trial_data_by_id@[a].0
                            != self.trial_data_by_id@[b].0 by {
                            if b < iw {
                                assert(self.trial_data_by_id@[a] == s0[a]);
                                assert(self.trial_data_by_id@[b] == s0[b]);
                            } else if a < iw {
                                assert(self.trial_data_by_id@[a] == s0[a]);
                                assert(self.trial_data_by_id@[b] == s0[b + 1]);
                            } else {
                                assert(self.trial_data_by_id@[a] == s0[a + 1]);
                                assert(self.trial_data_by_id@[b] == s0[b + 1]);
                            }
                        }
                        assert forall|j: int|
                            0 <= j < self.trial_data_by_id@.len() implies (
                        #[trigger] self.trial_data_by_id@[j]).0 <= self.trial_nonce && (
                        self.trial_data_by_id@[j]).1.wf() by {
                            if j < iw {
                                assert(self.trial_data_by_id@[j] == s0[j]);
                            } else {
                                assert(self.trial_data_by_id@[j] == s0[j + 1]);
                            }
                        }
                    }
                    return Ok(());
                } else {
                    return Err(TrialError::AccessDenied);
                }
            }
            i += 1;
        }
        proof {
            assert(s0.skip(n as int) =~= Seq::<(u32, TrialData)>::empty());
        }
        Err(TrialError::PolicyNotFound)
    }

    /// Associates delegated keys with a trial, in batch: each key gets a
    /// fresh record bound to the trial with zeroed statistics and no
    /// activation. Re-adding a key overwrites its old record. Only the
    /// trial's creator may add keys: fails `PolicyNotFound` when the id
    /// holds no policy and `AccessDenied` for anyone else, changing
    /// nothing.
    pub fn add_trial_keys(
        &mut self,
        predecessor_account_id: &String,
        keys: &Vec<KeyWithMPC>,
        trial_id: u32,
    ) -> (r: Result<(), TrialError>)
        requires
            old(self).wf(),
        ensures
            final(self).wf(),
            final(self).trial_data_by_id == old(self).trial_data_by_id,
            final(self).trial_nonce == old(self).trial_nonce,
            final(self).admin_account == old(self).admin_account,
            final(self).mpc_contract == old(self).mpc_contract,
            match r {
                Ok(()) => {
                    &&& old(self).spec_trial(trial_id) matches Some(td)
                        && td.creator_account_id@ == predecessor_account_id@
                    &&& forall|pk2: Seq<u8>|
                        #![trigger last_key_for(keys@, pk2)]
                        match last_key_for(keys@, pk2) {
                            Some(mk) => final(self).spec_usage(pk2) matches Some(ku)
                                && is_fresh_usage(ku, trial_id, mk),
                            None => final(self).spec_usage(pk2) == old(self).spec_usage(pk2),
                        }
                },
                Err(e) => {
                    &&& *final(self) == *old(self)
                    &&& match e {
                        TrialError::PolicyNotFound => old(self).spec_trial(trial_id) is None,
                        TrialError::AccessDenied => old(self).spec_trial(trial_id) matches Some(
                            td,
                        ) && td.creator_account_id@ != predecessor_account_id@,
                        _ => false,
                    }
                },
            },
    {
        match self.find_trial(trial_id) {
            None => {
                return Err(TrialError::PolicyNotFound);
            },
            Some(td) => {
                if td.creator_account_id != *predecessor_account_id {
                    return Err(TrialError::AccessDenied);
                }
            },
        }
        let ghost usage0 = self.key_usage_by_pk@;
        let mut i: usize = 0;
        while i < keys.len()
            invariant
                i <= keys@.len(),
                self.wf(),
                self.trial_data_by_id == old(self).trial_data_by_id,
                self.trial_nonce == old(self).trial_nonce,
                self.admin_account == old(self).admin_account,
                self.mpc_contract == old(self).mpc_contract,
                usage0 == old(self).key_usage_by_pk@,
                forall|pk2: Seq<u8>|
                    #![trigger last_key_for(keys@.take(i as int), pk2)]
                    match last_key_for(keys@.take(i as int), pk2) {
                        Some(mk) => usage_for(self.key_usage_by_pk@, pk2) matches Some(ku)
                            && is_fresh_usage(ku, trial_id, mk),
                        None => usage_for(self.key_usage_by_pk@, pk2) == usage_for(usage0, pk2),
                    },
            decreases keys@.len() - i,
        {
            let ghost before = self.key_usage_by_pk@;
            let pk_copy = crate::near_builder::clone_bytes_pub(&keys[i].public_key);
            let mpc_copy = crate::near_builder::clone_bytes_pub(&keys[i].mpc_key);
            let fresh = KeyUsage {
                trial_id,
                mpc_key: mpc_copy,
                account_id_by_chain_id: Vec::new(),
                usage_stats: Default::default(),
                exited: false,
            };
            let ghost pkg = pk_copy@;
            let ghost freshg = fresh;
            proof {
                assert(pkg == keys@[i as int].public_key@);
                assert(is_fresh_usage(freshg, trial_id, keys@[i as int].mpc_key@));
            }
            self.upsert_usage(pk_copy, fresh);
            proof {
                assert forall|pk2: Seq<u8>|
                    #![trigger last_key_for(keys@.take(i as int + 1), pk2)]
                    match last_key_for(keys@.take(i as int + 1), pk2) {
                        Some(mk) => usage_for(self.key_usage_by_pk@, pk2) matches Some(ku)
                            && is_fresh_usage(ku, trial_id, mk),
                        None => usage_for(self.key_usage_by_pk@, pk2) == usage_for(usage0, pk2),
                    } by {
                    lemma_last_key_take_snoc(keys@, i as int, pk2);
                    assert(self.spec_usage(pk2) == if pk2 == pkg {
                        Some(freshg)
                    } else {
                        usage_for(before, pk2)
                    });
                }
            }
            i += 1;
        }
        proof {
            assert(keys@.take(keys@.len() as int) =~= keys@);
        }
        Ok(())
    }

    /// Stores `ku` under `pk`, replacing any record already there.
    fn upsert_usage(&mut self, pk: Vec<u8>, ku: KeyUsage)
        requires
            old(self).wf(),
            ku.wf(),
        ensures
            final(self).wf(),
            final(self).trial_data_by_id == old(self).trial_data_by_id,
            final(self).trial_nonce == old(self).trial_nonce,
            final(self).admin_account == old(self).admin_account,
            final(self).mpc_contract == old(self).mpc_contract,
            forall|pk2: Seq<u8>|
                final(self).spec_usage(pk2) == if pk2 == pk@ {
                    Some(ku)
                } else {
                    old(self).spec_usage(pk2)
                },
    {
        let ghost s0 = self.key_usage_by_pk@;
        match self.find_usage_index(&pk) {
            Some(i) => {
                self.key_usage_by_pk[i] = (pk, ku);
                proof {
                    assert forall|pk2: Seq<u8>|
                        usage_for(self.key_usage_by_pk@, pk2) == if pk2
                            == s0[i as int].0@ {
                            Some(ku)
                        } else {
                            usage_for(s0, pk2)
                        } by {
                        lemma_usage_for_update(
                            s0,
                            i as int,
                            self.key_usage_by_pk@[i as int],
                            pk2,
                        );
                    }
                    assert forall|a: int, b: int|
                        0 <= a < b < self.key_usage_by_pk@.len()
                            implies self.key_usage_by_pk@[a].0@
                        != self.key_usage_by_pk@[b].0@ by {
                        assert(self.key_usage_by_pk@[a].0@ == s0[a].0@);
                        assert(self.key_usage_by_pk@[b].0@ == s0[b].0@);
                    }
                    assert forall|j: int|
                        0 <= j < self.key_usage_by_pk@.len() implies (
                    #[trigger] self.key_usage_by_pk@[j]).1.wf() by {
                        if j != i as int {
                            assert(self.key_usage_by_pk@[j] == s0[j]);
                        }
                    }
                }
            },
            None => {
                self.key_usage_by_pk.push((pk, ku));
                proof {
                    assert(self.key_usage_by_pk@ == s0.push((pk, ku)));
                    assert(self.key_usage_by_pk@[s0.len() as int] == (pk, ku));
                    assert(self.key_usage_by_pk@[s0.len() as int].0@ == pk@);
                    assert forall|pk2: Seq<u8>|
                        usage_for(self.key_usage_by_pk@, pk2) == if pk2 == self.key_usage_by_pk@[
                            s0.len() as int].0@ {
                            Some(ku)
                        } else {
                            usage_for(s0, pk2)
                        } by {
                        lemma_usage_for_push(s0, self.key_usage_by_pk@[s0.len() as int], pk2);
                    }
                    assert forall|a: int, b: int|
                        0 <= a < b < self.key_usage_by_pk@.len()
                            implies self.key_usage_by_pk@[a].0@
                        != self.key_usage_by_pk@[b].0@ by {
                        if b < s0.len() {
                            assert(self.key_usage_by_pk@[a] == s0[a]);
                            assert(self.key_usage_by_pk@[b] == s0[b]);
                        } else {
                            assert(self.key_usage_by_pk@[a] == s0[a]);
                        }
                    }
                    assert forall|j: int|
                        0 <= j < self.key_usage_by_pk@.len() implies (
                    #[trigger] self.key_usage_by_pk@[j]).1.wf() by {
                        if j < s0.len() {
                            assert(self.key_usage_by_pk@[j] == s0[j]);
                        }
                    }
                }
            },
        }
    }
}

/// A record as issuance writes it: bound to the trial, carrying the
/// signer's derived key, not yet activated anywhere, zeroed statistics,
/// not exited.
pub open spec fn is_fresh_usage(ku: KeyUsage, trial_id: u32, mpc_key: Seq<u8>) -> bool {
    &&& ku.trial_id == trial_id
    &&& ku.mpc_key@ == mpc_key
    &&& ku.account_id_by_chain_id@.len() == 0
    &&& ku.usage_stats.total_interactions == 0
    &&& ku.usage_stats.gas_used == 0
    &&& ku.usage_stats.deposit_used == 0
    &&& ku.usage_stats.interactions_per_day@.len() == 0
    &&& ku.usage_stats.methods_called@.len() == 0
    &&& ku.usage_stats.contracts_called@.len() == 0
    &&& !ku.exited
}

/// The derived key of the last batch entry for `pk`, if any entry is for
/// `pk`.
pub open spec fn last_key_for(keys: Seq<KeyWithMPC>, pk: Seq<u8>) -> Option<Seq<u8>>
    decreases keys.len(),
{
    if keys.len() == 0 {
        None
    } else if keys.last().public_key@ == pk {
        Some(keys.last().mpc_key@)
    } else {
        last_key_for(keys.drop_last(), pk)
    }
}

/// Extending the processed batch by one entry rebinds exactly that entry's
/// key.
proof fn lemma_last_key_take_snoc(keys: Seq<KeyWithMPC>, i: int, pk: Seq<u8>)
    requires
        0 <= i < keys.len(),
    ensures
        last_key_for(keys.take(i + 1), pk) == if keys[i].public_key@ == pk {
            Some(keys[i].mpc_key@)
        } else {
            last_key_for(keys.take(i), pk)
        },
{
    assert(keys.take(i + 1).last() == keys[i]);
    assert(keys.take(i + 1).drop_last() =~= keys.take(i));
}

/// The fault in one creation entry, if any: an unparseable chain name, a
/// chain already named by an earlier entry, constraints of the other
/// family, or an EVM allowlist address that does not parse.
pub open spec fn entry_fault(inp: Seq<(String, ExtChainConstraints)>, i: int) -> Option<
    TrialError,
> {
    match chain_id_of_text(inp[i].0@) {
        None => Some(TrialError::InvalidHex),
        Some(c) => {
            if exists|j: int| 0 <= j < i && chain_id_of_text(#[trigger] inp[j].0@) == Some(c) {
                Some(TrialError::ChainMismatch)
            } else {
                match (c, inp[i].1) {
                    (ChainId::NEAR, ExtChainConstraints::NEAR(_)) => None,
                    (ChainId::EVM(_), ExtChainConstraints::EVM(e)) => {
                        if forall|j: int|
                            0 <= j < e.allowed_contracts@.len() ==> parses_as_address(
                                (#[trigger] e.allowed_contracts@[j])@,
                            ) {
                            None
                        } else {
                            Some(TrialError::InvalidAddress)
                        }
                    },
                    _ => Some(TrialError::ChainMismatch),
                }
            }
        },
    }
}

/// The first entry fault, scanning from `i`.
pub open spec fn first_fault(inp: Seq<(String, ExtChainConstraints)>, i: int) -> Option<
    TrialError,
>
    decreases inp.len() - i,
{
    if i < 0 || i >= inp.len() {
        None
    } else {
        match entry_fault(inp, i) {
            Some(e) => Some(e),
            None => first_fault(inp, i + 1),
        }
    }
}

/// What a creation entry turns into: the parsed chain, the same native
/// constraints, or EVM constraints with each allowlist address parsed to
/// its bytes.
pub open spec fn entry_to(
    inp: (String, ExtChainConstraints),
    out: (ChainId, ChainConstraints),
) -> bool {
    &&& chain_id_of_text(inp.0@) == Some(out.0)
    &&& match (inp.1, out.1) {
        (ExtChainConstraints::NEAR(nc), ChainConstraints::NEAR(nc2)) => nc2 == nc,
        (ExtChainConstraints::EVM(e), ChainConstraints::EVM(k)) => {
            &&& k.allowed_methods == e.allowed_methods
            &&& k.max_gas == e.max_gas
            &&& k.max_value == e.max_value
            &&& k.allowed_contracts@.len() == e.allowed_contracts@.len()
            &&& forall|j: int|
                0 <= j < e.allowed_contracts@.len() ==> parses_as_address(
                    (#[trigger] e.allowed_contracts@[j])@,
                ) && k.allowed_contracts@[j].bytes() == address_bytes_of(e.allowed_contracts@[j]@)
        },
        _ => false,
    }
}

/// When the first `i` entries are fault-free and entry `i` faults, that is
/// the first fault.
proof fn lemma_first_fault_at(inp: Seq<(String, ExtChainConstraints)>, i: int, k: int)
    requires
        0 <= k <= i <= inp.len(),
        i == inp.len() || entry_fault(inp, i) is Some,
        forall|j: int| 0 <= j < i ==> entry_fault(inp, j) is None,
    ensures
        first_fault(inp, k) == if i < inp.len() {
            entry_fault(inp, i)
        } else {
            None::<TrialError>
        },
    decreases i - k,
{
    if k < i {
        lemma_first_fault_at(inp, i, k + 1);
    }
}

impl Contract {
    /// Creates a new trial from per-chain constraints given in their wire
    /// form: chain names are parsed, each chain must appear once with
    /// constraints of its own family, and EVM allowlist addresses are
    /// normalized to raw bytes. The first violation names the error
    /// (`InvalidHex` for an unparseable chain name, `ChainMismatch` for a
    /// repeated chain or the wrong family, `InvalidAddress` for a bad
    /// address) and nothing changes; otherwise the next trial id is issued
    /// and the policy stored under it.
    pub fn create_trial(
        &mut self,
        predecessor_account_id: &String,
        chain_constraints: Vec<(String, ExtChainConstraints)>,
        usage_constraints: Option<UsageConstraints>,
        interaction_limits: Option<InteractionLimits>,
        exit_conditions: Option<ExitConditions>,
        expiration_time: Option<u64>,
    ) -> (r: Result<u32, TrialError>)
        requires
            old(self).wf(),
        ensures
            final(self).wf(),
            final(self).key_usage_by_pk == old(self).key_usage_by_pk,
            final(self).admin_account == old(self).admin_account,
            final(self).mpc_contract == old(self).mpc_contract,
            r == match first_fault(chain_constraints@, 0) {
                Some(e) => Err::<u32, TrialError>(e),
                None => if old(self).trial_nonce < u32::MAX {
                    Ok((old(self).trial_nonce + 1) as u32)
                } else {
                    Err(TrialError::Overflow)
                },
            },
            match r {
                Ok(id) => {
                    &&& final(self).trial_nonce == id
                    &&& final(self).spec_trial(id) matches Some(td) && td.wf()
                        && td.creator_account_id@ == predecessor_account_id@
                        && td.usage_constraints == usage_constraints && td.interaction_limits
                        == interaction_limits && td.exit_conditions == exit_conditions
                        && td.expiration_time == expiration_time
                        && td.constraints_by_chain_id@.len() == chain_constraints@.len() && (
                    forall|i: int|
                        0 <= i < chain_constraints@.len() ==> entry_to(
                            #[trigger] chain_constraints@[i],
                            td.constraints_by_chain_id@[i],
                        ))
                    &&& forall|id2: u32|
                        id2 != id ==> final(self).spec_trial(id2) == old(self).spec_trial(id2)
                },
                Err(_) => *final(self) == *old(self),
            },
    {
        let mut rest = chain_constraints;
        let ghost inp = rest@;
        let mut out: Vec<(ChainId, ChainConstraints)> = Vec::new();
        let mut i: usize = 0;
        let n = rest.len();
        while i < n
            invariant
                i <= n,
                n == inp.len(),
                inp == chain_constraints@,
                *self == *old(self),
                old(self).wf(),
                rest@ =~= inp.skip(i as int),
                out@.len() == i,
                forall|j: int| 0 <= j < i ==> entry_fault(inp, j) is None,
                forall|j: int| 0 <= j < i ==> entry_to(#[trigger] inp[j], out@[j]),
            decreases n - i,
        {
            let (chain_text, ext) = rest.remove(0);
            proof {
                assert(inp.skip(i as int)[0] == inp[i as int]);
                assert(inp.skip(i as int).drop_first() =~= inp.skip(i as int + 1));
                assert((chain_text, ext) == inp[i as int]);
            }
            let c = match crate::chain::chain_id_from_str(&chain_text) {
                Ok(c) => c,
                Err(e) => {
                    proof {
                        lemma_first_fault_at(inp, i as int, 0);
                    }
                    return Err(e);
                },
            };
            let mut dup = false;
            let mut j: usize = 0;
            while j < out.len()
                invariant
                    j <= out@.len(),
                    i <= inp.len(),
                    out@.len() == i,
                    forall|l: int| 0 <= l < i ==> entry_to(#[trigger] inp[l], out@[l]),
                    dup == exists|l: int|
                        0 <= l < j && chain_id_of_text(#[trigger] inp[l].0@) == Some(c),
                decreases out@.len() - j,
            {
                proof {
                    assert(entry_to(inp[j as int], out@[j as int]));
                }
                if out[j].0 == c {
                    proof {
                        assert(chain_id_of_text(inp[j as int].0@) == Some(c));
                    }
                    dup = true;
                }
                j += 1;
            }
            if dup {
                proof {
                    lemma_first_fault_at(inp, i as int, 0);
                }
                return Err(TrialError::ChainMismatch);
            }
            let parsed: ChainConstraints = match (c, ext) {
                (ChainId::NEAR, ExtChainConstraints::NEAR(nc)) => ChainConstraints::NEAR(nc),
                (ChainId::EVM(_), ExtChainConstraints::EVM(e)) => {
                    let mut addrs: Vec<crate::hexformat::EvmAddress> = Vec::new();
                    let mut a: usize = 0;
                    let ghost evm_in = e;
                    proof {
                        assert(inp[i as int].1 == ExtChainConstraints::EVM(evm_in));
                    }
                    while a < e.allowed_contracts.len()
                        invariant
                            a <= e.allowed_contracts@.len(),
                            i < inp.len(),
                            inp == chain_constraints@,
                            *self == *old(self),
                            old(self).wf(),
                            e == evm_in,
                            chain_id_of_text(inp[i as int].0@) == Some(c),
                            c is EVM,
                            inp[i as int].1 == ExtChainConstraints::EVM(evm_in),
                            !(exists|l: int|
                                0 <= l < i && chain_id_of_text(#[trigger] inp[l].0@) == Some(c)),
                            forall|j: int| 0 <= j < i ==> entry_fault(inp, j) is None,
                            addrs@.len() == a,
                            forall|l: int|
                                0 <= l < a ==> parses_as_address(
                                    (#[trigger] e.allowed_contracts@[l])@,
                                ) && addrs@[l].bytes() == address_bytes_of(
                                    e.allowed_contracts@[l]@,
                                ),
                        decreases e.allowed_contracts@.len() - a,
                    {
                        match crate::hexformat::parse_evm_address(
                            e.allowed_contracts[a].as_str(),
                        ) {
                            Ok(addr) => {
                                addrs.push(addr);
                            },
                            Err(err) => {
                                proof {
                                    assert(entry_fault(inp, i as int) == Some(
                                        TrialError::InvalidAddress,
                                    ));
                                    lemma_first_fault_at(inp, i as int, 0);
                                }
                                return Err(err);
                            },
                        }
                        a += 1;
                    }
                    ChainConstraints::EVM(
                        EvmConstraints {
                            allowed_methods: e.allowed_methods,
                            allowed_contracts: addrs,
                            max_gas: e.max_gas,
                            max_value: e.max_value,
                        },
                    )
                },
                _ => {
                    proof {
                        lemma_first_fault_at(inp, i as int, 0);
                    }
                    return Err(TrialError::ChainMismatch);
                },
            };
            out.push((c, parsed));
            proof {
                assert(entry_fault(inp, i as int) is None);
                assert(entry_to(inp[i as int], out@[i as int]));
            }
            i += 1;
        }
        proof {
            lemma_first_fault_at(inp, n as int, 0);
        }
        if self.trial_nonce == u32::MAX {
            return Err(TrialError::Overflow);
        }
        let trial_id = self.trial_nonce + 1;
        let td = TrialData {
            constraints_by_chain_id: out,
            usage_constraints,
            interaction_limits,
            exit_conditions,
            expiration_time,
            creator_account_id: predecessor_account_id.clone(),
        };
        proof {
            assert forall|a: int, b: int|
                0 <= a < b < td.constraints_by_chain_id@.len()
                    implies td.constraints_by_chain_id@[a].0 != td.constraints_by_chain_id@[b].0
            by {
                assert(entry_to(inp[a], td.constraints_by_chain_id@[a]));
                assert(entry_to(inp[b], td.constraints_by_chain_id@[b]));
                if td.constraints_by_chain_id@[a].0 == td.constraints_by_chain_id@[b].0 {
                    assert(entry_fault(inp, b) is None);
                    assert(chain_id_of_text(inp[a].0@) == Some(td.constraints_by_chain_id@[b].0));
                    assert(false);
                }
            }
            assert forall|a: int|
                0 <= a < td.constraints_by_chain_id@.len() implies crate::policy::family_matches(
                #[trigger] td.constraints_by_chain_id@[a].0,
                td.constraints_by_chain_id@[a].1,
            ) by {
                assert(entry_to(inp[a], td.constraints_by_chain_id@[a]));
                assert(entry_fault(inp, a) is None);
            }
            assert(td.wf());
        }
        let ghost trials0 = self.trial_data_by_id@;
        let ghost tdg = td;
        self.trial_data_by_id.push((trial_id, td));
        self.trial_nonce = trial_id;
        proof {
            assert(self.trial_data_by_id@[trials0.len() as int] == (trial_id, tdg));
            assert forall|j: int| 0 <= j < trials0.len() implies (#[trigger] trials0[j]).0
                != trial_id by {
                assert(trials0[j].0 <= old(self).trial_nonce);
            }
            assert forall|id2: u32|
                trial_for(self.trial_data_by_id@, id2) == if id2 == trial_id {
                    Some(tdg)
                } else {
                    trial_for(trials0, id2)
                } by {
                lemma_trial_for_push(trials0, (trial_id, tdg), id2);
            }
            assert forall|a: int, b: int|
                0 <= a < b < self.trial_data_by_id@.len() implies self.trial_data_by_id@[a].0
                != self.trial_data_by_id@[b].0 by {
                if b < trials0.len() {
                    assert(self.trial_data_by_id@[a] == trials0[a]);
                    assert(self.trial_data_by_id@[b] == trials0[b]);
                } else {
                    assert(self.trial_data_by_id@[a] == trials0[a]);
                }
            }
            assert forall|j: int|
                0 <= j < self.trial_data_by_id@.len() implies (
            #[trigger] self.trial_data_by_id@[j]).0 <= self.trial_nonce && (
            self.trial_data_by_id@[j]).1.wf() by {
                if j < trials0.len() {
                    assert(self.trial_data_by_id@[j] == trials0[j]);
                    assert(trials0[j].0 <= old(self).trial_nonce);
                }
            }
        }
        Ok(trial_id)
    }
}

/// Options for creating the end-user account at native-chain activation.
#[derive(Clone, Debug)]
pub struct CreateAccountOptions {
    pub full_access_keys: Option<Vec<Vec<u8>>>,
}

/// The account-creation request native-chain activation hands back for the
/// caller to send: the new account's name and its full-access keys.
#[derive(Clone, Debug)]
pub struct CreateAccountAdvancedOptions {
    pub options: CreateAccountOptions,
    pub new_account_id: String,
}

/// Whether a bound identity is the one the activation text names.
pub open spec fn bound_identity_ok(a: UserAccountId, c: ChainId, text: Seq<char>) -> bool {
    match (c, a) {
        (ChainId::NEAR, UserAccountId::NEAR(s)) => s@ == text,
        (ChainId::EVM(_), UserAccountId::EVM(ad)) => parses_as_address(text) && ad.bytes()
            == address_bytes_of(text),
        _ => false,
    }
}

impl Contract {
    /// Binds the signer's delegated key to an end-user identity on one
    /// chain, exactly once per chain. The chain name must parse
    /// (`InvalidHex`), an EVM identity must be an address
    /// (`InvalidAddress`), the key must be known (`AccessDenied`), its
    /// policy must still exist (`PolicyNotFound`), and the chain must not
    /// be bound yet (`AlreadyActivated`); any failure changes nothing. On
    /// the native chain the caller receives the account-creation request to
    /// send on; EVM activation needs none.
    pub fn activate_trial(
        &mut self,
        signer_pk: &Vec<u8>,
        new_account_id: &String,
        chain_id_text: &String,
    ) -> (r: Result<Option<CreateAccountAdvancedOptions>, TrialError>)
        requires
            old(self).wf(),
        ensures
            final(self).wf(),
            final(self).trial_data_by_id == old(self).trial_data_by_id,
            final(self).trial_nonce == old(self).trial_nonce,
            final(self).admin_account == old(self).admin_account,
            final(self).mpc_contract == old(self).mpc_contract,
            match r {
                Ok(opts) => {
                    &&& chain_id_of_text(chain_id_text@) matches Some(c)
                    &&& old(self).spec_usage(signer_pk@) matches Some(ku)
                    &&& {
                        let c = chain_id_of_text(chain_id_text@)->Some_0;
                        let ku = old(self).spec_usage(signer_pk@)->Some_0;
                        &&& (c is EVM ==> parses_as_address(new_account_id@))
                        &&& old(self).spec_trial(ku.trial_id) is Some
                        &&& ku.spec_activation(c) is None
                        &&& final(self).spec_usage(signer_pk@) matches Some(ku2) && {
                            &&& ku2.trial_id == ku.trial_id
                            &&& ku2.mpc_key == ku.mpc_key
                            &&& ku2.usage_stats == ku.usage_stats
                            &&& ku2.exited == ku.exited
                            &&& ku2.account_id_by_chain_id@.len()
                                == ku.account_id_by_chain_id@.len() + 1
                            &&& ku2.account_id_by_chain_id@.drop_last()
                                == ku.account_id_by_chain_id@
                            &&& ku2.account_id_by_chain_id@.last().0 == c
                            &&& bound_identity_ok(
                                ku2.account_id_by_chain_id@.last().1,
                                c,
                                new_account_id@,
                            )
                        }
                        &&& forall|pk2: Seq<u8>|
                            pk2 != signer_pk@ ==> final(self).spec_usage(pk2) == old(
                                self,
                            ).spec_usage(pk2)
                        &&& match opts {
                            Some(o) => {
                                &&& c is NEAR
                                &&& o.new_account_id@ == new_account_id@
                                &&& o.options.full_access_keys matches Some(v) && v@.len() == 1
                                    && v@[0]@ == ku.mpc_key@
                            },
                            None => c is EVM,
                        }
                    }
                },
                Err(e) => {
                    &&& *final(self) == *old(self)
                    &&& if chain_id_of_text(chain_id_text@) is None {
                        e == TrialError::InvalidHex
                    } else if chain_id_of_text(chain_id_text@)->Some_0 is EVM
                        && !parses_as_address(new_account_id@) {
                        e == TrialError::InvalidAddress
                    } else if old(self).spec_usage(signer_pk@) is None {
                        e == TrialError::AccessDenied
                    } else if old(self).spec_trial(
                        old(self).spec_usage(signer_pk@)->Some_0.trial_id,
                    ) is None {
                        e == TrialError::PolicyNotFound
                    } else {
                        e == TrialError::AlreadyActivated && old(self).spec_usage(
                            signer_pk@,
                        )->Some_0.spec_activation(chain_id_of_text(chain_id_text@)->Some_0)
                            is Some
                    }
                },
            },
    {
        let chain = match crate::chain::chain_id_from_str(chain_id_text) {
            Ok(c) => c,
            Err(e) => {
                return Err(e);
            },
        };
        let identity: UserAccountId = match chain {
            ChainId::NEAR => UserAccountId::NEAR(new_account_id.clone()),
            ChainId::EVM(_) => {
                match crate::hexformat::parse_evm_address(new_account_id.as_str()) {
                    Ok(a) => UserAccountId::EVM(a),
                    Err(e) => {
                        return Err(e);
                    },
                }
            },
        };
        let i = match self.find_usage_index(signer_pk) {
            Some(i) => i,
            None => {
                return Err(TrialError::AccessDenied);
            },
        };
        let trial_exists = matches!(
            self.find_trial(self.key_usage_by_pk[i].1.trial_id),
            Some(_),
        );
        if !trial_exists {
            return Err(TrialError::PolicyNotFound);
        }
        let already = matches!(self.key_usage_by_pk[i].1.activation(&chain), Some(_));
        if already {
            return Err(TrialError::AlreadyActivated);
        }
        let ghost s0 = self.key_usage_by_pk@;
        let mut pair = self.key_usage_by_pk.remove(i);
        let ghost ku0 = pair.1;
        let mpc_key_bytes = crate::near_builder::clone_bytes_pub(&pair.1.mpc_key);
        match pair.1.activate(chain, identity) {
            Ok(()) => (),
            Err(_) => {
                proof {
                    assert(false);
                }
                return Err(TrialError::AlreadyActivated);
            },
        }
        let ghost ku2 = pair.1;
        self.key_usage_by_pk.insert(i, pair);
        proof {
            assert(self.key_usage_by_pk@ =~= s0.update(i as int, (s0[i as int].0, ku2)));
            lemma_usage_store_updated(s0, self.key_usage_by_pk@, i as int, ku2);
            assert(ku2.account_id_by_chain_id@.drop_last() =~= ku0.account_id_by_chain_id@);
        }
        match chain {
            ChainId::NEAR => {
                let mut keys: Vec<Vec<u8>> = Vec::new();
                keys.push(mpc_key_bytes);
                Ok(
                    Some(
                        CreateAccountAdvancedOptions {
                            options: CreateAccountOptions { full_access_keys: Some(keys) },
                            new_account_id: new_account_id.clone(),
                        },
                    ),
                )
            },
            ChainId::EVM(_) => Ok(None),
        }
    }
}

/// The native-call transaction record, as a view: the bound account signs
/// with the derived key; one function-call operation carries the action.
pub open spec fn near_call_tx(
    acct: Seq<char>,
    mpc: crate::near_types::PublicKeyView,
    nonce: u64,
    receiver: Seq<char>,
    block_hash: Seq<u8>,
    method: Seq<char>,
    args: Seq<u8>,
    gas: u64,
    deposit: u128,
) -> NearTransactionView {
    NearTransactionView {
        signer_id: acct,
        signer_public_key: mpc,
        nonce,
        receiver_id: receiver,
        block_hash,
        actions: seq![
            ActionView::FunctionCall { method_name: method, args, gas, deposit },
        ],
    }
}

/// Whether the native-call transaction fits the layout: every text field
/// and the argument blob fit their length prefixes.
pub open spec fn near_call_wf(
    acct: Seq<char>,
    receiver: Seq<char>,
    method: Seq<char>,
    args: Seq<u8>,
) -> bool {
    &&& crate::near_types::str_len_ok(acct)
    &&& crate::near_types::str_len_ok(receiver)
    &&& crate::near_types::str_len_ok(method)
    &&& args.len() <= u32::MAX
}

/// The native-call decision, checks in order: the signer's key is known
/// and has not exited; its policy still exists; the native chain is
/// activated with a native identity; both curve-tagged keys parse; the
/// transaction fits the layout; then admission decides.
pub open spec fn near_call_outcome(
    c: Contract,
    pk: Seq<u8>,
    contract_id: String,
    method_name: String,
    args: Vec<u8>,
    gas: u64,
    deposit: u128,
    now: u64,
) -> Result<(), TrialError> {
    let action = Action::NEAR(
        NearAction { method_name, contract_id, gas_attached: gas, deposit_attached: deposit },
    );
    match c.spec_usage(pk) {
        None => Err(TrialError::AccessDenied),
        Some(ku) => {
            if ku.exited {
                Err(TrialError::AccessDenied)
            } else {
                match c.spec_trial(ku.trial_id) {
                    None => Err(TrialError::PolicyNotFound),
                    Some(td) => {
                        if !(ku.spec_activation(ChainId::NEAR) matches Some(
                            UserAccountId::NEAR(_),
                        )) {
                            Err(TrialError::NotActivated)
                        } else if !tagged_pk_ok(pk) {
                            Err(TrialError::InvalidAddress)
                        } else if !tagged_pk_ok(ku.mpc_key@) {
                            Err(TrialError::InvalidAddress)
                        } else if !near_call_wf(
                            ku.spec_activation(ChainId::NEAR)->Some_0->NEAR_0@,
                            contract_id@,
                            method_name@,
                            args@,
                        ) {
                            Err(TrialError::DispatchFailed)
                        } else {
                            spec_admit(td, ku.usage_stats, action, now)
                        }
                    },
                }
            }
        },
    }
}

impl Contract {
    /// Performs a policy-gated native-chain call: admits the action against
    /// the signer's trial policy, accounts it, builds the canonical
    /// transaction (the bound account calling the contract's method with
    /// the given budget, deposit, nonce and block anchor), and returns the
    /// signing request carrying its SHA-256 digest and the delegated key's
    /// derivation path. The decision is `near_call_outcome`; on any failure
    /// nothing changes.
    pub fn call_near_contract(
        &mut self,
        signer_pk: &Vec<u8>,
        contract_id: &String,
        method_name: &String,
        args: &Vec<u8>,
        gas: u64,
        deposit: u128,
        nonce: u64,
        block_hash: [u8; 32],
        now: u64,
    ) -> (r: Result<SignRequest, TrialError>)
        requires
            old(self).wf(),
        ensures
            final(self).wf(),
            final(self).trial_data_by_id == old(self).trial_data_by_id,
            final(self).trial_nonce == old(self).trial_nonce,
            final(self).admin_account == old(self).admin_account,
            final(self).mpc_contract == old(self).mpc_contract,
            match r {
                Ok(req) => {
                    &&& near_call_outcome(
                        *old(self),
                        signer_pk@,
                        *contract_id,
                        *method_name,
                        *args,
                        gas,
                        deposit,
                        now,
                    ) == Ok::<(), TrialError>(())
                    &&& old(self).spec_usage(signer_pk@) matches Some(ku) && {
                        let action = Action::NEAR(
                            NearAction {
                                method_name: *method_name,
                                contract_id: *contract_id,
                                gas_attached: gas,
                                deposit_attached: deposit,
                            },
                        );
                        let acct = ku.spec_activation(ChainId::NEAR)->Some_0->NEAR_0;
                        &&& final(self).spec_usage(signer_pk@) matches Some(ku2) && {
                            &&& ku2.trial_id == ku.trial_id
                            &&& ku2.mpc_key == ku.mpc_key
                            &&& ku2.account_id_by_chain_id == ku.account_id_by_chain_id
                            &&& ku2.exited == ku.exited
                            &&& ku.usage_stats.recorded(
                                ku2.usage_stats,
                                action.spec_method(),
                                action.spec_contract_label(),
                                now / NANOS_PER_DAY,
                                action.spec_gas(),
                                action.spec_value(),
                            )
                        }
                        &&& forall|pk2: Seq<u8>|
                            pk2 != signer_pk@ ==> final(self).spec_usage(pk2) == old(
                                self,
                            ).spec_usage(pk2)
                        &&& req.payload@ == sha256_of(
                            enc_transaction(
                                near_call_tx(
                                    acct@,
                                    tagged_pk_view(ku.mpc_key@),
                                    nonce,
                                    contract_id@,
                                    block_hash@,
                                    method_name@,
                                    args@,
                                    gas,
                                    deposit,
                                ),
                            ),
                        )
                        &&& req.path@ == pk_text(tagged_pk_view(signer_pk@))
                        &&& req.key_version == 0
                    }
                },
                Err(e) => {
                    &&& *final(self) == *old(self)
                    &&& near_call_outcome(
                        *old(self),
                        signer_pk@,
                        *contract_id,
                        *method_name,
                        *args,
                        gas,
                        deposit,
                        now,
                    ) == Err::<(), TrialError>(e)
                },
            },
    {
        let i = match self.find_usage_index(signer_pk) {
            Some(i) => i,
            None => {
                return Err(TrialError::AccessDenied);
            },
        };
        if self.key_usage_by_pk[i].1.exited {
            return Err(TrialError::AccessDenied);
        }
        let trial_exists = matches!(
            self.find_trial(self.key_usage_by_pk[i].1.trial_id),
            Some(_),
        );
        if !trial_exists {
            return Err(TrialError::PolicyNotFound);
        }
        let acct = match self.key_usage_by_pk[i].1.activation(&ChainId::NEAR) {
            Some(UserAccountId::NEAR(s)) => s.clone(),
            _ => {
                return Err(TrialError::NotActivated);
            },
        };
        let path_pk = match public_key_from_tagged_bytes(signer_pk) {
            Ok(pk) => pk,
            Err(e) => {
                return Err(e);
            },
        };
        let mpc_pk = match public_key_from_tagged_bytes(&self.key_usage_by_pk[i].1.mpc_key) {
            Ok(pk) => pk,
            Err(e) => {
                return Err(e);
            },
        };
        let action = Action::NEAR(
            NearAction {
                method_name: method_name.clone(),
                contract_id: contract_id.clone(),
                gas_attached: gas,
                deposit_attached: deposit,
            },
        );
        proof {
            assert(action == Action::NEAR(
                NearAction {
                    method_name: *method_name,
                    contract_id: *contract_id,
                    gas_attached: gas,
                    deposit_attached: deposit,
                },
            ));
        }
        let mut tx_actions: Vec<crate::near_types::Action> = Vec::new();
        tx_actions.push(
            crate::near_types::Action::FunctionCall(
                Box::new(
                    crate::near_types::FunctionCallAction {
                        method_name: method_name.clone(),
                        args: crate::near_builder::clone_bytes_pub(args),
                        gas,
                        deposit,
                    },
                ),
            ),
        );
        let tx = crate::near_types::NearTransaction {
            signer_id: acct,
            signer_public_key: mpc_pk,
            nonce,
            receiver_id: contract_id.clone(),
            block_hash: crate::near_types::BlockHash(block_hash),
            actions: tx_actions,
        };
        let ghost ku_g = self.key_usage_by_pk@[i as int].1;
        proof {
            assert(tx@.actions =~= near_call_tx(
                tx@.signer_id,
                tagged_pk_view(ku_g.mpc_key@),
                nonce,
                contract_id@,
                block_hash@,
                method_name@,
                args@,
                gas,
                deposit,
            ).actions);
            assert(tx@ == near_call_tx(
                tx@.signer_id,
                tagged_pk_view(ku_g.mpc_key@),
                nonce,
                contract_id@,
                block_hash@,
                method_name@,
                args@,
                gas,
                deposit,
            ));
        }
        if !tx.check_wf() {
            return Err(TrialError::DispatchFailed);
        }
        let trial_id = self.key_usage_by_pk[i].1.trial_id;
        let probe = match self.find_trial(trial_id) {
            Some(td) => admit_probe(td, &self.key_usage_by_pk[i].1, &action, now),
            None => {
                proof {
                    assert(false);
                }
                Err(TrialError::PolicyNotFound)
            },
        };
        match probe {
            Ok(()) => (),
            Err(e) => {
                return Err(e);
            },
        }
        let ghost s0 = self.key_usage_by_pk@;
        let mut pair = self.key_usage_by_pk.remove(i);
        let td_ref = match self.find_trial(pair.1.trial_id) {
            Some(td) => td,
            None => {
                proof {
                    assert(false);
                }
                return Err(TrialError::PolicyNotFound);
            },
        };
        match check_and_record(td_ref, &mut pair.1, &action, now) {
            Ok(()) => (),
            Err(_) => {
                proof {
                    assert(false);
                }
                return Err(TrialError::Overflow);
            },
        }
        let ghost ku2 = pair.1;
        self.key_usage_by_pk.insert(i, pair);
        proof {
            assert(self.key_usage_by_pk@ =~= s0.update(i as int, (s0[i as int].0, ku2)));
            lemma_usage_store_updated(s0, self.key_usage_by_pk@, i as int, ku2);
        }
        let encoded = tx.build_for_signing();
        let digest = hash_payload(encoded.as_slice());
        let req = create_sign_request_from_transaction(digest, &path_pk);
        Ok(req)
    }

    /// Routes a policy-gated action by chain family. Only the native family
    /// is routed here; the other family is rejected so that its actions go
    /// through their own entry point.
    pub fn perform_action(
        &mut self,
        chain: Chain,
        signer_pk: &Vec<u8>,
        contract_id: &String,
        method_name: &String,
        args: &Vec<u8>,
        gas: u64,
        deposit: u128,
        nonce: u64,
        block_hash: [u8; 32],
        now: u64,
    ) -> (r: Result<SignRequest, TrialError>)
        requires
            old(self).wf(),
        ensures
            final(self).wf(),
            final(self).trial_data_by_id == old(self).trial_data_by_id,
            final(self).trial_nonce == old(self).trial_nonce,
            final(self).admin_account == old(self).admin_account,
            final(self).mpc_contract == old(self).mpc_contract,
            match r {
                Ok(req) => {
                    &&& chain is NEAR
                    &&& near_call_outcome(
                        *old(self),
                        signer_pk@,
                        *contract_id,
                        *method_name,
                        *args,
                        gas,
                        deposit,
                        now,
                    ) == Ok::<(), TrialError>(())
                    &&& old(self).spec_usage(signer_pk@) matches Some(ku) && {
                        let action = Action::NEAR(
                            NearAction {
                                method_name: *method_name,
                                contract_id: *contract_id,
                                gas_attached: gas,
                                deposit_attached: deposit,
                            },
                        );
                        let acct = ku.spec_activation(ChainId::NEAR)->Some_0->NEAR_0;
                        &&& final(self).spec_usage(signer_pk@) matches Some(ku2) && {
                            &&& ku2.trial_id == ku.trial_id
                            &&& ku2.mpc_key == ku.mpc_key
                            &&& ku2.account_id_by_chain_id == ku.account_id_by_chain_id
                            &&& ku2.exited == ku.exited
                            &&& ku.usage_stats.recorded(
                                ku2.usage_stats,
                                action.spec_method(),
                                action.spec_contract_label(),
                                now / NANOS_PER_DAY,
                                action.spec_gas(),
                                action.spec_value(),
                            )
                        }
                        &&& forall|pk2: Seq<u8>|
                            pk2 != signer_pk@ ==> final(self).spec_usage(pk2) == old(
                                self,
                            ).spec_usage(pk2)
                        &&& req.payload@ == sha256_of(
                            enc_transaction(
                                near_call_tx(
                                    acct@,
                                    tagged_pk_view(ku.mpc_key@),
                                    nonce,
                                    contract_id@,
                                    block_hash@,
                                    method_name@,
                                    args@,
                                    gas,
                                    deposit,
                                ),
                            ),
                        )
                        &&& req.path@ == pk_text(tagged_pk_view(signer_pk@))
                        &&& req.key_version == 0
                    }
                },
                Err(e) => *final(self) == *old(self) && if chain is NEAR {
                    near_call_outcome(
                        *old(self),
                        signer_pk@,
                        *contract_id,
                        *method_name,
                        *args,
                        gas,
                        deposit,
                        now,
                    ) == Err::<(), TrialError>(e)
                } else {
                    e == TrialError::DispatchFailed
                },
            },
    {
        match chain {
            Chain::NEAR => self.call_near_contract(
                signer_pk,
                contract_id,
                method_name,
                args,
                gas,
                deposit,
                nonce,
                block_hash,
                now,
            ),
            Chain::Ethereum => Err(TrialError::DispatchFailed),
        }
    }
}

/// The exit transaction record, as a view: the user's account attaches the
/// given key with full access, anchored as supplied.
pub open spec fn exit_tx(
    account: Seq<char>,
    signer_key: crate::near_types::PublicKeyView,
    new_key: crate::near_types::PublicKeyView,
    nonce: u64,
    block_hash: Seq<u8>,
) -> NearTransactionView {
    NearTransactionView {
        signer_id: account,
        signer_public_key: signer_key,
        nonce,
        receiver_id: account,
        block_hash,
        actions: seq![
            ActionView::AddKey {
                public_key: new_key,
                access_key: AccessKeyView { nonce: 0, permission: PermissionView::FullAccess },
            },
        ],
    }
}

impl Contract {
    /// Exits the trial: builds the transaction that attaches `public_key`
    /// with full access to the user's account, returns its signing request,
    /// and marks the delegated key exited, so that it never again passes
    /// admission. Fails `AccessDenied` for an unknown or already exited
    /// key, `PolicyNotFound` when the policy is gone, `InvalidAddress` when
    /// either curve-tagged key does not parse, and `DispatchFailed` when
    /// the account name does not fit the layout; failure changes nothing.
    pub fn exit_trial(
        &mut self,
        signer_pk: &Vec<u8>,
        public_key: &Vec<u8>,
        account_id: &String,
        nonce: u64,
        block_hash: [u8; 32],
    ) -> (r: Result<SignRequest, TrialError>)
        requires
            old(self).wf(),
        ensures
            final(self).wf(),
            final(self).trial_data_by_id == old(self).trial_data_by_id,
            final(self).trial_nonce == old(self).trial_nonce,
            final(self).admin_account == old(self).admin_account,
            final(self).mpc_contract == old(self).mpc_contract,
            match r {
                Ok(req) => {
                    &&& old(self).spec_usage(signer_pk@) matches Some(ku) && {
                        &&& !ku.exited
                        &&& old(self).spec_trial(ku.trial_id) is Some
                        &&& tagged_pk_ok(signer_pk@) && tagged_pk_ok(public_key@)
                        &&& crate::near_types::str_len_ok(account_id@)
                        &&& final(self).spec_usage(signer_pk@) matches Some(ku2) && {
                            &&& ku2.trial_id == ku.trial_id
                            &&& ku2.mpc_key == ku.mpc_key
                            &&& ku2.account_id_by_chain_id == ku.account_id_by_chain_id
                            &&& ku2.usage_stats == ku.usage_stats
                            &&& ku2.exited
                        }
                        &&& forall|pk2: Seq<u8>|
                            pk2 != signer_pk@ ==> final(self).spec_usage(pk2) == old(
                                self,
                            ).spec_usage(pk2)
                        &&& req.payload@ == sha256_of(
                            enc_transaction(
                                exit_tx(
                                    account_id@,
                                    tagged_pk_view(signer_pk@),
                                    tagged_pk_view(public_key@),
                                    nonce,
                                    block_hash@,
                                ),
                            ),
                        )
                        &&& req.path@ == pk_text(tagged_pk_view(signer_pk@))
                        &&& req.key_version == 0
                    }
                },
                Err(e) => {
                    &&& *final(self) == *old(self)
                    &&& if old(self).spec_usage(signer_pk@) is None || old(self).spec_usage(
                        signer_pk@,
                    )->Some_0.exited {
                        e == TrialError::AccessDenied
                    } else if old(self).spec_trial(
                        old(self).spec_usage(signer_pk@)->Some_0.trial_id,
                    ) is None {
                        e == TrialError::PolicyNotFound
                    } else if !tagged_pk_ok(signer_pk@) || !tagged_pk_ok(public_key@) {
                        e == TrialError::InvalidAddress
                    } else {
                        e == TrialError::DispatchFailed && !crate::near_types::str_len_ok(
                            account_id@,
                        )
                    }
                },
            },
    {
        let i = match self.find_usage_index(signer_pk) {
            Some(i) => i,
            None => {
                return Err(TrialError::AccessDenied);
            },
        };
        if self.key_usage_by_pk[i].1.exited {
            return Err(TrialError::AccessDenied);
        }
        let trial_exists = matches!(
            self.find_trial(self.key_usage_by_pk[i].1.trial_id),
            Some(_),
        );
        if !trial_exists {
            return Err(TrialError::PolicyNotFound);
        }
        let signer_key = match public_key_from_tagged_bytes(signer_pk) {
            Ok(pk) => pk,
            Err(e) => {
                return Err(e);
            },
        };
        let new_key = match public_key_from_tagged_bytes(public_key) {
            Ok(pk) => pk,
            Err(e) => {
                return Err(e);
            },
        };
        let path_pk = match public_key_from_tagged_bytes(signer_pk) {
            Ok(pk) => pk,
            Err(_) => {
                proof {
                    assert(false);
                }
                return Err(TrialError::InvalidAddress);
            },
        };
        let mut tx_actions: Vec<crate::near_types::Action> = Vec::new();
        tx_actions.push(
            crate::near_types::Action::AddKey(
                Box::new(
                    crate::near_types::AddKeyAction {
                        public_key: new_key,
                        access_key: crate::near_types::AccessKey {
                            nonce: 0,
                            permission: crate::near_types::AccessKeyPermission::FullAccess,
                        },
                    },
                ),
            ),
        );
        let tx = crate::near_types::NearTransaction {
            signer_id: account_id.clone(),
            signer_public_key: signer_key,
            nonce,
            receiver_id: account_id.clone(),
            block_hash: crate::near_types::BlockHash(block_hash),
            actions: tx_actions,
        };
        proof {
            assert(tx@.actions =~= exit_tx(
                account_id@,
                tagged_pk_view(signer_pk@),
                tagged_pk_view(public_key@),
                nonce,
                block_hash@,
            ).actions);
            assert(tx@ == exit_tx(
                account_id@,
                tagged_pk_view(signer_pk@),
                tagged_pk_view(public_key@),
                nonce,
                block_hash@,
            ));
        }
        if !tx.check_wf() {
            return Err(TrialError::DispatchFailed);
        }
        let ghost s0 = self.key_usage_by_pk@;
        let mut pair = self.key_usage_by_pk.remove(i);
        pair.1.exited = true;
        let ghost ku2 = pair.1;
        self.key_usage_by_pk.insert(i, pair);
        proof {
            assert(self.key_usage_by_pk@ =~= s0.update(i as int, (s0[i as int].0, ku2)));
            lemma_usage_store_updated(s0, self.key_usage_by_pk@, i as int, ku2);
        }
        let encoded = tx.build_for_signing();
        let digest = hash_payload(encoded.as_slice());
        Ok(create_sign_request_from_transaction(digest, &path_pk))
    }
}

/// Whether every incoming argument token parses.
pub open spec fn all_tokens_parseable(args: Seq<SerializableToken>) -> bool {
    forall|i: int| 0 <= i < args.len() ==> token_parseable(#[trigger] args[i])
}

/// Whether values parsed from the arguments fit the declared kinds,
/// pairwise.
pub open spec fn parsed_args_match(
    args: Seq<SerializableToken>,
    kinds: Seq<SerializableParamType>,
    tvs: Seq<TokenValue>,
) -> bool {
    &&& tvs.len() == args.len()
    &&& forall|i: int| 0 <= i < args.len() ==> parses_to(#[trigger] args[i], tvs[i])
    &&& tvs.len() == kinds.len()
    &&& forall|i: int| 0 <= i < tvs.len() ==> matches_type(#[trigger] tvs[i], kinds[i])
}

impl Contract {
    /// Performs a policy-gated EVM call: parses the target address and the
    /// argument tokens, checks them against the declared parameter kinds,
    /// admits the action against the signer's trial policy, accounts it,
    /// encodes the call data and the fee-market transaction, and returns
    /// the signing request carrying its Keccak-256 digest and the delegated
    /// key's derivation path. Checks in order: the address parses
    /// (`InvalidAddress`); the key is known and has not exited
    /// (`AccessDenied`); its policy exists (`PolicyNotFound`); the chain is
    /// activated (`NotActivated`); the signer's tagged key parses
    /// (`InvalidAddress`); every token parses (`InvalidHex` or
    /// `InvalidAddress`); the values fit the declared kinds
    /// (`DispatchFailed`); then admission decides. Failure changes nothing.
    pub fn call_evm_contract(
        &mut self,
        signer_pk: &Vec<u8>,
        chain_id: u64,
        contract_address: &String,
        method_name: &String,
        method_params: &Vec<SerializableParam>,
        args: &Vec<SerializableToken>,
        gas_limit: u128,
        value: u128,
        nonce: u64,
        max_fee_per_gas: u128,
        max_priority_fee_per_gas: u128,
        access_list: Vec<AccessListEntry>,
        now: u64,
    ) -> (r: Result<SignRequest, TrialError>)
        requires
            old(self).wf(),
        ensures
            final(self).wf(),
            final(self).trial_data_by_id == old(self).trial_data_by_id,
            final(self).trial_nonce == old(self).trial_nonce,
            final(self).admin_account == old(self).admin_account,
            final(self).mpc_contract == old(self).mpc_contract,
            match r {
                Ok(req) => {
                    &&& parses_as_address(contract_address@)
                    &&& old(self).spec_usage(signer_pk@) matches Some(ku) && {
                        let addr_bytes = address_bytes_of(contract_address@);
                        &&& !ku.exited
                        &&& old(self).spec_trial(ku.trial_id) matches Some(td)
                        &&& ku.spec_activation(ChainId::EVM(chain_id)) is Some
                        &&& tagged_pk_ok(signer_pk@)
                        &&& all_tokens_parseable(args@)
                        &&& all_parsed_match(args@, crate::evm_abi::param_kinds(method_params@))
                        &&& spec_admit_evm(
                            old(self).spec_trial(ku.trial_id)->Some_0,
                            ku.usage_stats,
                            chain_id,
                            *method_name,
                            addr_bytes,
                            gas_limit,
                            value,
                            now,
                        ) == Ok::<(), TrialError>(())
                        &&& exists|tvs: Seq<TokenValue>|
                            {
                                &&& #[trigger] parsed_args_match(
                                    args@,
                                    crate::evm_abi::param_kinds(method_params@),
                                    tvs,
                                )
                                &&& req.payload@ == keccak256_of(
                                    enc_eip1559(
                                        EvmTransactionView {
                                            chain_id,
                                            nonce,
                                            max_priority_fee_per_gas,
                                            max_fee_per_gas,
                                            gas_limit,
                                            to: addr_bytes,
                                            value,
                                            input: call_data(
                                                method_name@,
                                                crate::evm_abi::param_kinds(method_params@),
                                                tvs,
                                            ),
                                            access_list: Seq::new(
                                                access_list@.len(),
                                                |i: int| access_list@[i]@,
                                            ),
                                        },
                                    ),
                                )
                            }
                        &&& final(self).spec_usage(signer_pk@) matches Some(ku2) && {
                            &&& ku2.trial_id == ku.trial_id
                            &&& ku2.mpc_key == ku.mpc_key
                            &&& ku2.account_id_by_chain_id == ku.account_id_by_chain_id
                            &&& ku2.exited == ku.exited
                            &&& ku.usage_stats.recorded(
                                ku2.usage_stats,
                                method_name@,
                                "0x"@ + crate::hexformat::hex_str_of(addr_bytes),
                                now / NANOS_PER_DAY,
                                gas_limit,
                                value,
                            )
                        }
                        &&& forall|pk2: Seq<u8>|
                            pk2 != signer_pk@ ==> final(self).spec_usage(pk2) == old(
                                self,
                            ).spec_usage(pk2)
                        &&& req.path@ == pk_text(tagged_pk_view(signer_pk@))
                        &&& req.key_version == 0
                    }
                },
                Err(e) => {
                    &&& *final(self) == *old(self)
                    &&& if !parses_as_address(contract_address@) {
                        e == TrialError::InvalidAddress
                    } else if old(self).spec_usage(signer_pk@) is None || old(self).spec_usage(
                        signer_pk@,
                    )->Some_0.exited {
                        e == TrialError::AccessDenied
                    } else if old(self).spec_trial(
                        old(self).spec_usage(signer_pk@)->Some_0.trial_id,
                    ) is None {
                        e == TrialError::PolicyNotFound
                    } else if old(self).spec_usage(signer_pk@)->Some_0.spec_activation(
                        ChainId::EVM(chain_id),
                    ) is None {
                        e == TrialError::NotActivated
                    } else if !tagged_pk_ok(signer_pk@) {
                        e == TrialError::InvalidAddress
                    } else if !all_tokens_parseable(args@) {
                        e == TrialError::InvalidHex || e == TrialError::InvalidAddress
                    } else if !all_parsed_match(args@, crate::evm_abi::param_kinds(method_params@)) {
                        e == TrialError::DispatchFailed
                    } else {
                        spec_admit_evm(
                            old(self).spec_trial(
                                old(self).spec_usage(signer_pk@)->Some_0.trial_id,
                            )->Some_0,
                            old(self).spec_usage(signer_pk@)->Some_0.usage_stats,
                            chain_id,
                            *method_name,
                            address_bytes_of(contract_address@),
                            gas_limit,
                            value,
                            now,
                        ) == Err::<(), TrialError>(e)
                    }
                },
            },
    {
        let to_addr = match crate::hexformat::parse_evm_address(contract_address.as_str()) {
            Ok(a) => a,
            Err(e) => {
                return Err(e);
            },
        };
        let i = match self.find_usage_index(signer_pk) {
            Some(i) => i,
            None => {
                return Err(TrialError::AccessDenied);
            },
        };
        if self.key_usage_by_pk[i].1.exited {
            return Err(TrialError::AccessDenied);
        }
        let trial_exists = matches!(
            self.find_trial(self.key_usage_by_pk[i].1.trial_id),
            Some(_),
        );
        if !trial_exists {
            return Err(TrialError::PolicyNotFound);
        }
        let activated = matches!(
            self.key_usage_by_pk[i].1.activation(&ChainId::EVM(chain_id)),
            Some(_),
        );
        if !activated {
            return Err(TrialError::NotActivated);
        }
        let path_pk = match public_key_from_tagged_bytes(signer_pk) {
            Ok(pk) => pk,
            Err(e) => {
                return Err(e);
            },
        };
        let tvs = match crate::evm_tokens::parse_token_list_pub(args) {
            Ok(tvs) => tvs,
            Err(e) => {
                return Err(e);
            },
        };
        if !crate::evm_tokens::tokens_match_params(&tvs, method_params) {
            proof {
                assert forall|j: int| 0 <= j < args@.len() implies (matches_type(
                    #[trigger] tvs@[j],
                    crate::evm_abi::param_kinds(method_params@)[j],
                ) == crate::evm_tokens::parsed_matches_kind(args@[j], crate::evm_abi::param_kinds(method_params@)[j])) by {
                    lemma_parse_match_congruence(args@[j], tvs@[j], crate::evm_abi::param_kinds(method_params@)[j]);
                }
            }
            return Err(TrialError::DispatchFailed);
        }
        let ghost tvs_g = tvs@;
        proof {
            assert forall|j: int| 0 <= j < args@.len() implies crate::evm_tokens::parsed_matches_kind(
                #[trigger] args@[j],
                crate::evm_abi::param_kinds(method_params@)[j],
            ) by {
                lemma_parse_match_congruence(args@[j], tvs@[j], crate::evm_abi::param_kinds(method_params@)[j]);
            }
        }
        let action = Action::EVM(
            EvmAction {
                chain_id,
                method_name: method_name.clone(),
                contract_address: to_addr,
                gas_limit,
                value,
            },
        );
        let trial_id = self.key_usage_by_pk[i].1.trial_id;
        let probe = match self.find_trial(trial_id) {
            Some(td) => admit_probe(td, &self.key_usage_by_pk[i].1, &action, now),
            None => {
                proof {
                    assert(false);
                }
                Err(TrialError::PolicyNotFound)
            },
        };
        proof {
            assert(action->EVM_0.contract_address.bytes() == address_bytes_of(
                contract_address@,
            ));
            lemma_spec_admit_evm_agrees(
                trial_for(self.trial_data_by_id@, trial_id)->Some_0,
                self.key_usage_by_pk@[i as int].1.usage_stats,
                action->EVM_0,
                now,
            );
            assert(action->EVM_0.method_name == *method_name);
        }
        match probe {
            Ok(()) => (),
            Err(e) => {
                return Err(e);
            },
        }
        let input = crate::evm_abi::encode_function_call(method_name, method_params, &tvs);
        let tx = EvmTransaction {
            chain_id,
            nonce,
            max_priority_fee_per_gas,
            max_fee_per_gas,
            gas_limit,
            to: to_addr,
            value,
            input,
            access_list,
        };
        let ghost s0 = self.key_usage_by_pk@;
        let mut pair = self.key_usage_by_pk.remove(i);
        let td_ref = match self.find_trial(pair.1.trial_id) {
            Some(td) => td,
            None => {
                proof {
                    assert(false);
                }
                return Err(TrialError::PolicyNotFound);
            },
        };
        match check_and_record(td_ref, &mut pair.1, &action, now) {
            Ok(()) => (),
            Err(_) => {
                proof {
                    assert(false);
                }
                return Err(TrialError::Overflow);
            },
        }
        let ghost ku2 = pair.1;
        self.key_usage_by_pk.insert(i, pair);
        proof {
            assert(self.key_usage_by_pk@ =~= s0.update(i as int, (s0[i as int].0, ku2)));
            lemma_usage_store_updated(s0, self.key_usage_by_pk@, i as int, ku2);
        }
        let tx_bytes = tx.build_for_signing();
        let digest = crate::digest::keccak256(tx_bytes.as_slice());
        proof {
            assert(parsed_args_match(args@, crate::evm_abi::param_kinds(method_params@), tvs_g));
        }
        Ok(create_sign_request_from_transaction(digest, &path_pk))
    }

    /// The deposit settlement for a storage delta: when storage grew, the
    /// attached deposit must cover the growth at the byte cost and the
    /// excess is returned; when it shrank, the freed bytes' cost is
    /// returned; unchanged storage returns nothing. A product that does not
    /// fit fails `Overflow`; a short deposit fails `InsufficientDeposit`.
    pub fn adjust_deposit(
        &self,
        initial_storage: u64,
        final_storage: u64,
        storage_byte_cost: u128,
        attached_deposit: u128,
    ) -> (r: Result<u128, TrialError>)
        ensures
            match r {
                Ok(refund) => {
                    if final_storage > initial_storage {
                        &&& storage_byte_cost * (final_storage - initial_storage) <= u128::MAX
                        &&& attached_deposit >= storage_byte_cost * (final_storage
                            - initial_storage)
                        &&& refund == attached_deposit - storage_byte_cost * (final_storage
                            - initial_storage)
                    } else if final_storage < initial_storage {
                        &&& storage_byte_cost * (initial_storage - final_storage) <= u128::MAX
                        &&& refund == storage_byte_cost * (initial_storage - final_storage)
                    } else {
                        refund == 0
                    }
                },
                Err(e) => {
                    if final_storage > initial_storage {
                        if storage_byte_cost * (final_storage - initial_storage) > u128::MAX {
                            e == TrialError::Overflow
                        } else {
                            e == TrialError::InsufficientDeposit && attached_deposit
                                < storage_byte_cost * (final_storage - initial_storage)
                        }
                    } else {
                        e == TrialError::Overflow && final_storage < initial_storage
                            && storage_byte_cost * (initial_storage - final_storage) > u128::MAX
                    }
                },
            },
    {
        if final_storage > initial_storage {
            let delta = (final_storage - initial_storage) as u128;
            let required = match storage_byte_cost.checked_mul(delta) {
                Some(x) => x,
                None => {
                    return Err(TrialError::Overflow);
                },
            };
            if attached_deposit < required {
                return Err(TrialError::InsufficientDeposit);
            }
            Ok(attached_deposit - required)
        } else if final_storage < initial_storage {
            let delta = (initial_storage - final_storage) as u128;
            match storage_byte_cost.checked_mul(delta) {
                Some(x) => Ok(x),
                None => Err(TrialError::Overflow),
            }
        } else {
            Ok(0)
        }
    }
}

} // verus!
