//! Delegated-key records and their per-chain activation.
//!
//! A delegated key is bound to at most one end-user identity per chain, and
//! the binding is written exactly once: a second activation for the same
//! chain is rejected and leaves the first binding untouched.

use vstd::prelude::*;

use crate::chain::ChainId;
use crate::errors::TrialError;
use crate::hexformat::EvmAddress;
use crate::stats::UsageStats;

verus! {

/// An end-user identity on one chain: a native account name or an EVM
/// address.
#[derive(Clone, Debug)]
pub enum UserAccountId {
    NEAR(String),
    EVM(EvmAddress),
}

/// One delegated key's record: the trial it belongs to, the signer's derived
/// key for it, its per-chain identity bindings, its usage statistics, and
/// whether it has exited the trial.
#[derive(Clone, Debug)]
pub struct KeyUsage {
    pub trial_id: u32,
    pub mpc_key: Vec<u8>,
    pub account_id_by_chain_id: Vec<(ChainId, UserAccountId)>,
    pub usage_stats: UsageStats,
    pub exited: bool,
}

/// A delegated public key together with the signer's derived key for it.
#[derive(Clone, Debug)]
pub struct KeyWithMPC {
    pub public_key: Vec<u8>,
    pub mpc_key: Vec<u8>,
}

/// The identity bound under chain `c`: the first entry for `c`.
pub open spec fn activation_for(s: Seq<(ChainId, UserAccountId)>, c: ChainId) -> Option<
    UserAccountId,
>
    decreases s.len(),
{
    if s.len() == 0 {
        None
    } else if s[0].0 == c {
        Some(s[0].1)
    } else {
        activation_for(s.drop_first(), c)
    }
}

/// Whether chain `c` has an identity bound.
pub open spec fn is_activated(s: Seq<(ChainId, UserAccountId)>, c: ChainId) -> bool {
    activation_for(s, c) is Some
}

/// What activating chain `c` with identity `a` does to the bindings:
/// rejected when the chain is already bound, the binding appended otherwise.
pub open spec fn spec_activate(
    s: Seq<(ChainId, UserAccountId)>,
    c: ChainId,
    a: UserAccountId,
) -> Result<Seq<(ChainId, UserAccountId)>, TrialError> {
    if is_activated(s, c) {
        Err(TrialError::AlreadyActivated)
    } else {
        Ok(s.push((c, a)))
    }
}

/// Appending a binding for a chain not yet bound binds exactly that chain.
pub proof fn lemma_activation_for_push(
    s: Seq<(ChainId, UserAccountId)>,
    x: (ChainId, UserAccountId),
    c2: ChainId,
)
    ensures
        activation_for(s.push(x), c2) == if activation_for(s, c2) is Some {
            activation_for(s, c2)
        } else if c2 == x.0 {
            Some(x.1)
        } else {
            None::<UserAccountId>
        },
    decreases s.len(),
{
    if s.len() == 0 {
        assert(s.push(x)[0] == x);
        assert(s.push(x).drop_first() =~= Seq::<(ChainId, UserAccountId)>::empty());
        if c2 == x.0 {
            assert(activation_for(s.push(x), c2) == Some(x.1));
        } else {
            assert(activation_for(s.push(x), c2) == activation_for(s.push(x).drop_first(), c2));
            assert(activation_for(s.push(x).drop_first(), c2) is None);
            assert(activation_for(s, c2) is None);
        }
    } else {
        assert(s.push(x)[0] == s[0]);
        assert(s.push(x).drop_first() =~= s.drop_first().push(x));
        lemma_activation_for_push(s.drop_first(), x, c2);
        if s[0].0 == c2 {
            assert(activation_for(s.push(x), c2) == Some(s[0].1));
            assert(activation_for(s, c2) == Some(s[0].1));
        } else {
            assert(activation_for(s.push(x), c2) == activation_for(s.drop_first().push(x), c2));
            assert(activation_for(s, c2) == activation_for(s.drop_first(), c2));
        }
    }
}

impl KeyUsage {
    /// At most one binding per chain, and well-formed statistics.
    pub open spec fn wf(self) -> bool {
        &&& forall|i: int, j: int|
            0 <= i < j < self.account_id_by_chain_id@.len()
                ==> self.account_id_by_chain_id@[i].0 != self.account_id_by_chain_id@[j].0
        &&& self.usage_stats.wf()
    }

    /// The identity this key is bound to on `c`, if any.
    pub open spec fn spec_activation(self, c: ChainId) -> Option<UserAccountId> {
        activation_for(self.account_id_by_chain_id@, c)
    }

    /// The identity bound on `chain_id`, if any.
    pub fn activation(&self, chain_id: &ChainId) -> (r: Option<&UserAccountId>)
        ensures
            match r {
                Some(a) => self.spec_activation(*chain_id) == Some(*a),
                None => self.spec_activation(*chain_id) is None,
            },
    {
        proof {
            assert(self.account_id_by_chain_id@.skip(0) =~= self.account_id_by_chain_id@);
        }
        let v = &self.account_id_by_chain_id;
        let mut i: usize = 0;
        while i < v.len()
            invariant
                i <= v.len(),
                v@ == self.account_id_by_chain_id@,
                activation_for(v@, *chain_id) == activation_for(v@.skip(i as int), *chain_id),
            decreases v.len() - i,
        {
            proof {
                assert(v@.skip(i as int)[0] == v@[i as int]);
                assert(v@.skip(i as int).drop_first() =~= v@.skip(i as int + 1));
            }
            if v[i].0 == *chain_id {
                proof {
                    assert(activation_for(v@.skip(i as int), *chain_id) == Some(v@[i as int].1));
                }
                return Some(&v[i].1);
            }
            i += 1;
        }
        proof {
            assert(v@.skip(v@.len() as int) =~= Seq::<(ChainId, UserAccountId)>::empty());
        }
        None
    }

    /// Binds this key to `account` on `chain_id`, exactly once per chain:
    /// fails with `AlreadyActivated`, changing nothing, when a binding for
    /// `chain_id` already exists.
    pub fn activate(&mut self, chain_id: ChainId, account: UserAccountId) -> (r: Result<
        (),
        TrialError,
    >)
        requires
            old(self).wf(),
        ensures
            final(self).wf(),
            final(self).trial_id == old(self).trial_id,
            final(self).mpc_key == old(self).mpc_key,
            final(self).usage_stats == old(self).usage_stats,
            final(self).exited == old(self).exited,
            match spec_activate(old(self).account_id_by_chain_id@, chain_id, account) {
                Ok(s2) => r == Ok::<(), TrialError>(()) && final(self).account_id_by_chain_id@
                    == s2,
                Err(e) => r == Err::<(), TrialError>(e) && *final(self) == *old(self),
            },
    {
        let already = matches!(self.activation(&chain_id), Some(_));
        if already {
            return Err(TrialError::AlreadyActivated);
        }
        let ghost s0 = self.account_id_by_chain_id@;
        self.account_id_by_chain_id.push((chain_id, account));
        proof {
            let s1 = self.account_id_by_chain_id@;
            assert forall|a: int, b: int| 0 <= a < b < s1.len() implies s1[a].0 != s1[b].0 by {
                if b < s0.len() {
                    assert(s1[a] == s0[a] && s1[b] == s0[b]);
                } else {
                    assert(s1[a] == s0[a] && s1[b].0 == chain_id);
                    if s0[a].0 == chain_id {
                        lemma_activation_for_found(s0, a, chain_id);
                    }
                }
            }
        }
        Ok(())
    }
}

/// When some entry binds chain `c`, `activation_for` finds a binding.
pub proof fn lemma_activation_for_found(s: Seq<(ChainId, UserAccountId)>, i: int, c: ChainId)
    requires
        0 <= i < s.len(),
        s[i].0 == c,
    ensures
        activation_for(s, c) is Some,
    decreases i,
{
    if i > 0 && s[0].0 != c {
        lemma_activation_for_found(s.drop_first(), i - 1, c);
    }
}

} // verus!
