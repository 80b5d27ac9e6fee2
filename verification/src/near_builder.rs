//! A fluent builder for native transactions: each field set once, then
//! assembled. Assembly yields the record only when every field was set.

use vstd::prelude::*;

use crate::near_types::{Action, BlockHash, NearTransaction, PublicKey};

verus! {

/// Assembles a transaction record of type `T` from collected fields.
pub trait TxBuilder<T> {
    /// The assembled record, when every field was set.
    fn build(&self) -> Option<T>;
}

/// A builder that can start at an empty state, with no field set.
pub trait StartBuilder: Sized {
    /// Whether no field has been set yet.
    spec fn is_unset(&self) -> bool;

    /// The empty builder.
    fn empty() -> (r: Self)
        ensures
            r.is_unset(),
    ;
}

/// The entry point for builders: starts any builder at its empty state.
pub struct TransactionBuilder;

impl TransactionBuilder {
    /// A fresh builder with no field set.
    pub fn new<T: StartBuilder>() -> (r: T)
        ensures
            r.is_unset(),
    {
        T::empty()
    }
}

/// Collects the fields of a native transaction.
#[derive(Debug)]
pub struct NearTransactionBuilder {
    pub signer_id: Option<String>,
    pub signer_public_key: Option<PublicKey>,
    pub nonce: Option<u64>,
    pub receiver_id: Option<String>,
    pub block_hash: Option<BlockHash>,
    pub actions: Option<Vec<Action>>,
}

impl StartBuilder for NearTransactionBuilder {
    /// No field has been set yet.
    open spec fn is_unset(&self) -> bool {
        &&& self.signer_id is None
        &&& self.signer_public_key is None
        &&& self.nonce is None
        &&& self.receiver_id is None
        &&& self.block_hash is None
        &&& self.actions is None
    }

    /// The empty builder.
    fn empty() -> (r: Self) {
        NearTransactionBuilder {
            signer_id: None,
            signer_public_key: None,
            nonce: None,
            receiver_id: None,
            block_hash: None,
            actions: None,
        }
    }
}

impl Default for NearTransactionBuilder {
    /// The empty builder.
    fn default() -> (r: Self)
        ensures
            r.is_unset(),
    {
        NearTransactionBuilder {
            signer_id: None,
            signer_public_key: None,
            nonce: None,
            receiver_id: None,
            block_hash: None,
            actions: None,
        }
    }
}

impl NearTransactionBuilder {
    /// Sets who signs.
    pub fn signer_id(self, signer_id: String) -> (r: Self)
        ensures
            r == (Self { signer_id: Some(signer_id), ..self }),
    {
        Self { signer_id: Some(signer_id), ..self }
    }

    /// Sets the signing key.
    pub fn signer_public_key(self, signer_public_key: PublicKey) -> (r: Self)
        ensures
            r == (Self { signer_public_key: Some(signer_public_key), ..self }),
    {
        Self { signer_public_key: Some(signer_public_key), ..self }
    }

    /// Sets the nonce.
    pub fn nonce(self, nonce: u64) -> (r: Self)
        ensures
            r == (Self { nonce: Some(nonce), ..self }),
    {
        Self { nonce: Some(nonce), ..self }
    }

    /// Sets the receiver.
    pub fn receiver_id(self, receiver_id: String) -> (r: Self)
        ensures
            r == (Self { receiver_id: Some(receiver_id), ..self }),
    {
        Self { receiver_id: Some(receiver_id), ..self }
    }

    /// Sets the block anchor.
    pub fn block_hash(self, block_hash: BlockHash) -> (r: Self)
        ensures
            r == (Self { block_hash: Some(block_hash), ..self }),
    {
        Self { block_hash: Some(block_hash), ..self }
    }

    /// Sets the operations.
    pub fn actions(self, actions: Vec<Action>) -> (r: Self)
        ensures
            r == (Self { actions: Some(actions), ..self }),
    {
        Self { actions: Some(actions), ..self }
    }
}

impl TxBuilder<NearTransaction> for NearTransactionBuilder {
    /// The transaction, exactly when every field was set.
    fn build(&self) -> (r: Option<NearTransaction>)
        ensures
            match r {
                Some(tx) => {
                    &&& self.signer_id matches Some(x) && tx@.signer_id == x@
                    &&& self.signer_public_key matches Some(k) && tx@.signer_public_key == k@
                    &&& self.nonce == Some(tx.nonce)
                    &&& self.receiver_id matches Some(x) && tx@.receiver_id == x@
                    &&& self.block_hash matches Some(b) && tx@.block_hash == b.bytes()
                    &&& self.actions matches Some(a) && tx@.actions == Seq::new(
                        a@.len(),
                        |i: int| a@[i]@,
                    )
                },
                None => self.signer_id is None || self.signer_public_key is None || self.nonce
                    is None || self.receiver_id is None || self.block_hash is None || self.actions
                    is None,
            },
    {
        match (
            &self.signer_id,
            &self.signer_public_key,
            &self.nonce,
            &self.receiver_id,
            &self.block_hash,
            &self.actions,
        ) {
            (
                Some(signer_id),
                Some(signer_public_key),
                Some(nonce),
                Some(receiver_id),
                Some(block_hash),
                Some(actions),
            ) => {
                let tx = NearTransaction {
                    signer_id: clone_string(signer_id),
                    signer_public_key: clone_public_key(signer_public_key),
                    nonce: *nonce,
                    receiver_id: clone_string(receiver_id),
                    block_hash: BlockHash(block_hash.0),
                    actions: clone_actions(actions),
                };
                proof {
                    let a = self.actions->Some_0;
                    assert(tx@.actions =~= Seq::new(a@.len(), |i: int| a@[i]@));
                }
                Some(tx)
            },
            _ => None,
        }
    }
}

/// Copies a string.
fn clone_string(s: &String) -> (r: String)
    ensures
        r == *s,
{
    s.clone()
}

/// Copies a public key.
fn clone_public_key(pk: &PublicKey) -> (r: PublicKey)
    ensures
        r == *pk,
{
    match pk {
        PublicKey::ED25519(k) => PublicKey::ED25519(crate::near_types::ED25519PublicKey(k.0)),
        PublicKey::SECP256K1(k) => PublicKey::SECP256K1(
            crate::near_types::Secp256K1PublicKey(k.0),
        ),
    }
}

/// Copies an operation list, element views preserved.
fn clone_actions(v: &Vec<Action>) -> (r: Vec<Action>)
    ensures
        r@.len() == v@.len(),
        forall|i: int| 0 <= i < v@.len() ==> (#[trigger] r@[i])@ == v@[i]@,
{
    let mut out: Vec<Action> = Vec::new();
    let mut i: usize = 0;
    while i < v.len()
        invariant
            i <= v@.len(),
            out@.len() == i,
            forall|j: int| 0 <= j < i ==> (#[trigger] out@[j])@ == v@[j]@,
        decreases v@.len() - i,
    {
        out.push(clone_action(&v[i]));
        i += 1;
    }
    out
}

/// Copies one operation, view preserved.
fn clone_action(a: &Action) -> (r: Action)
    ensures
        r@ == a@,
{
    match a {
        Action::CreateAccount(_) => Action::CreateAccount(crate::near_types::CreateAccountAction {
        }),
        Action::DeployContract(d) => Action::DeployContract(
            crate::near_types::DeployContractAction { code: clone_bytes(&d.code) },
        ),
        Action::FunctionCall(f) => Action::FunctionCall(
            Box::new(
                crate::near_types::FunctionCallAction {
                    method_name: clone_string(&f.method_name),
                    args: clone_bytes(&f.args),
                    gas: f.gas,
                    deposit: f.deposit,
                },
            ),
        ),
        Action::Transfer(t) => Action::Transfer(
            crate::near_types::TransferAction { deposit: t.deposit },
        ),
        Action::Stake(st) => Action::Stake(
            Box::new(
                crate::near_types::StakeAction {
                    stake: st.stake,
                    public_key: clone_public_key(&st.public_key),
                },
            ),
        ),
        Action::AddKey(k) => Action::AddKey(
            Box::new(
                crate::near_types::AddKeyAction {
                    public_key: clone_public_key(&k.public_key),
                    access_key: crate::near_types::AccessKey {
                        nonce: k.access_key.nonce,
                        permission: clone_permission(&k.access_key.permission),
                    },
                },
            ),
        ),
        Action::DeleteKey(k) => Action::DeleteKey(
            Box::new(
                crate::near_types::DeleteKeyAction {
                    public_key: clone_public_key(&k.public_key),
                },
            ),
        ),
        Action::DeleteAccount(d) => Action::DeleteAccount(
            crate::near_types::DeleteAccountAction {
                beneficiary_id: clone_string(&d.beneficiary_id),
            },
        ),
    }
}

/// Copies a byte vector.
fn clone_bytes(v: &Vec<u8>) -> (r: Vec<u8>)
    ensures
        r@ == v@,
{
    let mut out: Vec<u8> = Vec::new();
    let mut i: usize = 0;
    while i < v.len()
        invariant
            i <= v@.len(),
            out@ =~= v@.take(i as int),
        decreases v@.len() - i,
    {
        out.push(v[i]);
        i += 1;
    }
    proof {
        assert(out@ =~= v@);
    }
    out
}

/// Copies an access-key permission.
fn clone_permission(p: &crate::near_types::AccessKeyPermission) -> (r:
    crate::near_types::AccessKeyPermission)
    ensures
        r@ == p@,
{
    match p {
        crate::near_types::AccessKeyPermission::FullAccess => {
            crate::near_types::AccessKeyPermission::FullAccess
        },
        crate::near_types::AccessKeyPermission::FunctionCall(f) => {
            crate::near_types::AccessKeyPermission::FunctionCall(
                crate::near_types::FunctionCallPermission {
                    allowance: f.allowance,
                    receiver_id: clone_string(&f.receiver_id),
                    method_names: clone_strings(&f.method_names),
                },
            )
        },
    }
}

/// Copies a byte vector.
pub fn clone_bytes_pub(v: &Vec<u8>) -> (r: Vec<u8>)
    ensures
        r@ == v@,
{
    clone_bytes(v)
}

/// Copies a string list.
pub fn clone_strings(v: &Vec<String>) -> (r: Vec<String>)
    ensures
        r@ == v@,
{
    let mut out: Vec<String> = Vec::new();
    let mut i: usize = 0;
    while i < v.len()
        invariant
            i <= v@.len(),
            out@ =~= v@.take(i as int),
        decreases v@.len() - i,
    {
        out.push(v[i].clone());
        i += 1;
    }
    proof {
        assert(out@ =~= v@);
    }
    out
}

} // verus!
