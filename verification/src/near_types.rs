//! The native chain's transaction record and its building blocks: keys,
//! signatures, block anchors and the closed set of operation kinds.
//!
//! Each type has a mathematical view; the canonical binary layout is defined
//! over the views in the codec.

use vstd::prelude::*;

use vstd::utf8::encode_utf8;

verus! {

/// Length of a raw key on the first curve family.
pub const ED25519_PUBLIC_KEY_LENGTH: usize = 32;

/// Length of a raw key on the second curve family.
pub const SECP256K1_PUBLIC_KEY_LENGTH: usize = 64;

/// A 64-byte public key on the second curve family.
#[derive(Clone, Debug, PartialEq, Eq)]
pub struct Secp256K1PublicKey(pub [u8; 64]);

/// A 32-byte public key on the first curve family.
#[derive(Clone, Debug, PartialEq, Eq)]
pub struct ED25519PublicKey(pub [u8; 32]);

/// A public key, tagged by its curve.
#[derive(Clone, Debug, PartialEq, Eq)]
pub enum PublicKey {
    ED25519(ED25519PublicKey),
    SECP256K1(Secp256K1PublicKey),
}

/// The view of a public key: its curve and its raw bytes.
pub ghost enum PublicKeyView {
    ED25519(Seq<u8>),
    SECP256K1(Seq<u8>),
}

impl View for PublicKey {
    type V = PublicKeyView;

    open spec fn view(&self) -> PublicKeyView {
        match self {
            PublicKey::ED25519(k) => PublicKeyView::ED25519(k.0@),
            PublicKey::SECP256K1(k) => PublicKeyView::SECP256K1(k.0@),
        }
    }
}

impl PublicKeyView {
    /// The bytes have the curve's length.
    pub open spec fn wf(self) -> bool {
        match self {
            PublicKeyView::ED25519(b) => b.len() == 32,
            PublicKeyView::SECP256K1(b) => b.len() == 64,
        }
    }
}

/// A 64-byte signature on the first curve family, as its two components.
#[derive(Clone, Debug, PartialEq, Eq)]
pub struct ED25519Signature {
    pub r: [u8; 32],
    pub s: [u8; 32],
}

/// A 65-byte signature on the second curve family.
#[derive(Clone, Debug, PartialEq, Eq)]
pub struct Secp256K1Signature(pub [u8; 65]);

/// A signature, tagged by its curve.
#[derive(Clone, Debug, PartialEq, Eq)]
pub enum Signature {
    ED25519(ED25519Signature),
    SECP256K1(Secp256K1Signature),
}

/// The view of a signature: its curve and its raw bytes.
pub ghost enum SignatureView {
    ED25519(Seq<u8>),
    SECP256K1(Seq<u8>),
}

impl View for Signature {
    type V = SignatureView;

    open spec fn view(&self) -> SignatureView {
        match self {
            Signature::ED25519(s) => SignatureView::ED25519(s.r@ + s.s@),
            Signature::SECP256K1(s) => SignatureView::SECP256K1(s.0@),
        }
    }
}

/// The hash of the block the transaction is anchored to.
#[derive(Clone, Debug, PartialEq, Eq)]
pub struct BlockHash(pub [u8; 32]);

impl BlockHash {
    /// The anchor's bytes.
    pub open spec fn bytes(self) -> Seq<u8> {
        self.0@
    }
}

/// Creates a new (sub)account named by the transaction's receiver.
#[derive(Clone, Debug)]
pub struct CreateAccountAction {}

/// Deploys code to the receiver.
#[derive(Clone, Debug)]
pub struct DeployContractAction {
    pub code: Vec<u8>,
}

/// Calls a method on the receiver with arguments, a gas budget and a deposit.
#[derive(Clone, Debug)]
pub struct FunctionCallAction {
    pub method_name: String,
    pub args: Vec<u8>,
    pub gas: u64,
    pub deposit: u128,
}

/// Transfers a deposit to the receiver.
#[derive(Clone, Debug)]
pub struct TransferAction {
    pub deposit: u128,
}

/// Stakes tokens with a validator key.
#[derive(Clone, Debug)]
pub struct StakeAction {
    pub stake: u128,
    pub public_key: PublicKey,
}

/// Access-key rights: scoped to method calls on one receiver, or full.
#[derive(Clone, Debug)]
pub enum AccessKeyPermission {
    FunctionCall(FunctionCallPermission),
    FullAccess,
}

/// Rights to call a set of methods on one receiver with an allowance.
#[derive(Clone, Debug)]
pub struct FunctionCallPermission {
    pub allowance: Option<u128>,
    pub receiver_id: String,
    pub method_names: Vec<String>,
}

/// An access key: its nonce and its permission.
#[derive(Clone, Debug)]
pub struct AccessKey {
    pub nonce: u64,
    pub permission: AccessKeyPermission,
}

/// Attaches an access key to the receiver.
#[derive(Clone, Debug)]
pub struct AddKeyAction {
    pub public_key: PublicKey,
    pub access_key: AccessKey,
}

/// Removes an access key from the receiver.
#[derive(Clone, Debug)]
pub struct DeleteKeyAction {
    pub public_key: PublicKey,
}

/// Deletes the receiver account in favor of a beneficiary.
#[derive(Clone, Debug)]
pub struct DeleteAccountAction {
    pub beneficiary_id: String,
}

/// The closed set of operation kinds a native transaction may carry, in
/// their declared tag order.
#[derive(Clone, Debug)]
pub enum Action {
    CreateAccount(CreateAccountAction),
    DeployContract(DeployContractAction),
    FunctionCall(Box<FunctionCallAction>),
    Transfer(TransferAction),
    Stake(Box<StakeAction>),
    AddKey(Box<AddKeyAction>),
    DeleteKey(Box<DeleteKeyAction>),
    DeleteAccount(DeleteAccountAction),
}

/// The view of a function-call permission.
pub ghost struct FcPermissionView {
    pub allowance: Option<u128>,
    pub receiver_id: Seq<char>,
    pub method_names: Seq<Seq<char>>,
}

/// The view of an access-key permission.
pub ghost enum PermissionView {
    FunctionCall(FcPermissionView),
    FullAccess,
}

/// The view of an access key.
pub ghost struct AccessKeyView {
    pub nonce: u64,
    pub permission: PermissionView,
}

/// The view of an operation.
pub ghost enum ActionView {
    CreateAccount,
    DeployContract(Seq<u8>),
    FunctionCall { method_name: Seq<char>, args: Seq<u8>, gas: u64, deposit: u128 },
    Transfer(u128),
    Stake { stake: u128, public_key: PublicKeyView },
    AddKey { public_key: PublicKeyView, access_key: AccessKeyView },
    DeleteKey(PublicKeyView),
    DeleteAccount(Seq<char>),
}

impl View for FunctionCallPermission {
    type V = FcPermissionView;

    open spec fn view(&self) -> FcPermissionView {
        FcPermissionView {
            allowance: self.allowance,
            receiver_id: self.receiver_id@,
            method_names: Seq::new(
                self.method_names@.len(),
                |i: int| self.method_names@[i]@,
            ),
        }
    }
}

impl View for AccessKeyPermission {
    type V = PermissionView;

    open spec fn view(&self) -> PermissionView {
        match self {
            AccessKeyPermission::FunctionCall(p) => PermissionView::FunctionCall(p@),
            AccessKeyPermission::FullAccess => PermissionView::FullAccess,
        }
    }
}

impl View for AccessKey {
    type V = AccessKeyView;

    open spec fn view(&self) -> AccessKeyView {
        AccessKeyView { nonce: self.nonce, permission: self.permission@ }
    }
}

impl View for Action {
    type V = ActionView;

    open spec fn view(&self) -> ActionView {
        match self {
            Action::CreateAccount(_) => ActionView::CreateAccount,
            Action::DeployContract(a) => ActionView::DeployContract(a.code@),
            Action::FunctionCall(a) => ActionView::FunctionCall {
                method_name: a.method_name@,
                args: a.args@,
                gas: a.gas,
                deposit: a.deposit,
            },
            Action::Transfer(a) => ActionView::Transfer(a.deposit),
            Action::Stake(a) => ActionView::Stake { stake: a.stake, public_key: a.public_key@ },
            Action::AddKey(a) => ActionView::AddKey {
                public_key: a.public_key@,
                access_key: a.access_key@,
            },
            Action::DeleteKey(a) => ActionView::DeleteKey(a.public_key@),
            Action::DeleteAccount(a) => ActionView::DeleteAccount(a.beneficiary_id@),
        }
    }
}

/// Whether a text field fits its length prefix.
pub open spec fn str_len_ok(s: Seq<char>) -> bool {
    encode_utf8(s).len() <= u32::MAX
}

impl FcPermissionView {
    /// Every text field and the method list fit their length prefixes.
    pub open spec fn wf(self) -> bool {
        &&& str_len_ok(self.receiver_id)
        &&& self.method_names.len() <= u32::MAX
        &&& forall|i: int|
            0 <= i < self.method_names.len() ==> str_len_ok(#[trigger] self.method_names[i])
    }
}

impl PermissionView {
    /// Well-formedness of the permission's fields.
    pub open spec fn wf(self) -> bool {
        match self {
            PermissionView::FunctionCall(p) => p.wf(),
            PermissionView::FullAccess => true,
        }
    }
}

impl AccessKeyView {
    /// Well-formedness of the key's permission.
    pub open spec fn wf(self) -> bool {
        self.permission.wf()
    }
}

impl ActionView {
    /// Every variable-length field fits its length prefix and every key has
    /// its curve's length.
    pub open spec fn wf(self) -> bool {
        match self {
            ActionView::CreateAccount => true,
            ActionView::DeployContract(code) => code.len() <= u32::MAX,
            ActionView::FunctionCall { method_name, args, .. } => str_len_ok(method_name)
                && args.len() <= u32::MAX,
            ActionView::Transfer(_) => true,
            ActionView::Stake { public_key, .. } => public_key.wf(),
            ActionView::AddKey { public_key, access_key } => public_key.wf() && access_key.wf(),
            ActionView::DeleteKey(pk) => pk.wf(),
            ActionView::DeleteAccount(b) => str_len_ok(b),
        }
    }
}

/// An unsigned native transaction: who signs, with which key and nonce, the
/// receiver, the block anchor, and the ordered operations.
#[derive(Clone, Debug)]
pub struct NearTransaction {
    pub signer_id: String,
    pub signer_public_key: PublicKey,
    pub nonce: u64,
    pub receiver_id: String,
    pub block_hash: BlockHash,
    pub actions: Vec<Action>,
}

/// The view of an unsigned native transaction.
pub ghost struct NearTransactionView {
    pub signer_id: Seq<char>,
    pub signer_public_key: PublicKeyView,
    pub nonce: u64,
    pub receiver_id: Seq<char>,
    pub block_hash: Seq<u8>,
    pub actions: Seq<ActionView>,
}

impl View for NearTransaction {
    type V = NearTransactionView;

    open spec fn view(&self) -> NearTransactionView {
        NearTransactionView {
            signer_id: self.signer_id@,
            signer_public_key: self.signer_public_key@,
            nonce: self.nonce,
            receiver_id: self.receiver_id@,
            block_hash: self.block_hash.bytes(),
            actions: Seq::new(self.actions@.len(), |i: int| self.actions@[i]@),
        }
    }
}

impl NearTransactionView {
    /// Every field fits its layout: text fields fit their length prefixes,
    /// the key and anchor have their fixed lengths, the operation list fits
    /// its count prefix and every operation is well-formed.
    pub open spec fn wf(self) -> bool {
        &&& str_len_ok(self.signer_id)
        &&& self.signer_public_key.wf()
        &&& str_len_ok(self.receiver_id)
        &&& self.block_hash.len() == 32
        &&& self.actions.len() <= u32::MAX
        &&& forall|i: int| 0 <= i < self.actions.len() ==> (#[trigger] self.actions[i]).wf()
    }
}

/// A native transaction together with its signature.
#[derive(Clone, Debug)]
pub struct SignedTransaction {
    pub transaction: NearTransaction,
    pub signature: Signature,
}

} // verus!
