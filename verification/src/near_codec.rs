//! The canonical binary layout of native transactions.
//!
//! Every operation kind is a tag byte followed by its fields in declared
//! order; integers are little-endian and fixed-width; variable-length fields
//! carry a 32-bit length prefix. The layout is deterministic: the digest of
//! the encoded bytes, not the structured record, is what gets signed, so
//! identical records must always produce identical bytes. `enc_transaction`
//! is the layout's definition; the encoder produces exactly those bytes and
//! the decoder accepts exactly them.

use vstd::prelude::*;

use vstd::bytes::{spec_u128_to_le_bytes, spec_u32_to_le_bytes, spec_u64_to_le_bytes,
    u128_to_le_bytes, u32_to_le_bytes, u64_to_le_bytes};
use vstd::utf8::encode_utf8;

use crate::near_types::{AccessKey, AccessKeyPermission, AccessKeyView, Action, ActionView,
    FcPermissionView, NearTransaction, NearTransactionView, PermissionView, PublicKey,
    PublicKeyView, Signature, SignatureView, str_len_ok};

verus! {

/// A byte string: its length and then its bytes.
pub open spec fn enc_bytes(b: Seq<u8>) -> Seq<u8> {
    spec_u32_to_le_bytes(b.len() as u32) + b
}

/// A text field: the length of its encoded characters and then those bytes.
pub open spec fn enc_str(s: Seq<char>) -> Seq<u8> {
    enc_bytes(encode_utf8(s))
}

/// A public key: its curve tag and its raw bytes.
pub open spec fn enc_pk(pk: PublicKeyView) -> Seq<u8> {
    match pk {
        PublicKeyView::ED25519(b) => seq![0u8] + b,
        PublicKeyView::SECP256K1(b) => seq![1u8] + b,
    }
}

/// A signature: its curve tag and its raw bytes.
pub open spec fn enc_sig(sig: SignatureView) -> Seq<u8> {
    match sig {
        SignatureView::ED25519(b) => seq![0u8] + b,
        SignatureView::SECP256K1(b) => seq![1u8] + b,
    }
}

/// An optional amount: an absence tag, or a presence tag and the amount.
pub open spec fn enc_opt_u128(o: Option<u128>) -> Seq<u8> {
    match o {
        None => seq![0u8],
        Some(x) => seq![1u8] + spec_u128_to_le_bytes(x),
    }
}

/// Text fields in order, each with its own length prefix.
pub open spec fn enc_str_list(v: Seq<Seq<char>>) -> Seq<u8>
    decreases v.len(),
{
    if v.len() == 0 {
        Seq::empty()
    } else {
        enc_str(v[0]) + enc_str_list(v.drop_first())
    }
}

/// A function-call permission: allowance, receiver, then the method names
/// with their count.
pub open spec fn enc_fcp(p: FcPermissionView) -> Seq<u8> {
    enc_opt_u128(p.allowance) + enc_str(p.receiver_id) + spec_u32_to_le_bytes(
        p.method_names.len() as u32,
    ) + enc_str_list(p.method_names)
}

/// A permission: the scoped variant's tag and fields, or the full-access tag.
pub open spec fn enc_permission(p: PermissionView) -> Seq<u8> {
    match p {
        PermissionView::FunctionCall(f) => seq![0u8] + enc_fcp(f),
        PermissionView::FullAccess => seq![1u8],
    }
}

/// An access key: its nonce and its permission.
pub open spec fn enc_access_key(ak: AccessKeyView) -> Seq<u8> {
    spec_u64_to_le_bytes(ak.nonce) + enc_permission(ak.permission)
}

/// One operation: its tag byte and its fields in declared order.
pub open spec fn enc_action(a: ActionView) -> Seq<u8> {
    match a {
        ActionView::CreateAccount => seq![0u8],
        ActionView::DeployContract(code) => seq![1u8] + enc_bytes(code),
        ActionView::FunctionCall { method_name, args, gas, deposit } => seq![2u8] + enc_str(
            method_name,
        ) + enc_bytes(args) + spec_u64_to_le_bytes(gas) + spec_u128_to_le_bytes(deposit),
        ActionView::Transfer(deposit) => seq![3u8] + spec_u128_to_le_bytes(deposit),
        ActionView::Stake { stake, public_key } => seq![4u8] + spec_u128_to_le_bytes(stake)
            + enc_pk(public_key),
        ActionView::AddKey { public_key, access_key } => seq![5u8] + enc_pk(public_key)
            + enc_access_key(access_key),
        ActionView::DeleteKey(pk) => seq![6u8] + enc_pk(pk),
        ActionView::DeleteAccount(b) => seq![7u8] + enc_str(b),
    }
}

/// Operations in order, without a count.
pub open spec fn enc_action_list(v: Seq<ActionView>) -> Seq<u8>
    decreases v.len(),
{
    if v.len() == 0 {
        Seq::empty()
    } else {
        enc_action(v[0]) + enc_action_list(v.drop_first())
    }
}

/// The unsigned transaction: signer, key, nonce, receiver, block anchor,
/// then the operations with their count.
pub open spec fn enc_transaction(t: NearTransactionView) -> Seq<u8> {
    enc_str(t.signer_id) + enc_pk(t.signer_public_key) + spec_u64_to_le_bytes(t.nonce) + enc_str(
        t.receiver_id,
    ) + t.block_hash + spec_u32_to_le_bytes(t.actions.len() as u32) + enc_action_list(t.actions)
}

/// Appending a text field extends the list's encoding at its end.
pub proof fn lemma_enc_str_list_snoc(v: Seq<Seq<char>>, i: int)
    requires
        0 <= i < v.len(),
    ensures
        enc_str_list(v.take(i + 1)) == enc_str_list(v.take(i)) + enc_str(v[i]),
    decreases i,
{
    if i == 0 {
        assert(v.take(1) =~= seq![v[0]]);
        assert(v.take(1)[0] == v[0]);
        assert(v.take(1).drop_first() =~= Seq::<Seq<char>>::empty());
        assert(v.take(0) =~= Seq::<Seq<char>>::empty());
        assert(enc_str_list(v.take(1).drop_first()) =~= Seq::<u8>::empty());
        assert(enc_str_list(v.take(1)) =~= enc_str(v[0]));
        assert(enc_str_list(v.take(0)) + enc_str(v[0]) =~= enc_str(v[0]));
    } else {
        lemma_enc_str_list_snoc(v.drop_first(), i - 1);
        assert(v.take(i + 1).drop_first() =~= v.drop_first().take(i));
        assert(v.take(i).drop_first() =~= v.drop_first().take(i - 1));
        assert(v.take(i + 1)[0] == v[0]);
        assert(v.take(i)[0] == v[0]);
        assert(v.drop_first()[i - 1] == v[i]);
        assert(enc_str_list(v.take(i + 1)) == enc_str(v[0]) + enc_str_list(v.drop_first().take(i)));
        assert(enc_str_list(v.take(i)) == enc_str(v[0]) + enc_str_list(v.drop_first().take(i - 1)));
        assert((enc_str(v[0]) + enc_str_list(v.drop_first().take(i - 1))) + enc_str(v[i]) =~= enc_str(
            v[0],
        ) + (enc_str_list(v.drop_first().take(i - 1)) + enc_str(v[i])));
    }
}

/// Appending an operation extends the list's encoding at its end.
pub proof fn lemma_enc_action_list_snoc(v: Seq<ActionView>, i: int)
    requires
        0 <= i < v.len(),
    ensures
        enc_action_list(v.take(i + 1)) == enc_action_list(v.take(i)) + enc_action(v[i]),
    decreases i,
{
    if i == 0 {
        assert(v.take(1) =~= seq![v[0]]);
        assert(v.take(1)[0] == v[0]);
        assert(v.take(1).drop_first() =~= Seq::<ActionView>::empty());
        assert(v.take(0) =~= Seq::<ActionView>::empty());
        assert(enc_action_list(v.take(1).drop_first()) =~= Seq::<u8>::empty());
        assert(enc_action_list(v.take(1)) =~= enc_action(v[0]));
        assert(enc_action_list(v.take(0)) + enc_action(v[0]) =~= enc_action(v[0]));
    } else {
        lemma_enc_action_list_snoc(v.drop_first(), i - 1);
        assert(v.take(i + 1).drop_first() =~= v.drop_first().take(i));
        assert(v.take(i).drop_first() =~= v.drop_first().take(i - 1));
        assert(v.take(i + 1)[0] == v[0]);
        assert(v.take(i)[0] == v[0]);
        assert(v.drop_first()[i - 1] == v[i]);
        assert(enc_action_list(v.take(i + 1)) == enc_action(v[0]) + enc_action_list(
            v.drop_first().take(i),
        ));
        assert(enc_action_list(v.take(i)) == enc_action(v[0]) + enc_action_list(
            v.drop_first().take(i - 1),
        ));
        assert((enc_action(v[0]) + enc_action_list(v.drop_first().take(i - 1))) + enc_action(v[i])
            =~= enc_action(v[0]) + (enc_action_list(v.drop_first().take(i - 1)) + enc_action(
            v[i],
        )));
    }
}

/// Appends a slice's bytes.
fn push_slice(out: &mut Vec<u8>, s: &[u8])
    ensures
        final(out)@ == old(out)@ + s@,
{
    let ghost base = out@;
    let mut i: usize = 0;
    while i < s.len()
        invariant
            i <= s@.len(),
            out@ == base + s@.take(i as int),
        decreases s@.len() - i,
    {
        out.push(s[i]);
        proof {
            assert(base + s@.take(i as int + 1) =~= (base + s@.take(i as int)).push(s@[i as int]));
        }
        i += 1;
    }
    proof {
        assert(base + s@.take(s@.len() as int) =~= base + s@);
    }
}

/// Appends a 32-bit little-endian integer.
fn push_u32(out: &mut Vec<u8>, x: u32)
    ensures
        final(out)@ == old(out)@ + spec_u32_to_le_bytes(x),
{
    let mut b = u32_to_le_bytes(x);
    out.append(&mut b);
}

/// Appends a 64-bit little-endian integer.
fn push_u64(out: &mut Vec<u8>, x: u64)
    ensures
        final(out)@ == old(out)@ + spec_u64_to_le_bytes(x),
{
    let mut b = u64_to_le_bytes(x);
    out.append(&mut b);
}

/// Appends a 128-bit little-endian integer.
fn push_u128(out: &mut Vec<u8>, x: u128)
    ensures
        final(out)@ == old(out)@ + spec_u128_to_le_bytes(x),
{
    let mut b = u128_to_le_bytes(x);
    out.append(&mut b);
}

/// Appends a length-prefixed byte string.
fn push_bytes_field(out: &mut Vec<u8>, b: &Vec<u8>)
    requires
        b@.len() <= u32::MAX,
    ensures
        final(out)@ == old(out)@ + enc_bytes(b@),
{
    push_u32(out, b.len() as u32);
    push_slice(out, b.as_slice());
    proof {
        assert(final(out)@ =~= old(out)@ + enc_bytes(b@));
    }
}

/// Appends a length-prefixed text field.
fn push_str_field(out: &mut Vec<u8>, s: &String)
    requires
        str_len_ok(s@),
    ensures
        final(out)@ == old(out)@ + enc_str(s@),
{
    let bytes = s.as_str().as_bytes();
    push_u32(out, bytes.len() as u32);
    push_slice(out, bytes);
    proof {
        assert(final(out)@ =~= old(out)@ + enc_str(s@));
    }
}

/// Appends a curve-tagged public key.
fn push_pk(out: &mut Vec<u8>, pk: &PublicKey)
    ensures
        final(out)@ == old(out)@ + enc_pk(pk@),
{
    match pk {
        PublicKey::ED25519(k) => {
            out.push(0u8);
            push_slice(out, k.0.as_slice());
            proof {
                assert(final(out)@ =~= old(out)@ + enc_pk(pk@));
            }
        },
        PublicKey::SECP256K1(k) => {
            out.push(1u8);
            push_slice(out, k.0.as_slice());
            proof {
                assert(final(out)@ =~= old(out)@ + enc_pk(pk@));
            }
        },
    }
}

/// Appends a curve-tagged signature.
fn push_sig(out: &mut Vec<u8>, sig: &Signature)
    ensures
        final(out)@ == old(out)@ + enc_sig(sig@),
{
    match sig {
        Signature::ED25519(s) => {
            out.push(0u8);
            push_slice(out, s.r.as_slice());
            push_slice(out, s.s.as_slice());
            proof {
                assert(final(out)@ =~= old(out)@ + enc_sig(sig@));
            }
        },
        Signature::SECP256K1(s) => {
            out.push(1u8);
            push_slice(out, s.0.as_slice());
            proof {
                assert(final(out)@ =~= old(out)@ + enc_sig(sig@));
            }
        },
    }
}

/// Appends a tagged optional amount.
fn push_opt_u128(out: &mut Vec<u8>, o: &Option<u128>)
    ensures
        final(out)@ == old(out)@ + enc_opt_u128(*o),
{
    match o {
        None => {
            out.push(0u8);
            proof {
                assert(final(out)@ =~= old(out)@ + enc_opt_u128(*o));
            }
        },
        Some(x) => {
            out.push(1u8);
            push_u128(out, *x);
            proof {
                assert(final(out)@ =~= old(out)@ + enc_opt_u128(*o));
            }
        },
    }
}

/// Appends an access key: nonce, then the tagged permission.
fn push_access_key(out: &mut Vec<u8>, ak: &AccessKey)
    requires
        ak@.wf(),
    ensures
        final(out)@ == old(out)@ + enc_access_key(ak@),
{
    push_u64(out, ak.nonce);
    match &ak.permission {
        AccessKeyPermission::FunctionCall(p) => {
            out.push(0u8);
            push_opt_u128(out, &p.allowance);
            push_str_field(out, &p.receiver_id);
            push_u32(out, p.method_names.len() as u32);
            let ghost names = p@.method_names;
            let ghost base = out@;
            let mut i: usize = 0;
            while i < p.method_names.len()
                invariant
                    i <= p.method_names@.len(),
                    names == p@.method_names,
                    names.len() == p.method_names@.len(),
                    forall|j: int| 0 <= j < names.len() ==> names[j] == p.method_names@[j]@,
                    forall|j: int| 0 <= j < names.len() ==> str_len_ok(#[trigger] names[j]),
                    out@ == base + enc_str_list(names.take(i as int)),
                decreases p.method_names@.len() - i,
            {
                proof {
                    assert(names[i as int] == p.method_names@[i as int]@);
                }
                push_str_field(out, &p.method_names[i]);
                proof {
                    lemma_enc_str_list_snoc(names, i as int);
                    assert(base + enc_str_list(names.take(i as int + 1)) =~= (base + enc_str_list(
                        names.take(i as int),
                    )) + enc_str(names[i as int]));
                }
                i += 1;
            }
            proof {
                assert(names.take(names.len() as int) =~= names);
                assert(final(out)@ =~= old(out)@ + enc_access_key(ak@));
            }
        },
        AccessKeyPermission::FullAccess => {
            out.push(1u8);
            proof {
                assert(final(out)@ =~= old(out)@ + enc_access_key(ak@));
            }
        },
    }
}

/// Appends one tagged operation.
fn push_action(out: &mut Vec<u8>, a: &Action)
    requires
        a@.wf(),
    ensures
        final(out)@ == old(out)@ + enc_action(a@),
{
    match a {
        Action::CreateAccount(_) => {
            out.push(0u8);
            proof {
                assert(final(out)@ =~= old(out)@ + enc_action(a@));
            }
        },
        Action::DeployContract(d) => {
            out.push(1u8);
            push_bytes_field(out, &d.code);
            proof {
                assert(final(out)@ =~= old(out)@ + enc_action(a@));
            }
        },
        Action::FunctionCall(f) => {
            out.push(2u8);
            push_str_field(out, &f.method_name);
            push_bytes_field(out, &f.args);
            push_u64(out, f.gas);
            push_u128(out, f.deposit);
            proof {
                assert(final(out)@ =~= old(out)@ + enc_action(a@));
            }
        },
        Action::Transfer(t) => {
            out.push(3u8);
            push_u128(out, t.deposit);
            proof {
                assert(final(out)@ =~= old(out)@ + enc_action(a@));
            }
        },
        Action::Stake(s) => {
            out.push(4u8);
            push_u128(out, s.stake);
            push_pk(out, &s.public_key);
            proof {
                assert(final(out)@ =~= old(out)@ + enc_action(a@));
            }
        },
        Action::AddKey(k) => {
            out.push(5u8);
            push_pk(out, &k.public_key);
            push_access_key(out, &k.access_key);
            proof {
                assert(final(out)@ =~= old(out)@ + enc_action(a@));
            }
        },
        Action::DeleteKey(k) => {
            out.push(6u8);
            push_pk(out, &k.public_key);
            proof {
                assert(final(out)@ =~= old(out)@ + enc_action(a@));
            }
        },
        Action::DeleteAccount(d) => {
            out.push(7u8);
            push_str_field(out, &d.beneficiary_id);
            proof {
                assert(final(out)@ =~= old(out)@ + enc_action(a@));
            }
        },
    }
}

/// Whether a text field fits its length prefix.
fn check_str_len(s: &String) -> (r: bool)
    ensures
        r == str_len_ok(s@),
{
    s.as_str().as_bytes().len() as u64 <= u32::MAX as u64
}

/// Whether one operation is well-formed for encoding.
pub fn check_action_wf(a: &Action) -> (r: bool)
    ensures
        r == a@.wf(),
{
    match a {
        Action::CreateAccount(_) => true,
        Action::DeployContract(d) => d.code.len() as u64 <= u32::MAX as u64,
        Action::FunctionCall(f) => check_str_len(&f.method_name) && f.args.len() as u64
            <= u32::MAX as u64,
        Action::Transfer(_) => true,
        Action::Stake(_) => true,
        Action::AddKey(k) => match &k.access_key.permission {
            AccessKeyPermission::FunctionCall(p) => {
                if !check_str_len(&p.receiver_id) {
                    return false;
                }
                if p.method_names.len() as u64 > u32::MAX as u64 {
                    return false;
                }
                let mut i: usize = 0;
                while i < p.method_names.len()
                    invariant
                        a@ matches ActionView::AddKey { access_key, .. } && access_key.permission
                            matches PermissionView::FunctionCall(f) && f.method_names == p@
                            .method_names,
                        str_len_ok(p@.receiver_id),
                        p@.method_names.len() <= u32::MAX,
                        i <= p.method_names@.len(),
                        p@.method_names.len() == p.method_names@.len(),
                        forall|j: int|
                            0 <= j < p@.method_names.len() ==> #[trigger] p@.method_names[j]
                                == p.method_names@[j]@,
                        forall|j: int|
                            0 <= j < i ==> str_len_ok(#[trigger] p@.method_names[j]),
                    decreases p.method_names@.len() - i,
                {
                    if !check_str_len(&p.method_names[i]) {
                        proof {
                            assert(p@.method_names[i as int] == p.method_names@[i as int]@);
                        }
                        return false;
                    }
                    i += 1;
                }
                true
            },
            AccessKeyPermission::FullAccess => true,
        },
        Action::DeleteKey(_) => true,
        Action::DeleteAccount(d) => check_str_len(&d.beneficiary_id),
    }
}

impl NearTransaction {
    /// Whether this record fits the layout, so that it can be encoded.
    pub fn check_wf(&self) -> (r: bool)
        ensures
            r == self@.wf(),
    {
        if !check_str_len(&self.signer_id) {
            return false;
        }
        if !check_str_len(&self.receiver_id) {
            return false;
        }
        if self.actions.len() as u64 > u32::MAX as u64 {
            return false;
        }
        let mut i: usize = 0;
        while i < self.actions.len()
            invariant
                i <= self.actions@.len(),
                str_len_ok(self.signer_id@),
                str_len_ok(self.receiver_id@),
                self.actions@.len() <= u32::MAX,
                forall|j: int| 0 <= j < i ==> (#[trigger] self.actions@[j]@).wf(),
            decreases self.actions@.len() - i,
        {
            if !check_action_wf(&self.actions[i]) {
                proof {
                    assert(self@.actions[i as int] == self.actions@[i as int]@);
                }
                return false;
            }
            i += 1;
        }
        proof {
            assert forall|j: int| 0 <= j < self@.actions.len() implies (
            #[trigger] self@.actions[j]).wf() by {
                assert(self@.actions[j] == self.actions@[j]@);
            }
        }
        true
    }

    /// The canonical bytes to digest and sign: the layout applied to this
    /// record. Identical records give identical bytes, because the result
    /// is a function of the record's view alone.
    pub fn build_for_signing(&self) -> (r: Vec<u8>)
        requires
            self@.wf(),
        ensures
            r@ == enc_transaction(self@),
    {
        let mut out: Vec<u8> = Vec::new();
        push_str_field(&mut out, &self.signer_id);
        push_pk(&mut out, &self.signer_public_key);
        push_u64(&mut out, self.nonce);
        push_str_field(&mut out, &self.receiver_id);
        push_slice(&mut out, self.block_hash.0.as_slice());
        push_u32(&mut out, self.actions.len() as u32);
        let ghost acts = self@.actions;
        let ghost base = out@;
        let mut i: usize = 0;
        while i < self.actions.len()
            invariant
                i <= self.actions@.len(),
                acts == self@.actions,
                acts.len() == self.actions@.len(),
                forall|j: int| 0 <= j < acts.len() ==> acts[j] == self.actions@[j]@,
                forall|j: int| 0 <= j < acts.len() ==> (#[trigger] acts[j]).wf(),
                out@ == base + enc_action_list(acts.take(i as int)),
            decreases self.actions@.len() - i,
        {
            proof {
                assert(acts[i as int] == self.actions@[i as int]@);
            }
            push_action(&mut out, &self.actions[i]);
            proof {
                lemma_enc_action_list_snoc(acts, i as int);
                assert(base + enc_action_list(acts.take(i as int + 1)) =~= (base
                    + enc_action_list(acts.take(i as int))) + enc_action(acts[i as int]));
            }
            i += 1;
        }
        proof {
            assert(acts.take(acts.len() as int) =~= acts);
            assert(out@ =~= enc_transaction(self@));
        }
        out
    }

    /// The canonical bytes of the signed record: the unsigned layout
    /// followed by the tagged signature.
    pub fn build_with_signature(&self, signature: Signature) -> (r: Vec<u8>)
        requires
            self@.wf(),
        ensures
            r@ == enc_transaction(self@) + enc_sig(signature@),
    {
        let mut out = self.build_for_signing();
        push_sig(&mut out, &signature);
        out
    }
}

} // verus!
