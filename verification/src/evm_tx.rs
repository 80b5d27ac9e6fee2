//! The canonical encoding of the EVM family's fee-market transaction: a
//! type byte, then the recursive length-prefixed list of its fields.
//! Scalars are minimal big-endian; the digest over these bytes uses
//! Keccak-256, not the native chain's SHA-256.

use vstd::prelude::*;

use crate::hexformat::EvmAddress;
use crate::numeric::pow256;

verus! {

/// The minimal big-endian bytes of `n`: no leading zero, empty for zero.
pub open spec fn be_min(n: int) -> Seq<u8>
    decreases n,
{
    if n <= 0 {
        Seq::empty()
    } else {
        be_min(n / 256) + seq![(n % 256) as u8]
    }
}

/// A byte string's encoding: itself when it is one small byte; otherwise
/// its length and then its bytes.
pub open spec fn rlp_str(p: Seq<u8>) -> Seq<u8> {
    if p.len() == 1 && p[0] < 0x80 {
        p
    } else if p.len() <= 55 {
        seq![(0x80 + p.len()) as u8] + p
    } else {
        seq![(0xb7 + be_min(p.len() as int).len()) as u8] + be_min(p.len() as int) + p
    }
}

/// A scalar's encoding: its minimal big-endian bytes as a byte string.
pub open spec fn rlp_scalar(n: int) -> Seq<u8> {
    rlp_str(be_min(n))
}

/// A list's encoding: its payload's length and then the payload.
pub open spec fn rlp_list(p: Seq<u8>) -> Seq<u8> {
    if p.len() <= 55 {
        seq![(0xc0 + p.len()) as u8] + p
    } else {
        seq![(0xf7 + be_min(p.len() as int).len()) as u8] + be_min(p.len() as int) + p
    }
}

/// One access-list entry: an address and the storage keys it warms.
#[derive(Clone, Debug)]
pub struct AccessListEntry {
    pub address: EvmAddress,
    pub storage_keys: Vec<[u8; 32]>,
}

/// The view of an access-list entry.
pub ghost struct AccessEntryView {
    pub address: Seq<u8>,
    pub storage_keys: Seq<Seq<u8>>,
}

impl View for AccessListEntry {
    type V = AccessEntryView;

    open spec fn view(&self) -> AccessEntryView {
        AccessEntryView {
            address: self.address.0@,
            storage_keys: Seq::new(self.storage_keys@.len(), |i: int| self.storage_keys@[i]@),
        }
    }
}

/// The storage keys of `s[i..]`, each as a byte string, concatenated.
pub open spec fn keys_payload_from(s: Seq<Seq<u8>>, i: int) -> Seq<u8>
    decreases s.len() - i,
{
    if i < 0 || i >= s.len() {
        Seq::empty()
    } else {
        rlp_str(s[i]) + keys_payload_from(s, i + 1)
    }
}

/// One entry's encoding: the list of its address and its key list.
pub open spec fn access_entry_enc(e: AccessEntryView) -> Seq<u8> {
    rlp_list(rlp_str(e.address) + rlp_list(keys_payload_from(e.storage_keys, 0)))
}

/// The entries of `s[i..]`, concatenated.
pub open spec fn access_payload_from(s: Seq<AccessEntryView>, i: int) -> Seq<u8>
    decreases s.len() - i,
{
    if i < 0 || i >= s.len() {
        Seq::empty()
    } else {
        access_entry_enc(s[i]) + access_payload_from(s, i + 1)
    }
}

/// The unsigned fee-market transaction record of the EVM family.
#[derive(Clone, Debug)]
pub struct EvmTransaction {
    pub chain_id: u64,
    pub nonce: u64,
    pub max_priority_fee_per_gas: u128,
    pub max_fee_per_gas: u128,
    pub gas_limit: u128,
    pub to: EvmAddress,
    pub value: u128,
    pub input: Vec<u8>,
    pub access_list: Vec<AccessListEntry>,
}

/// The view of an unsigned fee-market transaction.
pub ghost struct EvmTransactionView {
    pub chain_id: u64,
    pub nonce: u64,
    pub max_priority_fee_per_gas: u128,
    pub max_fee_per_gas: u128,
    pub gas_limit: u128,
    pub to: Seq<u8>,
    pub value: u128,
    pub input: Seq<u8>,
    pub access_list: Seq<AccessEntryView>,
}

impl View for EvmTransaction {
    type V = EvmTransactionView;

    open spec fn view(&self) -> EvmTransactionView {
        EvmTransactionView {
            chain_id: self.chain_id,
            nonce: self.nonce,
            max_priority_fee_per_gas: self.max_priority_fee_per_gas,
            max_fee_per_gas: self.max_fee_per_gas,
            gas_limit: self.gas_limit,
            to: self.to.0@,
            value: self.value,
            input: self.input@,
            access_list: Seq::new(self.access_list@.len(), |i: int| self.access_list@[i]@),
        }
    }
}

/// The transaction's field list, in declared order.
pub open spec fn eip1559_payload(t: EvmTransactionView) -> Seq<u8> {
    rlp_scalar(t.chain_id as int) + rlp_scalar(t.nonce as int) + rlp_scalar(
        t.max_priority_fee_per_gas as int,
    ) + rlp_scalar(t.max_fee_per_gas as int) + rlp_scalar(t.gas_limit as int) + rlp_str(t.to)
        + rlp_scalar(t.value as int) + rlp_str(t.input) + rlp_list(
        access_payload_from(t.access_list, 0),
    )
}

/// The signable bytes: the fee-market type byte, then the field list.
pub open spec fn enc_eip1559(t: EvmTransactionView) -> Seq<u8> {
    seq![2u8] + rlp_list(eip1559_payload(t))
}

/// A value below 256 to the `k`th has at most `k` minimal bytes.
pub proof fn lemma_be_min_len(n: int, k: nat)
    requires
        0 <= n < pow256(k),
    ensures
        be_min(n).len() <= k,
    decreases k,
{
    if n > 0 {
        assert(k > 0);
        assert(n / 256 < pow256((k - 1) as nat)) by (nonlinear_arith)
            requires
                n < 256 * pow256((k - 1) as nat),
                n >= 0,
        ;
        lemma_be_min_len(n / 256, (k - 1) as nat);
    }
}

/// Every 64-bit value has at most eight minimal bytes.
pub proof fn lemma_be_min_len_u64(x: u128)
    requires
        x <= u64::MAX,
    ensures
        be_min(x as int).len() <= 8,
{
    assert(pow256(0) == 1);
    assert(pow256(1) == 0x100);
    assert(pow256(2) == 0x10000);
    assert(pow256(3) == 0x1000000);
    assert(pow256(4) == 0x100000000);
    assert(pow256(5) == 0x10000000000);
    assert(pow256(6) == 0x1000000000000);
    assert(pow256(7) == 0x100000000000000);
    assert(pow256(8) == 0x10000000000000000);
    lemma_be_min_len(x as int, 8);
}

/// Every 128-bit value has at most sixteen minimal bytes.
pub proof fn lemma_be_min_len_u128(x: u128)
    ensures
        be_min(x as int).len() <= 16,
{
    assert(pow256(0) == 1);
    assert(pow256(1) == 0x100);
    assert(pow256(2) == 0x10000);
    assert(pow256(3) == 0x1000000);
    assert(pow256(4) == 0x100000000);
    assert(pow256(5) == 0x10000000000);
    assert(pow256(6) == 0x1000000000000);
    assert(pow256(7) == 0x100000000000000);
    assert(pow256(8) == 0x10000000000000000);
    assert(pow256(9) == 0x1000000000000000000);
    assert(pow256(10) == 0x100000000000000000000);
    assert(pow256(11) == 0x10000000000000000000000);
    assert(pow256(12) == 0x1000000000000000000000000);
    assert(pow256(13) == 0x100000000000000000000000000);
    assert(pow256(14) == 0x10000000000000000000000000000);
    assert(pow256(15) == 0x1000000000000000000000000000000);
    assert(pow256(16) == 0x100000000000000000000000000000000);
    lemma_be_min_len(x as int, 16);
}

/// Appends the minimal big-endian bytes of `x`.
fn push_be_min(out: &mut Vec<u8>, x: u128)
    ensures
        final(out)@ == old(out)@ + be_min(x as int),
    decreases x,
{
    if x == 0 {
        proof {
            assert(old(out)@ + be_min(0) =~= old(out)@);
        }
    } else {
        push_be_min(out, x / 256);
        out.push((x % 256) as u8);
        proof {
            assert(old(out)@ + be_min(x as int) =~= (old(out)@ + be_min(x as int / 256)).push(
                (x as int % 256) as u8,
            ));
        }
    }
}

/// Appends a slice.
fn push_slice(out: &mut Vec<u8>, s: &[u8])
    ensures
        final(out)@ == old(out)@ + s@,
{
    let ghost base = out@;
    let mut i: usize = 0;
    while i < s.len()
        invariant
            i <= s@.len(),
            out@ == base + s@.take(i as int),
        decreases s@.len() - i,
    {
        out.push(s[i]);
        proof {
            assert(base + s@.take(i as int + 1) =~= (base + s@.take(i as int)).push(s@[i as int]));
        }
        i += 1;
    }
    proof {
        assert(base + s@.take(s@.len() as int) =~= base + s@);
    }
}

/// Appends a byte string's encoding.
fn push_rlp_str(out: &mut Vec<u8>, p: &[u8])
    ensures
        final(out)@ == old(out)@ + rlp_str(p@),
{
    let n = p.len();
    proof {
        assert(n == p@.len());
    }
    if n == 1 && p[0] < 0x80 {
        out.push(p[0]);
        proof {
            assert(final(out)@ =~= old(out)@ + rlp_str(p@));
        }
    } else if n <= 55 {
        out.push(0x80 + n as u8);
        push_slice(out, p);
        proof {
            assert(final(out)@ =~= old(out)@ + rlp_str(p@));
        }
    } else {
        let mut lenbytes: Vec<u8> = Vec::new();
        push_be_min(&mut lenbytes, n as u128);
        proof {
            lemma_be_min_len_u64(n as u128);
        }
        out.push(0xb7 + lenbytes.len() as u8);
        push_slice(out, lenbytes.as_slice());
        push_slice(out, p);
        proof {
            assert(final(out)@ =~= old(out)@ + rlp_str(p@));
        }
    }
}

/// Appends a scalar's encoding.
fn push_rlp_scalar(out: &mut Vec<u8>, x: u128)
    ensures
        final(out)@ == old(out)@ + rlp_scalar(x as int),
{
    let mut bytes: Vec<u8> = Vec::new();
    push_be_min(&mut bytes, x);
    proof {
        lemma_be_min_len_u128(x);
    }
    push_rlp_str(out, bytes.as_slice());
}

/// Appends a list's encoding around an already-encoded payload.
fn push_rlp_list(out: &mut Vec<u8>, p: &Vec<u8>)
    ensures
        final(out)@ == old(out)@ + rlp_list(p@),
{
    if p.len() <= 55 {
        out.push(0xc0 + p.len() as u8);
        push_slice(out, p.as_slice());
        proof {
            assert(final(out)@ =~= old(out)@ + rlp_list(p@));
        }
    } else {
        let mut lenbytes: Vec<u8> = Vec::new();
        push_be_min(&mut lenbytes, p.len() as u128);
        proof {
            lemma_be_min_len_u64(p.len() as u128);
        }
        out.push(0xf7 + lenbytes.len() as u8);
        push_slice(out, lenbytes.as_slice());
        push_slice(out, p.as_slice());
        proof {
            assert(final(out)@ =~= old(out)@ + rlp_list(p@));
        }
    }
}

impl EvmTransaction {
    /// The canonical bytes to digest and sign: the layout applied to this
    /// record; a function of the record's view alone.
    pub fn build_for_signing(&self) -> (r: Vec<u8>)
        ensures
            r@ == enc_eip1559(self@),
    {
        let mut payload: Vec<u8> = Vec::new();
        push_rlp_scalar(&mut payload, self.chain_id as u128);
        push_rlp_scalar(&mut payload, self.nonce as u128);
        push_rlp_scalar(&mut payload, self.max_priority_fee_per_gas);
        push_rlp_scalar(&mut payload, self.max_fee_per_gas);
        push_rlp_scalar(&mut payload, self.gas_limit);
        push_rlp_str(&mut payload, self.to.0.as_slice());
        push_rlp_scalar(&mut payload, self.value);
        push_rlp_str(&mut payload, self.input.as_slice());
        let mut access_payload: Vec<u8> = Vec::new();
        let ghost entries = self@.access_list;
        let mut i: usize = 0;
        while i < self.access_list.len()
            invariant
                i <= self.access_list@.len(),
                entries == self@.access_list,
                entries.len() == self.access_list@.len(),
                forall|j: int| 0 <= j < entries.len() ==> entries[j] == self.access_list@[j]@,
                access_payload@ + access_payload_from(entries, i as int) == access_payload_from(
                    entries,
                    0,
                ),
            decreases self.access_list@.len() - i,
        {
            let ghost before = access_payload@;
            let entry = &self.access_list[i];
            let mut keys_payload: Vec<u8> = Vec::new();
            let ghost keys = entry@.storage_keys;
            let mut j: usize = 0;
            while j < entry.storage_keys.len()
                invariant
                    j <= entry.storage_keys@.len(),
                    keys == entry@.storage_keys,
                    keys.len() == entry.storage_keys@.len(),
                    forall|l: int| 0 <= l < keys.len() ==> keys[l] == entry.storage_keys@[l]@,
                    keys_payload@ + keys_payload_from(keys, j as int) == keys_payload_from(
                        keys,
                        0,
                    ),
                decreases entry.storage_keys@.len() - j,
            {
                let ghost kbefore = keys_payload@;
                push_rlp_str(&mut keys_payload, entry.storage_keys[j].as_slice());
                proof {
                    assert(keys_payload@ + keys_payload_from(keys, j as int + 1) =~= kbefore + (
                    rlp_str(keys[j as int]) + keys_payload_from(keys, j as int + 1)));
                }
                j += 1;
            }
            proof {
                assert(keys_payload_from(keys, keys.len() as int) =~= Seq::<u8>::empty());
                assert(keys_payload@ =~= keys_payload_from(keys, 0));
            }
            let mut entry_payload: Vec<u8> = Vec::new();
            push_rlp_str(&mut entry_payload, entry.address.0.as_slice());
            push_rlp_list(&mut entry_payload, &keys_payload);
            push_rlp_list(&mut access_payload, &entry_payload);
            proof {
                assert(entry_payload@ =~= rlp_str(entries[i as int].address) + rlp_list(
                    keys_payload_from(entries[i as int].storage_keys, 0),
                ));
                assert(access_payload@ + access_payload_from(entries, i as int + 1) =~= before + (
                access_entry_enc(entries[i as int]) + access_payload_from(entries, i as int + 1)));
            }
            i += 1;
        }
        proof {
            assert(access_payload_from(entries, entries.len() as int) =~= Seq::<u8>::empty());
            assert(access_payload@ =~= access_payload_from(entries, 0));
        }
        push_rlp_list(&mut payload, &access_payload);
        let mut out: Vec<u8> = Vec::new();
        out.push(2u8);
        push_rlp_list(&mut out, &payload);
        proof {
            assert(payload@ =~= eip1559_payload(self@));
            assert(out@ =~= enc_eip1559(self@));
        }
        out
    }
}

} // verus!
