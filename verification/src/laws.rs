//! The engine's stated laws, each proved once and for all inputs.

use vstd::prelude::*;

use crate::admission::{spec_admit, spec_action_contract_ok, spec_action_gas_ok,
    spec_action_method_ok, spec_action_value_ok, Action, NANOS_PER_DAY};
use crate::chain::ChainId;
use crate::errors::TrialError;
use crate::evm_abi::{abi_enc, abi_enc_list_from, call_data, head_size_from, head_tail,
    heads_from, is_dynamic, tails_from};
use crate::evm_tokens::{parses_to, SerializableParamType, SerializableToken, TokenValue};
use crate::near_codec::enc_transaction;
use crate::near_decode::lemma_transaction_round_trip;
use crate::near_types::NearTransactionView;
use crate::key_usage::{activation_for, is_activated, lemma_activation_for_push, spec_activate,
    UserAccountId};
use crate::policy::{family_matches, TrialData};
use crate::stats::UsageStats;

verus! {

/// Admission is exact: an action is admitted precisely when the trial has
/// not expired, its chain has configured constraints of the action's
/// family, the method and the target are allowlisted, the gas and value
/// ceilings admit it, the accounting step fits every accumulator, and the
/// transaction ceiling is not yet reached.
pub proof fn lemma_admission_exact(trial: TrialData, stats: UsageStats, action: Action, now: u64)
    ensures
        spec_admit(trial, stats, action, now) is Ok <==> {
            &&& !trial.spec_has_expired(now)
            &&& trial.spec_constraints(action.spec_chain()) matches Some(k) && {
                &&& family_matches(action.spec_chain(), k)
                &&& spec_action_method_ok(k, action)
                &&& spec_action_contract_ok(k, action)
                &&& spec_action_gas_ok(k, action)
                &&& spec_action_value_ok(k, action)
            }
            &&& stats.can_record(
                action.spec_method(),
                action.spec_contract_label(),
                now / NANOS_PER_DAY,
                action.spec_gas(),
                action.spec_value(),
            )
            &&& trial.spec_within_transaction_limit(stats.total_interactions)
        },
{
}

/// Activation is idempotent-once: after a chain is bound, binding it again
/// is rejected as already activated, and the first binding is untouched.
pub proof fn lemma_activation_idempotent(
    s: Seq<(ChainId, UserAccountId)>,
    c: ChainId,
    x: UserAccountId,
    y: UserAccountId,
)
    requires
        !is_activated(s, c),
    ensures
        spec_activate(s, c, x) == Ok::<Seq<(ChainId, UserAccountId)>, TrialError>(s.push((c, x))),
        spec_activate(s.push((c, x)), c, y) == Err::<Seq<(ChainId, UserAccountId)>, TrialError>(
            TrialError::AlreadyActivated,
        ),
        activation_for(s.push((c, x)), c) == Some(x),
{
    lemma_activation_for_push(s, (c, x), c);
}

/// The interaction total never decreases, and an accepted action raises it
/// by exactly one: `check_and_record` either records (this relation) or
/// leaves the statistics untouched.
pub proof fn lemma_interactions_monotonic(
    before: UsageStats,
    after: UsageStats,
    method: Seq<char>,
    contract: Seq<char>,
    day: u64,
    gas: u128,
    value: u128,
)
    requires
        before.recorded(after, method, contract, day, gas, value),
    ensures
        after.total_interactions == before.total_interactions + 1,
        after.total_interactions >= before.total_interactions,
        after.gas_used >= before.gas_used,
        after.deposit_used >= before.deposit_used,
{
}

/// Two values parsed from the same wire token have the same dynamic shape.
proof fn lemma_is_dynamic_congruent(st: SerializableToken, tv1: TokenValue, tv2: TokenValue)
    requires
        parses_to(st, tv1),
        parses_to(st, tv2),
    ensures
        is_dynamic(tv1) == is_dynamic(tv2),
    decreases st,
{
    match (st, tv1, tv2) {
        (
            SerializableToken::FixedArray(va),
            TokenValue::FixedArray(v1),
            TokenValue::FixedArray(v2),
        ) => {
            assert forall|i: int| 0 <= i < v1@.len() implies is_dynamic(#[trigger] v1@[i])
                == is_dynamic(v2@[i]) by {
                assert(parses_to(va@[i], v1@[i]));
                assert(parses_to(va@[i], v2@[i]));
                lemma_is_dynamic_congruent(va@[i], v1@[i], v2@[i]);
            }
            if exists|i: int| 0 <= i < v1@.len() && is_dynamic(#[trigger] v1@[i]) {
                let w = choose|i: int| 0 <= i < v1@.len() && is_dynamic(#[trigger] v1@[i]);
                assert(is_dynamic(v2@[w]));
            }
            if exists|i: int| 0 <= i < v2@.len() && is_dynamic(#[trigger] v2@[i]) {
                let w = choose|i: int| 0 <= i < v2@.len() && is_dynamic(#[trigger] v2@[i]);
                assert(is_dynamic(v1@[w]));
            }
        },
        (SerializableToken::Tuple(va), TokenValue::Tuple(v1), TokenValue::Tuple(v2)) => {
            assert forall|i: int| 0 <= i < v1@.len() implies is_dynamic(#[trigger] v1@[i])
                == is_dynamic(v2@[i]) by {
                assert(parses_to(va@[i], v1@[i]));
                assert(parses_to(va@[i], v2@[i]));
                lemma_is_dynamic_congruent(va@[i], v1@[i], v2@[i]);
            }
            if exists|i: int| 0 <= i < v1@.len() && is_dynamic(#[trigger] v1@[i]) {
                let w = choose|i: int| 0 <= i < v1@.len() && is_dynamic(#[trigger] v1@[i]);
                assert(is_dynamic(v2@[w]));
            }
            if exists|i: int| 0 <= i < v2@.len() && is_dynamic(#[trigger] v2@[i]) {
                let w = choose|i: int| 0 <= i < v2@.len() && is_dynamic(#[trigger] v2@[i]);
                assert(is_dynamic(v1@[w]));
            }
        },
        _ => {},
    }
}

/// The lists of two values parsed from the same wire list encode alike,
/// from position `i` on.
proof fn lemma_enc_list_congruent(
    va: Seq<SerializableToken>,
    v1: Seq<TokenValue>,
    v2: Seq<TokenValue>,
    i: int,
)
    requires
        v1.len() == va.len(),
        v2.len() == va.len(),
        forall|j: int| 0 <= j < va.len() ==> parses_to(#[trigger] va[j], v1[j]),
        forall|j: int| 0 <= j < va.len() ==> parses_to(#[trigger] va[j], v2[j]),
    ensures
        abi_enc_list_from(v1, i) == abi_enc_list_from(v2, i),
        head_size_from(v1, i) == head_size_from(v2, i),
        tails_from(v1, i) == tails_from(v2, i),
        forall|off: int| heads_from(v1, i, off) == #[trigger] heads_from(v2, i, off),
    decreases va, va.len() - i,
{
    if 0 <= i < va.len() {
        lemma_abi_enc_congruent(va[i], v1[i], v2[i]);
        lemma_is_dynamic_congruent(va[i], v1[i], v2[i]);
        lemma_enc_list_congruent(va, v1, v2, i + 1);
        assert forall|off: int| heads_from(v1, i, off) == #[trigger] heads_from(
            v2,
            i,
            off,
        ) by {
            assert(abi_enc(v1[i]) == abi_enc(v2[i]));
            assert(heads_from(v1, i + 1, off) == heads_from(v2, i + 1, off));
            assert(heads_from(v1, i + 1, off + abi_enc(v1[i]).len()) == heads_from(
                v2,
                i + 1,
                off + abi_enc(v1[i]).len(),
            ));
        }
    }
}

/// Two values parsed from the same wire token encode to identical bytes:
/// the canonical encoding of an EVM call is a function of the call as it
/// arrived, so encoding the same logical call twice is byte-identical.
pub proof fn lemma_abi_enc_congruent(st: SerializableToken, tv1: TokenValue, tv2: TokenValue)
    requires
        parses_to(st, tv1),
        parses_to(st, tv2),
    ensures
        abi_enc(tv1) == abi_enc(tv2),
    decreases st, 1int,
{
    match (st, tv1, tv2) {
        (
            SerializableToken::FixedArray(va),
            TokenValue::FixedArray(v1),
            TokenValue::FixedArray(v2),
        ) => {
            assert forall|j: int| 0 <= j < va@.len() implies parses_to(
                #[trigger] va@[j],
                v1@[j],
            ) && parses_to(va@[j], v2@[j]) && (is_dynamic(v1@[j]) == is_dynamic(v2@[j])) by {
                lemma_is_dynamic_congruent(va@[j], v1@[j], v2@[j]);
            }
            lemma_enc_list_congruent_wrap(va@, v1@, v2@);
        },
        (SerializableToken::Array(va), TokenValue::Array(v1), TokenValue::Array(v2)) => {
            assert forall|j: int| 0 <= j < va@.len() implies parses_to(
                #[trigger] va@[j],
                v1@[j],
            ) && parses_to(va@[j], v2@[j]) by {}
            lemma_enc_list_congruent_wrap(va@, v1@, v2@);
        },
        (SerializableToken::Tuple(va), TokenValue::Tuple(v1), TokenValue::Tuple(v2)) => {
            assert forall|j: int| 0 <= j < va@.len() implies parses_to(
                #[trigger] va@[j],
                v1@[j],
            ) && parses_to(va@[j], v2@[j]) && (is_dynamic(v1@[j]) == is_dynamic(v2@[j])) by {
                lemma_is_dynamic_congruent(va@[j], v1@[j], v2@[j]);
            }
            lemma_enc_list_congruent_wrap(va@, v1@, v2@);
        },
        _ => {},
    }
}

/// The whole-list encodings of two values parsed from the same wire list
/// agree.
proof fn lemma_enc_list_congruent_wrap(
    va: Seq<SerializableToken>,
    v1: Seq<TokenValue>,
    v2: Seq<TokenValue>,
)
    requires
        v1.len() == va.len(),
        v2.len() == va.len(),
        forall|j: int| 0 <= j < va.len() ==> parses_to(#[trigger] va[j], v1[j]),
        forall|j: int| 0 <= j < va.len() ==> parses_to(#[trigger] va[j], v2[j]),
    ensures
        abi_enc_list_from(v1, 0) == abi_enc_list_from(v2, 0),
        head_tail(v1) == head_tail(v2),
        (exists|i: int| 0 <= i < v1.len() && is_dynamic(#[trigger] v1[i])) == (exists|i: int|
            0 <= i < v2.len() && is_dynamic(#[trigger] v2[i])),
    decreases va, va.len() + 1,
{
    lemma_enc_list_congruent(va, v1, v2, 0);
    assert(head_size_from(v1, 0) == head_size_from(v2, 0));
    assert(heads_from(v1, 0, head_size_from(v1, 0)) == heads_from(v2, 0, head_size_from(v1, 0)));
    assert(head_tail(v1) == head_tail(v2));
    assert forall|j: int| 0 <= j < va.len() implies is_dynamic(#[trigger] v1[j]) == is_dynamic(
        v2[j],
    ) by {
        lemma_is_dynamic_congruent(va[j], v1[j], v2[j]);
    }
    if exists|i: int| 0 <= i < v1.len() && is_dynamic(#[trigger] v1[i]) {
        let w = choose|i: int| 0 <= i < v1.len() && is_dynamic(#[trigger] v1[i]);
        assert(is_dynamic(v2[w]));
    }
    if exists|i: int| 0 <= i < v2.len() && is_dynamic(#[trigger] v2[i]) {
        let w = choose|i: int| 0 <= i < v2.len() && is_dynamic(#[trigger] v2[i]);
        assert(is_dynamic(v1[w]));
    }
}

/// The native encoding is injective on well-formed records: two distinct
/// records never share their canonical bytes, so changing any field of a
/// transaction changes the bytes the digest is taken over.
pub proof fn lemma_native_encoding_injective(t1: NearTransactionView, t2: NearTransactionView)
    requires
        t1.wf(),
        t2.wf(),
        enc_transaction(t1) == enc_transaction(t2),
    ensures
        t1 == t2,
{
    lemma_transaction_round_trip(t1);
    lemma_transaction_round_trip(t2);
}

/// Encoding the same logical EVM call twice is byte-identical: whatever
/// values two runs parse from the same wire arguments, the whole call data
/// — selector and argument block — comes out equal, and with it the digest
/// input.
pub proof fn lemma_call_data_deterministic(
    name: Seq<char>,
    kinds: Seq<SerializableParamType>,
    wire: Seq<SerializableToken>,
    tvs1: Seq<TokenValue>,
    tvs2: Seq<TokenValue>,
)
    requires
        tvs1.len() == wire.len(),
        tvs2.len() == wire.len(),
        forall|j: int| 0 <= j < wire.len() ==> parses_to(#[trigger] wire[j], tvs1[j]),
        forall|j: int| 0 <= j < wire.len() ==> parses_to(#[trigger] wire[j], tvs2[j]),
    ensures
        call_data(name, kinds, tvs1) == call_data(name, kinds, tvs2),
{
    lemma_enc_list_congruent_wrap(wire, tvs1, tvs2);
}

} // verus!
