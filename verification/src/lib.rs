//! Policy-gated multi-chain transaction construction and signing dispatch.
//!
//! A creator issues *trials*: delegated signing keys that a third party may
//! use on one or more chains on behalf of an eventual owner, restricted by a
//! policy. Every action is admitted against the policy, accounted in usage
//! statistics, encoded into the target chain's canonical unsigned transaction,
//! digested, and handed to an external threshold signer as a `SignRequest`.

pub mod admission;
pub mod base58;
pub mod chain;
pub mod digest;
pub mod contract;
pub mod counters;
pub mod dispatch;
pub mod errors;
pub mod evm_abi;
pub mod evm_tokens;
pub mod evm_tx;
pub mod hexformat;
pub mod key_usage;
pub mod keytext;
pub mod laws;
pub mod near_builder;
pub mod near_codec;
pub mod near_decode;
pub mod near_types;
pub mod numeric;
pub mod policy;
pub mod stats;
pub mod views;
