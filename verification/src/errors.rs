//! The error taxonomy. Every failure is a synchronous abort carrying a
//! stable, human-readable reason; nothing is retried and no default ever
//! substitutes for a rejected action.

use vstd::prelude::*;

verus! {

/// Why a call was rejected. Each variant corresponds to exactly one check.
#[derive(Clone, Copy, Debug, PartialEq, Eq, Structural)]
pub enum TrialError {
    /// The signer's public key has no delegated-key record, or the key exited.
    AccessDenied,
    /// The key's trial policy was deleted after the key was issued.
    PolicyNotFound,
    /// The policy's expiration time has passed.
    TrialExpired,
    /// Constraints stored under the action's chain are of the other family.
    ChainMismatch,
    /// The action's chain has no configured constraints.
    ChainNotConfigured,
    /// The action's method is not in the chain's allowlist.
    MethodNotAllowed,
    /// The action's contract or address is not in the chain's allowlist.
    ContractNotAllowed,
    /// The attached gas exceeds the chain's ceiling.
    GasExceeded,
    /// The attached deposit or value exceeds the chain's ceiling.
    ValueExceeded,
    /// A usage accumulator or counter would overflow.
    Overflow,
    /// The exit condition's transaction ceiling is reached.
    TransactionLimitReached,
    /// The delegated key is already bound to an identity on this chain.
    AlreadyActivated,
    /// The delegated key has no identity bound on this chain yet.
    NotActivated,
    /// An address does not parse into the chain's address form.
    InvalidAddress,
    /// A hex or numeric text field does not parse.
    InvalidHex,
    /// The signing request cannot be scheduled (malformed request).
    DispatchFailed,
    /// The attached deposit does not cover the storage cost.
    InsufficientDeposit,
}

impl TrialError {
    /// The stable reason string for this error kind.
    pub open spec fn reason_spec(self) -> Seq<char> {
        match self {
            TrialError::AccessDenied => "Access denied"@,
            TrialError::PolicyNotFound => "Trial data not found"@,
            TrialError::TrialExpired => "Trial period has expired"@,
            TrialError::ChainMismatch => "Chain ID and constraints type mismatch"@,
            TrialError::ChainNotConfigured => "Chain not configured"@,
            TrialError::MethodNotAllowed => "Method not allowed"@,
            TrialError::ContractNotAllowed => "Contract not allowed"@,
            TrialError::GasExceeded => "Attached gas exceeds maximum allowed"@,
            TrialError::ValueExceeded => "Attached deposit exceeds maximum allowed"@,
            TrialError::Overflow => "Overflow"@,
            TrialError::TransactionLimitReached => "Transaction limit reached"@,
            TrialError::AlreadyActivated => "The trial has already been activated"@,
            TrialError::NotActivated => "Trial Account not activated"@,
            TrialError::InvalidAddress => "Invalid address"@,
            TrialError::InvalidHex => "Invalid hex input"@,
            TrialError::DispatchFailed => "Dispatch failed"@,
            TrialError::InsufficientDeposit => "Insufficient deposit"@,
        }
    }

    /// The stable reason string, for reporting to the caller.
    pub fn reason(&self) -> (r: String)
        ensures
            r@ == self.reason_spec(),
    {
        match self {
            TrialError::AccessDenied => "Access denied".to_owned(),
            TrialError::PolicyNotFound => "Trial data not found".to_owned(),
            TrialError::TrialExpired => "Trial period has expired".to_owned(),
            TrialError::ChainMismatch => "Chain ID and constraints type mismatch".to_owned(),
            TrialError::ChainNotConfigured => "Chain not configured".to_owned(),
            TrialError::MethodNotAllowed => "Method not allowed".to_owned(),
            TrialError::ContractNotAllowed => "Contract not allowed".to_owned(),
            TrialError::GasExceeded => "Attached gas exceeds maximum allowed".to_owned(),
            TrialError::ValueExceeded => "Attached deposit exceeds maximum allowed".to_owned(),
            TrialError::Overflow => "Overflow".to_owned(),
            TrialError::TransactionLimitReached => "Transaction limit reached".to_owned(),
            TrialError::AlreadyActivated => "The trial has already been activated".to_owned(),
            TrialError::NotActivated => "Trial Account not activated".to_owned(),
            TrialError::InvalidAddress => "Invalid address".to_owned(),
            TrialError::InvalidHex => "Invalid hex input".to_owned(),
            TrialError::DispatchFailed => "Dispatch failed".to_owned(),
            TrialError::InsufficientDeposit => "Insufficient deposit".to_owned(),
        }
    }
}

} // verus!
