//! Chain identities: the native chain or an EVM chain tagged by its numeric id.

use vstd::prelude::*;

use crate::errors::TrialError;
use crate::evm_tokens::{dec_value, is_dec_text};

verus! {

/// The chain family an action routes to.
#[derive(Clone, Copy, Debug, PartialEq, Eq, Structural)]
pub enum Chain {
    NEAR,
    Ethereum,
}

/// Identifies the chain an action, a constraint set or an activation is
/// scoped to: the native account-model chain, or an EVM chain by its
/// numeric chain identifier.
#[derive(Clone, Copy, Debug, PartialEq, Eq, Structural, Hash, PartialOrd, Ord)]
pub enum ChainId {
    NEAR,
    EVM(u64),
}

impl ChainId {
    /// True exactly for the EVM family.
    pub fn is_evm(&self) -> (r: bool)
        ensures
            r == (self matches ChainId::EVM(_)),
    {
        match self {
            ChainId::NEAR => false,
            ChainId::EVM(_) => true,
        }
    }

    /// True exactly for the native chain.
    pub fn is_near(&self) -> (r: bool)
        ensures
            r == (self matches ChainId::NEAR),
    {
        match self {
            ChainId::NEAR => true,
            ChainId::EVM(_) => false,
        }
    }

    /// The numeric EVM chain identifier, if this is an EVM chain.
    pub fn as_evm_chain_id(&self) -> (r: Option<u64>)
        ensures
            match self {
                ChainId::NEAR => r is None,
                ChainId::EVM(n) => r == Some(*n),
            },
    {
        match self {
            ChainId::NEAR => None,
            ChainId::EVM(n) => Some(*n),
        }
    }
}


/// The chain a text identifier names: the native chain's name, or a decimal
/// EVM chain number.
pub open spec fn chain_id_of_text(s: Seq<char>) -> Option<ChainId> {
    if s == "NEAR"@ {
        Some(ChainId::NEAR)
    } else if is_dec_text(s) && dec_value(s) <= u64::MAX {
        Some(ChainId::EVM(dec_value(s) as u64))
    } else {
        None
    }
}

/// Parses a text chain identifier; anything that is neither the native
/// chain's name nor a decimal number is rejected as `InvalidHex`.
pub fn chain_id_from_str(s: &String) -> (r: Result<ChainId, TrialError>)
    ensures
        match r {
            Ok(c) => chain_id_of_text(s@) == Some(c),
            Err(e) => e == TrialError::InvalidHex && chain_id_of_text(s@) is None,
        },
{
    let near_name = "NEAR".to_owned();
    if *s == near_name {
        return Ok(ChainId::NEAR);
    }
    match crate::evm_tokens::parse_dec_u128_pub(s.as_str()) {
        Ok(x) => {
            if x <= u64::MAX as u128 {
                Ok(ChainId::EVM(x as u64))
            } else {
                Err(TrialError::InvalidHex)
            }
        },
        Err(_) => Err(TrialError::InvalidHex),
    }
}

} // verus!
