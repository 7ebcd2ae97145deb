//! The rejections the escrow engine can answer with.

use vstd::prelude::*;

verus! {

/// Why an operation was refused. Every refusal leaves the engine unchanged.
#[derive(Clone, Copy, Debug, PartialEq, Eq, Structural)]
pub enum ErrorCode {
    /// The caller is not the registry's administrator.
    Unauthorized,
    /// No provider record is bound to the named provider.
    InvalidProvider,
    /// The record's reward was already claimed.
    AlreadyClaimed,
    /// No registry exists for the named token type.
    InvalidMint,
    /// A registry or record with this key already exists.
    AlreadyExists,
    /// No derived address exists for these seeds.
    DerivationFailed,
    /// The vault holds less than the entitlement being claimed.
    InsufficientFunds,
    /// Crediting the recipient would overflow its balance.
    BalanceOverflow,
}

} // verus!
