//! The engine's mathematical state, and what each operation means on it.
//!
//! Each executable operation of the engine promises that its result and the
//! engine's new view are exactly what the matching transition function here
//! returns. The laws about the escrow — at most one payout, the admin gate,
//! the freeze after a claim — are proved of these transitions.

use vstd::prelude::*;

use crate::derivation::pda_of;
use crate::derivation::record_tag;
use crate::derivation::registry_tag;
use crate::derivation::vault_tag;
use crate::errors::ErrorCode;

verus! {

/// A registry as the contracts see it: the recorded fields together with the
/// balance its custodial vault holds.
#[verifier::ext_equal]
pub struct RegistryView {
    pub admin: Seq<u8>,
    pub reward_mint: Seq<u8>,
    pub reward_vault: Seq<u8>,
    pub bump: u8,
    pub vault_bump: u8,
    pub vault_balance: u64,
}

/// A provider's entitlement record as the contracts see it.
#[verifier::ext_equal]
pub struct RecordView {
    pub provider: Seq<u8>,
    pub reward_amount: u64,
    pub claimed: bool,
    pub bump: u8,
}

/// The whole escrow state: registries keyed by token type, records keyed by
/// provider, and receiving balances keyed by owner and token type.
#[verifier::ext_equal]
pub struct EngineView {
    pub program: Seq<u8>,
    pub registries: Map<Seq<u8>, RegistryView>,
    pub records: Map<Seq<u8>, RecordView>,
    pub wallets: Map<(Seq<u8>, Seq<u8>), u64>,
}

/// Initialize: create the registry and its empty vault for `mint`, with
/// `caller` as administrator. Fails if the registry already exists or no
/// address can be derived; a failure changes nothing.
pub open spec fn spec_initialize(pre: EngineView, caller: Seq<u8>, mint: Seq<u8>) -> (
    EngineView,
    Result<(), ErrorCode>,
) {
    if pre.registries.contains_key(mint) {
        (pre, Err(ErrorCode::AlreadyExists))
    } else {
        match (pda_of(registry_tag(), mint, pre.program), pda_of(vault_tag(), mint, pre.program)) {
            (Some(reg_derived), Some(vault_derived)) => (
                EngineView {
                    registries: pre.registries.insert(
                        mint,
                        RegistryView {
                            admin: caller,
                            reward_mint: mint,
                            reward_vault: vault_derived.0,
                            bump: reg_derived.1,
                            vault_bump: vault_derived.1,
                            vault_balance: 0,
                        },
                    ),
                    ..pre
                },
                Ok(()),
            ),
            _ => (pre, Err(ErrorCode::DerivationFailed)),
        }
    }
}

/// RegisterProvider: the administrator of `mint`'s registry creates the one
/// record of `provider`, unclaimed, with entitlement `amount`. Fails without
/// change when the registry is missing, the caller is not the administrator,
/// the record already exists, or no address can be derived.
pub open spec fn spec_register_provider(
    pre: EngineView,
    caller: Seq<u8>,
    mint: Seq<u8>,
    provider: Seq<u8>,
    amount: u64,
) -> (EngineView, Result<(), ErrorCode>) {
    if !pre.registries.contains_key(mint) {
        (pre, Err(ErrorCode::InvalidMint))
    } else if pre.registries[mint].admin != caller {
        (pre, Err(ErrorCode::Unauthorized))
    } else if pre.records.contains_key(provider) {
        (pre, Err(ErrorCode::AlreadyExists))
    } else {
        match pda_of(record_tag(), provider, pre.program) {
            Some(rec_derived) => (
                EngineView {
                    records: pre.records.insert(
                        provider,
                        RecordView {
                            provider: provider,
                            reward_amount: amount,
                            claimed: false,
                            bump: rec_derived.1,
                        },
                    ),
                    ..pre
                },
                Ok(()),
            ),
            None => (pre, Err(ErrorCode::DerivationFailed)),
        }
    }
}

/// UpdateReward: the administrator replaces an unclaimed record's
/// entitlement. Fails without change when the registry is missing, the
/// caller is not the administrator, the record is missing, or the record is
/// already claimed.
pub open spec fn spec_update_reward(
    pre: EngineView,
    caller: Seq<u8>,
    mint: Seq<u8>,
    provider: Seq<u8>,
    new_amount: u64,
) -> (EngineView, Result<(), ErrorCode>) {
    if !pre.registries.contains_key(mint) {
        (pre, Err(ErrorCode::InvalidMint))
    } else if pre.registries[mint].admin != caller {
        (pre, Err(ErrorCode::Unauthorized))
    } else if !pre.records.contains_key(provider) {
        (pre, Err(ErrorCode::InvalidProvider))
    } else if pre.records[provider].claimed {
        (pre, Err(ErrorCode::AlreadyClaimed))
    } else {
        let rec = pre.records[provider];
        (
            EngineView {
                records: pre.records.insert(
                    provider,
                    RecordView { reward_amount: new_amount, ..rec },
                ),
                ..pre
            },
            Ok(()),
        )
    }
}

/// ClaimReward: the provider itself claims its entitlement once; the claimed
/// flag flips and exactly the entitlement moves from the vault to the
/// caller's receiving balance, created on demand. Fails without change when
/// the registry or record is missing, the record is already claimed, the
/// vault holds too little, or the credit would overflow.
pub open spec fn spec_claim_reward(pre: EngineView, caller: Seq<u8>, mint: Seq<u8>) -> (
    EngineView,
    Result<(), ErrorCode>,
) {
    if !pre.registries.contains_key(mint) {
        (pre, Err(ErrorCode::InvalidMint))
    } else if !pre.records.contains_key(caller) {
        (pre, Err(ErrorCode::InvalidProvider))
    } else if pre.records[caller].claimed {
        (pre, Err(ErrorCode::AlreadyClaimed))
    } else {
        let reg = pre.registries[mint];
        let rec = pre.records[caller];
        let amount = rec.reward_amount;
        if reg.vault_balance < amount {
            (pre, Err(ErrorCode::InsufficientFunds))
        } else {
            let held = spec_wallet_balance(pre, caller, mint);
            if held + amount > u64::MAX {
                (pre, Err(ErrorCode::BalanceOverflow))
            } else {
                (
                    EngineView {
                        registries: pre.registries.insert(
                            mint,
                            RegistryView {
                                vault_balance: (reg.vault_balance - amount) as u64,
                                ..reg
                            },
                        ),
                        records: pre.records.insert(caller, RecordView { claimed: true, ..rec }),
                        wallets: pre.wallets.insert((caller, mint), (held + amount) as u64),
                        ..pre
                    },
                    Ok(()),
                )
            }
        }
    }
}

/// Deposit: the external depositor credits `mint`'s vault. Fails without
/// change when the registry is missing or the vault balance would overflow.
pub open spec fn spec_deposit(pre: EngineView, mint: Seq<u8>, amount: u64) -> (
    EngineView,
    Result<(), ErrorCode>,
) {
    if !pre.registries.contains_key(mint) {
        (pre, Err(ErrorCode::InvalidMint))
    } else {
        let reg = pre.registries[mint];
        if reg.vault_balance + amount > u64::MAX {
            (pre, Err(ErrorCode::BalanceOverflow))
        } else {
            (
                EngineView {
                    registries: pre.registries.insert(
                        mint,
                        RegistryView {
                            vault_balance: (reg.vault_balance + amount) as u64,
                            ..reg
                        },
                    ),
                    ..pre
                },
                Ok(()),
            )
        }
    }
}

/// The receiving balance of `owner` for `mint`; an account not yet created
/// holds nothing.
pub open spec fn spec_wallet_balance(v: EngineView, owner: Seq<u8>, mint: Seq<u8>) -> u64 {
    if v.wallets.contains_key((owner, mint)) {
        v.wallets[(owner, mint)]
    } else {
        0u64
    }
}

/// One invocation of the engine, with its participants and payload.
pub enum EngineOp {
    Initialize { caller: Seq<u8>, token_type: Seq<u8> },
    RegisterProvider { caller: Seq<u8>, token_type: Seq<u8>, provider: Seq<u8>, amount: u64 },
    UpdateReward { caller: Seq<u8>, token_type: Seq<u8>, provider: Seq<u8>, new_amount: u64 },
    ClaimReward { caller: Seq<u8>, token_type: Seq<u8> },
    Deposit { token_type: Seq<u8>, amount: u64 },
}

/// The transition any one operation makes.
pub open spec fn spec_step(pre: EngineView, op: EngineOp) -> (EngineView, Result<(), ErrorCode>) {
    match op {
        EngineOp::Initialize { caller, token_type } => spec_initialize(pre, caller, token_type),
        EngineOp::RegisterProvider { caller, token_type, provider, amount } =>
            spec_register_provider(pre, caller, token_type, provider, amount),
        EngineOp::UpdateReward { caller, token_type, provider, new_amount } =>
            spec_update_reward(pre, caller, token_type, provider, new_amount),
        EngineOp::ClaimReward { caller, token_type } => spec_claim_reward(pre, caller, token_type),
        EngineOp::Deposit { token_type, amount } => spec_deposit(pre, token_type, amount),
    }
}

} // verus!
