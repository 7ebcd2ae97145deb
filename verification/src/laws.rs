//! The escrow's guarantees, stated and proved of the transition functions
//! that every engine operation is contracted to follow.

use vstd::prelude::*;

use crate::derivation::pda_of;
use crate::derivation::record_tag;
use crate::derivation::registry_tag;
use crate::derivation::vault_tag;
use crate::errors::ErrorCode;
use crate::state::EngineOp;
use crate::state::EngineView;
use crate::state::RecordView;
use crate::state::RegistryView;
use crate::state::spec_claim_reward;
use crate::state::spec_register_provider;
use crate::state::spec_step;
use crate::state::spec_update_reward;
use crate::state::spec_wallet_balance;

verus! {

/// The state after a sequence of operations, applied oldest first.
pub open spec fn run(pre: EngineView, ops: Seq<EngineOp>) -> EngineView
    decreases ops.len(),
{
    if ops.len() == 0 {
        pre
    } else {
        run(spec_step(pre, ops[0]).0, ops.drop_first())
    }
}

/// A successful claim starts from an unclaimed record, flips it to claimed,
/// and moves exactly the entitlement from the vault to the caller's
/// receiving balance.
pub proof fn lemma_claim_success(pre: EngineView, caller: Seq<u8>, mint: Seq<u8>)
    requires
        spec_claim_reward(pre, caller, mint).1 is Ok,
    ensures
        !pre.records[caller].claimed,
        spec_claim_reward(pre, caller, mint).0.records[caller].claimed,
        spec_claim_reward(pre, caller, mint).0.records[caller].reward_amount
            == pre.records[caller].reward_amount,
        spec_claim_reward(pre, caller, mint).0.registries[mint].vault_balance
            == pre.registries[mint].vault_balance - pre.records[caller].reward_amount,
        spec_wallet_balance(spec_claim_reward(pre, caller, mint).0, caller, mint)
            == spec_wallet_balance(pre, caller, mint) + pre.records[caller].reward_amount,
{
}

/// No double payout, one step: once a claim succeeds, repeating it fails
/// with `AlreadyClaimed` and changes nothing.
pub proof fn lemma_no_double_payout(pre: EngineView, caller: Seq<u8>, mint: Seq<u8>)
    ensures
        spec_claim_reward(pre, caller, mint).1 is Ok ==> spec_claim_reward(
            spec_claim_reward(pre, caller, mint).0,
            caller,
            mint,
        ) == (
            spec_claim_reward(pre, caller, mint).0,
            Err::<(), ErrorCode>(ErrorCode::AlreadyClaimed),
        ),
{
}

/// Once claimed, a record stays claimed with its amount unchanged, whatever
/// operation runs next.
pub proof fn lemma_claimed_is_permanent(pre: EngineView, op: EngineOp, p: Seq<u8>)
    requires
        pre.records.contains_key(p),
        pre.records[p].claimed,
    ensures
        spec_step(pre, op).0.records.contains_key(p),
        spec_step(pre, op).0.records[p].claimed,
        spec_step(pre, op).0.records[p].reward_amount == pre.records[p].reward_amount,
{
}

/// Once claimed, a record stays claimed with its amount unchanged along any
/// sequence of further operations.
pub proof fn lemma_claimed_along_run(pre: EngineView, ops: Seq<EngineOp>, p: Seq<u8>)
    requires
        pre.records.contains_key(p),
        pre.records[p].claimed,
    ensures
        run(pre, ops).records.contains_key(p),
        run(pre, ops).records[p].claimed,
        run(pre, ops).records[p].reward_amount == pre.records[p].reward_amount,
    decreases ops.len(),
{
    if ops.len() > 0 {
        lemma_claimed_is_permanent(pre, ops[0], p);
        lemma_claimed_along_run(spec_step(pre, ops[0]).0, ops.drop_first(), p);
    }
}

/// At most one payout: after a provider's claim succeeds, every later claim
/// by that provider — after any further operations, against any registry —
/// is rejected.
pub proof fn lemma_at_most_one_payout(
    pre: EngineView,
    caller: Seq<u8>,
    mint: Seq<u8>,
    later: Seq<EngineOp>,
    mint2: Seq<u8>,
)
    requires
        spec_claim_reward(pre, caller, mint).1 is Ok,
    ensures
        spec_claim_reward(run(spec_claim_reward(pre, caller, mint).0, later), caller, mint2).1
            is Err,
{
    let v1 = spec_claim_reward(pre, caller, mint).0;
    lemma_claim_success(pre, caller, mint);
    lemma_claimed_along_run(v1, later, caller);
}

/// The admin gate: a caller other than the registry's administrator can
/// neither register a provider nor update a reward; both rejections leave
/// everything unchanged.
pub proof fn lemma_admin_gate(
    pre: EngineView,
    caller: Seq<u8>,
    mint: Seq<u8>,
    provider: Seq<u8>,
    amount: u64,
    new_amount: u64,
)
    requires
        pre.registries.contains_key(mint),
        caller != pre.registries[mint].admin,
    ensures
        spec_register_provider(pre, caller, mint, provider, amount) == (
            pre,
            Err::<(), ErrorCode>(ErrorCode::Unauthorized),
        ),
        spec_update_reward(pre, caller, mint, provider, new_amount) == (
            pre,
            Err::<(), ErrorCode>(ErrorCode::Unauthorized),
        ),
{
}

/// The freeze after a claim: on a claimed record, even the administrator's
/// update fails with `AlreadyClaimed`, and so does a second claim; neither
/// changes anything.
pub proof fn lemma_freeze_after_claim(
    pre: EngineView,
    caller: Seq<u8>,
    mint: Seq<u8>,
    provider: Seq<u8>,
    new_amount: u64,
)
    requires
        pre.registries.contains_key(mint),
        caller == pre.registries[mint].admin,
        pre.records.contains_key(provider),
        pre.records[provider].claimed,
    ensures
        spec_update_reward(pre, caller, mint, provider, new_amount) == (
            pre,
            Err::<(), ErrorCode>(ErrorCode::AlreadyClaimed),
        ),
        spec_claim_reward(pre, provider, mint) == (
            pre,
            Err::<(), ErrorCode>(ErrorCode::AlreadyClaimed),
        ),
{
}

/// Every rejection leaves the state exactly as it was.
pub proof fn lemma_rejection_changes_nothing(pre: EngineView, op: EngineOp)
    ensures
        spec_step(pre, op).1 is Err ==> spec_step(pre, op).0 == pre,
{
}

/// A registry's administrator, asset, vault address and derivation
/// parameters never change once created; only its vault balance moves.
pub proof fn lemma_registry_fields_stable(pre: EngineView, op: EngineOp, m: Seq<u8>)
    requires
        pre.registries.contains_key(m),
    ensures
        spec_step(pre, op).0.registries.contains_key(m),
        spec_step(pre, op).0.registries[m].admin == pre.registries[m].admin,
        spec_step(pre, op).0.registries[m].reward_mint == pre.registries[m].reward_mint,
        spec_step(pre, op).0.registries[m].reward_vault == pre.registries[m].reward_vault,
        spec_step(pre, op).0.registries[m].bump == pre.registries[m].bump,
        spec_step(pre, op).0.registries[m].vault_bump == pre.registries[m].vault_bump,
{
}

/// Address discipline: every registry is keyed by its own asset, and its
/// stored vault address and bumps are exactly what derivation yields for
/// that asset; every record is keyed by its own provider, with the bump
/// derivation yields for that provider.
pub open spec fn addresses_consistent(v: EngineView) -> bool {
    &&& (forall|m: Seq<u8>| #[trigger] v.registries.contains_key(m) ==> {
        &&& v.registries[m].reward_mint == m
        &&& pda_of(registry_tag(), m, v.program) == Some(
            (pda_of(registry_tag(), m, v.program).unwrap().0, v.registries[m].bump),
        )
        &&& pda_of(vault_tag(), m, v.program) == Some(
            (v.registries[m].reward_vault, v.registries[m].vault_bump),
        )
    })
    &&& (forall|p: Seq<u8>| #[trigger] v.records.contains_key(p) ==> {
        &&& v.records[p].provider == p
        &&& pda_of(record_tag(), p, v.program) == Some(
            (pda_of(record_tag(), p, v.program).unwrap().0, v.records[p].bump),
        )
    })
}

/// A state without registries or records satisfies the address discipline;
/// a fresh engine starts here.
pub proof fn lemma_empty_state_consistent(v: EngineView)
    requires
        v.registries == Map::<Seq<u8>, RegistryView>::empty(),
        v.records == Map::<Seq<u8>, RecordView>::empty(),
    ensures
        addresses_consistent(v),
{
}

/// Only a claim debits a vault: under every other operation a registry's
/// vault balance never shrinks.
pub proof fn lemma_only_claim_debits(pre: EngineView, op: EngineOp, m: Seq<u8>)
    requires
        pre.registries.contains_key(m),
        !(op is ClaimReward),
    ensures
        spec_step(pre, op).0.registries[m].vault_balance >= pre.registries[m].vault_balance,
{
}

/// Every operation keeps the program identity and the address discipline.
pub proof fn lemma_step_keeps_addresses(pre: EngineView, op: EngineOp)
    requires
        addresses_consistent(pre),
    ensures
        spec_step(pre, op).0.program == pre.program,
        addresses_consistent(spec_step(pre, op).0),
{
    let post = spec_step(pre, op).0;
    assert forall|m: Seq<u8>| #[trigger] post.registries.contains_key(m) implies {
        &&& post.registries[m].reward_mint == m
        &&& pda_of(registry_tag(), m, post.program) == Some(
            (pda_of(registry_tag(), m, post.program).unwrap().0, post.registries[m].bump),
        )
        &&& pda_of(vault_tag(), m, post.program) == Some(
            (post.registries[m].reward_vault, post.registries[m].vault_bump),
        )
    } by {
        if pre.registries.contains_key(m) {
            lemma_registry_fields_stable(pre, op, m);
        }
    }
    assert forall|p: Seq<u8>| #[trigger] post.records.contains_key(p) implies {
        &&& post.records[p].provider == p
        &&& pda_of(record_tag(), p, post.program) == Some(
            (pda_of(record_tag(), p, post.program).unwrap().0, post.records[p].bump),
        )
    } by {
        if pre.records.contains_key(p) && pre.records[p].claimed {
            lemma_claimed_is_permanent(pre, op, p);
        }
    }
}

} // verus!
