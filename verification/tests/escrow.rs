//! End-to-end behaviour of the escrow engine.

use chain_cloud_rewards::Engine;
use chain_cloud_rewards::ErrorCode;
use chain_cloud_rewards::Identity;

fn id(b: u8) -> Identity {
    Identity::from_bytes(vec![b; 32]).unwrap()
}

fn engine() -> Engine {
    Engine::new(id(9))
}

#[test]
fn identity_length_is_checked() {
    assert!(Identity::from_bytes(vec![1; 32]).is_some());
    assert!(Identity::from_bytes(vec![1; 31]).is_none());
    assert!(Identity::from_bytes(vec![1; 33]).is_none());
    assert!(Identity::from_bytes(Vec::new()).is_none());
    assert_eq!(id(4), id(4));
    assert_ne!(id(4), id(5));
}

#[test]
fn full_flow_pays_the_entitlement_once() {
    let mut e = engine();
    let admin = id(1);
    let mint = id(2);
    let provider = id(3);

    assert_eq!(e.initialize(&admin, &mint), Ok(()));
    assert_eq!(e.vault_balance(&mint), Some(0));

    assert_eq!(e.register_provider(&admin, &mint, &provider, 100), Ok(()));
    let rec = e.get_record(&provider).unwrap();
    assert_eq!(rec.reward_amount, 100);
    assert!(!rec.claimed);

    assert_eq!(e.update_reward(&admin, &mint, &provider, 150), Ok(()));
    assert_eq!(e.get_record(&provider).unwrap().reward_amount, 150);

    assert_eq!(e.deposit(&mint, 150), Ok(()));
    assert_eq!(e.vault_balance(&mint), Some(150));

    assert_eq!(e.claim_reward(&provider, &mint), Ok(()));
    assert_eq!(e.vault_balance(&mint), Some(0));
    assert_eq!(e.wallet_balance(&provider, &mint), 150);
    assert!(e.get_record(&provider).unwrap().claimed);
}

#[test]
fn second_claim_is_rejected_and_moves_nothing() {
    let mut e = engine();
    let admin = id(1);
    let mint = id(2);
    let provider = id(3);
    assert_eq!(e.initialize(&admin, &mint), Ok(()));
    assert_eq!(e.register_provider(&admin, &mint, &provider, 100), Ok(()));
    assert_eq!(e.deposit(&mint, 250), Ok(()));
    assert_eq!(e.claim_reward(&provider, &mint), Ok(()));

    assert_eq!(e.claim_reward(&provider, &mint), Err(ErrorCode::AlreadyClaimed));
    assert_eq!(e.vault_balance(&mint), Some(150));
    assert_eq!(e.wallet_balance(&provider, &mint), 100);
    assert!(e.get_record(&provider).unwrap().claimed);
}

#[test]
fn register_by_non_admin_is_rejected() {
    let mut e = engine();
    let admin = id(1);
    let stranger = id(7);
    let mint = id(2);
    let provider = id(3);
    assert_eq!(e.initialize(&admin, &mint), Ok(()));

    assert_eq!(
        e.register_provider(&stranger, &mint, &provider, 10),
        Err(ErrorCode::Unauthorized)
    );
    assert!(e.get_record(&provider).is_none());
}

#[test]
fn update_by_non_admin_is_rejected() {
    let mut e = engine();
    let admin = id(1);
    let stranger = id(7);
    let mint = id(2);
    let provider = id(3);
    assert_eq!(e.initialize(&admin, &mint), Ok(()));
    assert_eq!(e.register_provider(&admin, &mint, &provider, 10), Ok(()));

    assert_eq!(
        e.update_reward(&stranger, &mint, &provider, 999),
        Err(ErrorCode::Unauthorized)
    );
    assert_eq!(e.get_record(&provider).unwrap().reward_amount, 10);
}

#[test]
fn claim_without_record_is_rejected() {
    let mut e = engine();
    let admin = id(1);
    let mint = id(2);
    let outsider = id(8);
    assert_eq!(e.initialize(&admin, &mint), Ok(()));
    assert_eq!(e.deposit(&mint, 50), Ok(()));

    assert_eq!(e.claim_reward(&outsider, &mint), Err(ErrorCode::InvalidProvider));
    assert_eq!(e.vault_balance(&mint), Some(50));
}

#[test]
fn update_after_claim_is_rejected() {
    let mut e = engine();
    let admin = id(1);
    let mint = id(2);
    let provider = id(3);
    assert_eq!(e.initialize(&admin, &mint), Ok(()));
    assert_eq!(e.register_provider(&admin, &mint, &provider, 40), Ok(()));
    assert_eq!(e.deposit(&mint, 40), Ok(()));
    assert_eq!(e.claim_reward(&provider, &mint), Ok(()));

    assert_eq!(
        e.update_reward(&admin, &mint, &provider, 500),
        Err(ErrorCode::AlreadyClaimed)
    );
    assert_eq!(e.get_record(&provider).unwrap().reward_amount, 40);
}

#[test]
fn initialize_twice_is_rejected() {
    let mut e = engine();
    let admin = id(1);
    let other = id(6);
    let mint = id(2);
    assert_eq!(e.initialize(&admin, &mint), Ok(()));
    assert_eq!(e.initialize(&admin, &mint), Err(ErrorCode::AlreadyExists));
    assert_eq!(e.initialize(&other, &mint), Err(ErrorCode::AlreadyExists));
    assert_eq!(e.get_registry(&mint).unwrap().admin, id(1));
}

#[test]
fn register_twice_is_rejected() {
    let mut e = engine();
    let admin = id(1);
    let mint = id(2);
    let provider = id(3);
    assert_eq!(e.initialize(&admin, &mint), Ok(()));
    assert_eq!(e.register_provider(&admin, &mint, &provider, 10), Ok(()));
    assert_eq!(
        e.register_provider(&admin, &mint, &provider, 99),
        Err(ErrorCode::AlreadyExists)
    );
    assert_eq!(e.get_record(&provider).unwrap().reward_amount, 10);
}

#[test]
fn operations_on_unknown_registry_are_rejected() {
    let mut e = engine();
    let admin = id(1);
    let mint = id(2);
    let provider = id(3);
    assert_eq!(
        e.register_provider(&admin, &mint, &provider, 10),
        Err(ErrorCode::InvalidMint)
    );
    assert_eq!(
        e.update_reward(&admin, &mint, &provider, 10),
        Err(ErrorCode::InvalidMint)
    );
    assert_eq!(e.claim_reward(&provider, &mint), Err(ErrorCode::InvalidMint));
    assert_eq!(e.deposit(&mint, 10), Err(ErrorCode::InvalidMint));
    assert_eq!(e.vault_balance(&mint), None);
    assert!(e.get_registry(&mint).is_none());
}

#[test]
fn update_for_unknown_provider_is_rejected() {
    let mut e = engine();
    let admin = id(1);
    let mint = id(2);
    let provider = id(3);
    assert_eq!(e.initialize(&admin, &mint), Ok(()));
    assert_eq!(
        e.update_reward(&admin, &mint, &provider, 10),
        Err(ErrorCode::InvalidProvider)
    );
}

#[test]
fn claim_with_underfunded_vault_is_rejected_then_succeeds() {
    let mut e = engine();
    let admin = id(1);
    let mint = id(2);
    let provider = id(3);
    assert_eq!(e.initialize(&admin, &mint), Ok(()));
    assert_eq!(e.register_provider(&admin, &mint, &provider, 100), Ok(()));
    assert_eq!(e.deposit(&mint, 60), Ok(()));

    assert_eq!(e.claim_reward(&provider, &mint), Err(ErrorCode::InsufficientFunds));
    assert!(!e.get_record(&provider).unwrap().claimed);
    assert_eq!(e.vault_balance(&mint), Some(60));

    assert_eq!(e.deposit(&mint, 40), Ok(()));
    assert_eq!(e.claim_reward(&provider, &mint), Ok(()));
    assert_eq!(e.wallet_balance(&provider, &mint), 100);
    assert_eq!(e.vault_balance(&mint), Some(0));
}

#[test]
fn deposit_overflow_is_rejected() {
    let mut e = engine();
    let admin = id(1);
    let mint = id(2);
    assert_eq!(e.initialize(&admin, &mint), Ok(()));
    assert_eq!(e.deposit(&mint, u64::MAX), Ok(()));
    assert_eq!(e.deposit(&mint, 1), Err(ErrorCode::BalanceOverflow));
    assert_eq!(e.vault_balance(&mint), Some(u64::MAX));
}

#[test]
fn zero_entitlement_can_be_registered_and_claimed() {
    let mut e = engine();
    let admin = id(1);
    let mint = id(2);
    let provider = id(3);
    assert_eq!(e.initialize(&admin, &mint), Ok(()));
    assert_eq!(e.register_provider(&admin, &mint, &provider, 0), Ok(()));
    assert_eq!(e.claim_reward(&provider, &mint), Ok(()));
    assert_eq!(e.wallet_balance(&provider, &mint), 0);
    assert!(e.get_record(&provider).unwrap().claimed);
}

#[test]
fn registries_are_independent() {
    let mut e = engine();
    let admin = id(1);
    let mint_a = id(2);
    let mint_b = id(4);
    let provider = id(3);
    assert_eq!(e.initialize(&admin, &mint_a), Ok(()));
    assert_eq!(e.initialize(&admin, &mint_b), Ok(()));
    assert_eq!(e.deposit(&mint_a, 30), Ok(()));
    assert_eq!(e.deposit(&mint_b, 70), Ok(()));
    assert_eq!(e.register_provider(&admin, &mint_a, &provider, 30), Ok(()));
    assert_eq!(e.claim_reward(&provider, &mint_a), Ok(()));
    assert_eq!(e.vault_balance(&mint_a), Some(0));
    assert_eq!(e.vault_balance(&mint_b), Some(70));
    assert_eq!(e.wallet_balance(&provider, &mint_a), 30);
    assert_eq!(e.wallet_balance(&provider, &mint_b), 0);
}
