//! Address derivation: determinism, and agreement with the host derivation
//! the library relies on.

use anchor_lang::solana_program::pubkey::Pubkey;
use chain_cloud_rewards::derive_address;
use chain_cloud_rewards::Engine;
use chain_cloud_rewards::Identity;

fn id(b: u8) -> Identity {
    Identity::from_bytes(vec![b; 32]).unwrap()
}

#[test]
fn deriving_twice_yields_the_same_address() {
    let key = id(2);
    let program = id(9);
    let first = derive_address("reward_data", &key, &program).unwrap();
    let second = derive_address("reward_data", &key, &program).unwrap();
    assert_eq!(first.0, second.0);
    assert_eq!(first.1, second.1);

    let rec_first = derive_address("provider_data", &id(3), &program).unwrap();
    let rec_second = derive_address("provider_data", &id(3), &program).unwrap();
    assert_eq!(rec_first.0, rec_second.0);
    assert_eq!(rec_first.1, rec_second.1);
}

#[test]
fn different_seeds_yield_different_addresses() {
    let key = id(2);
    let program = id(9);
    let registry = derive_address("reward_data", &key, &program).unwrap();
    let vault = derive_address("reward_vault", &key, &program).unwrap();
    let other_key = derive_address("reward_data", &id(3), &program).unwrap();
    assert_ne!(registry.0, vault.0);
    assert_ne!(registry.0, other_key.0);
    assert_ne!(registry.0, key);
    assert_ne!(vault.0, key);
}

#[test]
fn derivation_agrees_with_the_host_function() {
    let key_bytes = [2u8; 32];
    let program_bytes = [9u8; 32];
    let program = Pubkey::new_from_array(program_bytes);
    let (expected, expected_bump) =
        Pubkey::try_find_program_address(&[b"reward_data", key_bytes.as_ref()], &program)
            .unwrap();
    let ours = derive_address(
        "reward_data",
        &Identity::from_bytes(key_bytes.to_vec()).unwrap(),
        &Identity::from_bytes(program_bytes.to_vec()).unwrap(),
    )
    .unwrap();
    assert_eq!(
        ours.0,
        Identity::from_bytes(expected.to_bytes().to_vec()).unwrap()
    );
    assert_eq!(ours.1, expected_bump);
}

#[test]
fn initialized_registry_stores_the_derived_vault() {
    let mut e = Engine::new(id(9));
    let admin = id(1);
    let mint = id(2);
    assert_eq!(e.initialize(&admin, &mint), Ok(()));

    let registry = e.get_registry(&mint).unwrap();
    assert_eq!(registry.admin, id(1));
    assert_eq!(registry.reward_mint, id(2));

    let (reg_addr, reg_bump) = derive_address("reward_data", &mint, &id(9)).unwrap();
    let (vault_addr, vault_bump) = derive_address("reward_vault", &mint, &id(9)).unwrap();
    assert_eq!(registry.reward_vault, vault_addr);
    assert_eq!(registry.bump, reg_bump);
    assert_eq!(registry.vault_bump, vault_bump);
    assert_ne!(reg_addr, vault_addr);
}
