//! Deterministic address derivation.
//!
//! Every registry, vault and provider record is addressed by a pure function
//! of a seed tag and a key identity: any party can recompute an entity's
//! address, and the stored bump lets the custodial authority be reconstructed
//! without a private credential.

use vstd::prelude::*;

use crate::Identity;

verus! {

/// The derived address and bump seed for these seeds under this program
/// identity, exactly as the host ledger's derivation returns them; `None`
/// when no bump seed yields a valid address. The result is a function of the
/// arguments alone.
pub uninterp spec fn pda_of(tag: Seq<char>, key: Seq<u8>, program: Seq<u8>) -> Option<
    (Seq<u8>, u8),
>;

/// Seed tag under which a registry's own address is derived.
pub open spec fn registry_tag() -> Seq<char> {
    "reward_data"@
}

/// Seed tag under which a registry's vault address is derived.
pub open spec fn vault_tag() -> Seq<char> {
    "reward_vault"@
}

/// Seed tag under which a provider record's address is derived.
pub open spec fn record_tag() -> Seq<char> {
    "provider_data"@
}

/// Relies on `Pubkey::try_find_program_address` (solana-pubkey, re-exported
/// by anchor-lang): the returned address and bump seed depend on the seeds
/// and the program id alone, and an address is 32 bytes.
#[verifier::external_body]
fn find_program_address_raw(tag: &str, key: &Vec<u8>, program: &Vec<u8>) -> (r: Option<
    (Vec<u8>, u8),
>)
    requires
        program@.len() == 32,
    ensures
        (match r {
            Some(p) => pda_of(tag@, key@, program@) == Some((p.0@, p.1)) && p.0@.len() == 32,
            None => pda_of(tag@, key@, program@) is None,
        }),
{
    let mut pid = [0u8; 32];
    pid.copy_from_slice(program.as_slice());
    let pk = anchor_lang::solana_program::pubkey::Pubkey::new_from_array(pid);
    let seeds: [&[u8]; 2] = [tag.as_bytes(), key.as_slice()];
    anchor_lang::solana_program::pubkey::Pubkey::try_find_program_address(&seeds, &pk).map(
        |found: (anchor_lang::solana_program::pubkey::Pubkey, u8)|
            (found.0.to_bytes().to_vec(), found.1),
    )
}

/// Derive the address and bump seed bound to `tag` and `key` under `program`.
/// Re-deriving with the same inputs reproduces the identical result.
pub fn derive_address(tag: &str, key: &Identity, program: &Identity) -> (r: Option<(Identity, u8)>)
    requires
        program.wf(),
    ensures
        (match r {
            Some(p) => pda_of(tag@, key@, program@) == Some((p.0@, p.1)) && p.0.wf(),
            None => pda_of(tag@, key@, program@) is None,
        }),
{
    match find_program_address_raw(tag, key.as_bytes(), program.as_bytes()) {
        Some((addr, bump)) => match Identity::from_bytes(addr) {
            Some(id) => Some((id, bump)),
            None => {
                proof {
                    assert(false);
                }
                None
            },
        },
        None => None,
    }
}

/// The derivation is deterministic: two derivations from the same tag, key
/// and program identity agree.
pub proof fn lemma_derive_deterministic(
    tag: Seq<char>,
    key: Seq<u8>,
    program: Seq<u8>,
    r1: Option<(Seq<u8>, u8)>,
    r2: Option<(Seq<u8>, u8)>,
)
    requires
        r1 == pda_of(tag, key, program),
        r2 == pda_of(tag, key, program),
    ensures
        r1 == r2,
{
}

} // verus!
