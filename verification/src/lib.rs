mod assoc;
mod derivation;
mod engine;
mod errors;
mod laws;
mod state;

pub use laws::addresses_consistent;
pub use laws::lemma_admin_gate;
pub use laws::lemma_at_most_one_payout;
pub use laws::lemma_claim_success;
pub use laws::lemma_claimed_along_run;
pub use laws::lemma_claimed_is_permanent;
pub use laws::lemma_empty_state_consistent;
pub use laws::lemma_freeze_after_claim;
pub use laws::lemma_no_double_payout;
pub use laws::lemma_only_claim_debits;
pub use laws::lemma_registry_fields_stable;
pub use laws::lemma_rejection_changes_nothing;
pub use laws::lemma_step_keeps_addresses;
pub use laws::run;

pub use engine::Engine;
pub use engine::ProviderData;
pub use engine::RewardData;
pub use state::EngineOp;
pub use state::EngineView;
pub use state::RecordView;
pub use state::RegistryView;
pub use state::spec_claim_reward;
pub use state::spec_deposit;
pub use state::spec_initialize;
pub use state::spec_register_provider;
pub use state::spec_step;
pub use state::spec_update_reward;
pub use state::spec_wallet_balance;

pub use derivation::derive_address;
pub use derivation::lemma_derive_deterministic;
pub use derivation::pda_of;
pub use derivation::record_tag;
pub use derivation::registry_tag;
pub use derivation::vault_tag;
pub use errors::ErrorCode;

use vstd::prelude::*;

verus! {

/// A 32-byte participant or asset identity, as the ledger addresses them.
#[derive(Debug)]
pub struct Identity {
    bytes: Vec<u8>,
}

impl View for Identity {
    type V = Seq<u8>;

    closed spec fn view(&self) -> Seq<u8> {
        self.bytes@
    }
}

impl Identity {
    /// An identity is a fixed-width 32-byte value.
    pub open spec fn wf(&self) -> bool {
        self@.len() == 32
    }

    /// The identity's raw bytes.
    pub fn as_bytes(&self) -> (r: &Vec<u8>)
        ensures
            r@ == self@,
    {
        &self.bytes
    }

    /// An independent copy of this identity.
    pub fn dup(&self) -> (r: Identity)
        ensures
            r@ == self@,
    {
        let mut out: Vec<u8> = Vec::new();
        let mut i: usize = 0;
        while i < self.bytes.len()
            invariant
                i <= self.bytes.len(),
                out@.len() == i,
                forall|j: int| 0 <= j < i ==> out@[j] == self.bytes@[j],
            decreases self.bytes.len() - i,
        {
            out.push(self.bytes[i]);
            i += 1;
        }
        proof {
            assert(out@ =~= self.bytes@);
        }
        Identity { bytes: out }
    }

    /// Whether two identities are the same sequence of bytes.
    pub fn same(&self, other: &Identity) -> (r: bool)
        ensures
            r == (self@ == other@),
    {
        if self.bytes.len() != other.bytes.len() {
            return false;
        }
        let mut i: usize = 0;
        while i < self.bytes.len()
            invariant
                i <= self.bytes.len(),
                self.bytes.len() == other.bytes.len(),
                forall|j: int| 0 <= j < i ==> self.bytes@[j] == other.bytes@[j],
            decreases self.bytes.len() - i,
        {
            if self.bytes[i] != other.bytes[i] {
                return false;
            }
            i += 1;
        }
        proof {
            assert(self.bytes@ =~= other.bytes@);
        }
        true
    }

    /// Wrap 32 bytes as an identity; reject any other length.
    pub fn from_bytes(bytes: Vec<u8>) -> (r: Option<Identity>)
        ensures
            bytes@.len() == 32 ==> (r matches Some(id) && id@ == bytes@ && id.wf()),
            bytes@.len() != 32 ==> r is None,
    {
        if bytes.len() == 32 {
            Some(Identity { bytes })
        } else {
            None
        }
    }
}

impl PartialEq for Identity {
    fn eq(&self, other: &Identity) -> (r: bool) {
        self.same(other)
    }
}

impl Eq for Identity {

}

impl vstd::std_specs::cmp::PartialEqSpecImpl for Identity {
    open spec fn obeys_eq_spec() -> bool {
        true
    }

    open spec fn eq_spec(&self, other: &Identity) -> bool {
        self@ == other@
    }
}

} // verus!
