//! The escrow engine: registries, provider records, and the custodial
//! balances, with the four operations that create and mutate them.
//!
//! The engine is the only path that moves vault funds, standing in for the
//! custodial authority that the derived addresses reconstruct. Each keyed
//! family is held as a vector of entries with pairwise-distinct keys and is
//! read in contracts as a finite map.

use vstd::prelude::*;

use crate::assoc::assoc_map;
use crate::assoc::distinct_keys;
use crate::assoc::lemma_assoc_contains;
use crate::assoc::lemma_assoc_index;
use crate::assoc::lemma_assoc_push;
use crate::assoc::lemma_assoc_update;
use crate::derivation::derive_address;
use crate::errors::ErrorCode;
use crate::state::EngineView;
use crate::state::RecordView;
use crate::state::RegistryView;
use crate::state::spec_claim_reward;
use crate::state::spec_deposit;
use crate::state::spec_initialize;
use crate::state::spec_register_provider;
use crate::state::spec_update_reward;
use crate::state::spec_wallet_balance;
use crate::Identity;

verus! {

/// A registry: the administrator, the distributed asset, the custodial
/// vault's address, and the derivation bumps that reconstruct the vault's
/// authority.
pub struct RewardData {
    pub admin: Identity,
    pub reward_mint: Identity,
    pub reward_vault: Identity,
    pub bump: u8,
    pub vault_bump: u8,
}

/// One provider's entitlement: the amount owed, whether it was already
/// claimed, and the record's derivation bump.
pub struct ProviderData {
    pub provider: Identity,
    pub reward_amount: u64,
    pub claimed: bool,
    pub bump: u8,
}

impl View for ProviderData {
    type V = RecordView;

    closed spec fn view(&self) -> RecordView {
        RecordView {
            provider: self.provider@,
            reward_amount: self.reward_amount,
            claimed: self.claimed,
            bump: self.bump,
        }
    }
}

/// A registry entry together with the balance its vault holds.
struct RegistryEntry {
    data: RewardData,
    vault_balance: u64,
}

impl View for RegistryEntry {
    type V = RegistryView;

    closed spec fn view(&self) -> RegistryView {
        RegistryView {
            admin: self.data.admin@,
            reward_mint: self.data.reward_mint@,
            reward_vault: self.data.reward_vault@,
            bump: self.data.bump,
            vault_bump: self.data.vault_bump,
            vault_balance: self.vault_balance,
        }
    }
}

/// A receiving balance: what `owner` holds of `mint`.
struct WalletCell {
    owner: Identity,
    mint: Identity,
    amount: u64,
}

spec fn reg_pairs(s: Seq<RegistryEntry>) -> Seq<(Seq<u8>, RegistryView)> {
    s.map(|i: int, e: RegistryEntry| (e.data.reward_mint@, e@))
}

spec fn rec_pairs(s: Seq<ProviderData>) -> Seq<(Seq<u8>, RecordView)> {
    s.map(|i: int, e: ProviderData| (e.provider@, e@))
}

spec fn wal_pairs(s: Seq<WalletCell>) -> Seq<((Seq<u8>, Seq<u8>), u64)> {
    s.map(|i: int, w: WalletCell| ((w.owner@, w.mint@), w.amount))
}

/// The escrow engine for one deployment, named by its program identity.
pub struct Engine {
    program: Identity,
    registries: Vec<RegistryEntry>,
    records: Vec<ProviderData>,
    wallets: Vec<WalletCell>,
}

impl View for Engine {
    type V = EngineView;

    closed spec fn view(&self) -> EngineView {
        EngineView {
            program: self.program@,
            registries: assoc_map(reg_pairs(self.registries@)),
            records: assoc_map(rec_pairs(self.records@)),
            wallets: assoc_map(wal_pairs(self.wallets@)),
        }
    }
}

impl Engine {
    /// Each keyed family has pairwise-distinct keys, and the program identity
    /// is well formed.
    pub closed spec fn wf(&self) -> bool {
        &&& self.program.wf()
        &&& distinct_keys(reg_pairs(self.registries@))
        &&& distinct_keys(rec_pairs(self.records@))
        &&& distinct_keys(wal_pairs(self.wallets@))
    }

    /// An empty engine under the given program identity.
    pub fn new(program: Identity) -> (r: Engine)
        requires
            program.wf(),
        ensures
            r.wf(),
            r@ == (EngineView {
                program: program@,
                registries: Map::<Seq<u8>, RegistryView>::empty(),
                records: Map::<Seq<u8>, RecordView>::empty(),
                wallets: Map::<(Seq<u8>, Seq<u8>), u64>::empty(),
            }),
    {
        let e = Engine { program, registries: Vec::new(), records: Vec::new(), wallets: Vec::new() };
        proof {
            assert(reg_pairs(e.registries@) =~= Seq::<(Seq<u8>, RegistryView)>::empty());
            assert(rec_pairs(e.records@) =~= Seq::<(Seq<u8>, RecordView)>::empty());
            assert(wal_pairs(e.wallets@) =~= Seq::<((Seq<u8>, Seq<u8>), u64)>::empty());
        }
        e
    }

    fn find_registry(&self, mint: &Identity) -> (r: Option<usize>)
        requires
            self.wf(),
        ensures
            (match r {
                Some(i) => {
                    &&& (i as int) < self.registries@.len()
                    &&& self.registries@[i as int].data.reward_mint@ == mint@
                    &&& self@.registries.contains_key(mint@)
                    &&& self@.registries[mint@] == self.registries@[i as int]@
                },
                None => !self@.registries.contains_key(mint@),
            }),
    {
        let mut i: usize = 0;
        while i < self.registries.len()
            invariant
                self.wf(),
                i <= self.registries.len(),
                forall|j: int| 0 <= j < i ==> self.registries@[j].data.reward_mint@ != mint@,
            decreases self.registries.len() - i,
        {
            if self.registries[i].data.reward_mint.same(mint) {
                proof {
                    lemma_assoc_index(reg_pairs(self.registries@), i as int);
                    assert(reg_pairs(self.registries@)[i as int] == (
                        self.registries@[i as int].data.reward_mint@,
                        self.registries@[i as int]@,
                    ));
                }
                return Some(i);
            }
            i += 1;
        }
        proof {
            lemma_assoc_contains(reg_pairs(self.registries@), mint@);
            assert forall|j: int|
                0 <= j < reg_pairs(self.registries@).len() implies reg_pairs(self.registries@)[j].0
                != mint@ by {
                assert(reg_pairs(self.registries@)[j].0 == self.registries@[j].data.reward_mint@);
            }
        }
        None
    }

    fn find_record(&self, provider: &Identity) -> (r: Option<usize>)
        requires
            self.wf(),
        ensures
            (match r {
                Some(i) => {
                    &&& (i as int) < self.records@.len()
                    &&& self.records@[i as int].provider@ == provider@
                    &&& self@.records.contains_key(provider@)
                    &&& self@.records[provider@] == self.records@[i as int]@
                },
                None => !self@.records.contains_key(provider@),
            }),
    {
        let mut i: usize = 0;
        while i < self.records.len()
            invariant
                self.wf(),
                i <= self.records.len(),
                forall|j: int| 0 <= j < i ==> self.records@[j].provider@ != provider@,
            decreases self.records.len() - i,
        {
            if self.records[i].provider.same(provider) {
                proof {
                    lemma_assoc_index(rec_pairs(self.records@), i as int);
                    assert(rec_pairs(self.records@)[i as int] == (
                        self.records@[i as int].provider@,
                        self.records@[i as int]@,
                    ));
                }
                return Some(i);
            }
            i += 1;
        }
        proof {
            lemma_assoc_contains(rec_pairs(self.records@), provider@);
            assert forall|j: int|
                0 <= j < rec_pairs(self.records@).len() implies rec_pairs(self.records@)[j].0
                != provider@ by {
                assert(rec_pairs(self.records@)[j].0 == self.records@[j].provider@);
            }
        }
        None
    }

    fn find_wallet(&self, owner: &Identity, mint: &Identity) -> (r: Option<usize>)
        requires
            self.wf(),
        ensures
            (match r {
                Some(i) => {
                    &&& (i as int) < self.wallets@.len()
                    &&& self.wallets@[i as int].owner@ == owner@
                    &&& self.wallets@[i as int].mint@ == mint@
                    &&& self@.wallets.contains_key((owner@, mint@))
                    &&& self@.wallets[(owner@, mint@)] == self.wallets@[i as int].amount
                },
                None => !self@.wallets.contains_key((owner@, mint@)),
            }),
    {
        let mut i: usize = 0;
        while i < self.wallets.len()
            invariant
                self.wf(),
                i <= self.wallets.len(),
                forall|j: int|
                    0 <= j < i ==> (self.wallets@[j].owner@, self.wallets@[j].mint@) != (
                    owner@,
                    mint@,
                    ),
            decreases self.wallets.len() - i,
        {
            if self.wallets[i].owner.same(owner) && self.wallets[i].mint.same(mint) {
                proof {
                    lemma_assoc_index(wal_pairs(self.wallets@), i as int);
                    assert(wal_pairs(self.wallets@)[i as int] == (
                        (self.wallets@[i as int].owner@, self.wallets@[i as int].mint@),
                        self.wallets@[i as int].amount,
                    ));
                }
                return Some(i);
            }
            i += 1;
        }
        proof {
            lemma_assoc_contains(wal_pairs(self.wallets@), (owner@, mint@));
            assert forall|j: int|
                0 <= j < wal_pairs(self.wallets@).len() implies wal_pairs(self.wallets@)[j].0 != (
                owner@,
                mint@,
            ) by {
                assert(wal_pairs(self.wallets@)[j].0 == (
                    self.wallets@[j].owner@,
                    self.wallets@[j].mint@,
                ));
            }
        }
        None
    }
    /// Create the registry and its empty vault for `token_type`, with the
    /// caller as administrator. Fails with `AlreadyExists` when the registry
    /// is already present, and with `DerivationFailed` when no address can be
    /// derived; every failure leaves the engine unchanged.
    pub fn initialize(&mut self, caller: &Identity, token_type: &Identity) -> (r: Result<
        (),
        ErrorCode,
    >)
        requires
            old(self).wf(),
        ensures
            final(self).wf(),
            (final(self)@, r) == spec_initialize(old(self)@, caller@, token_type@),
    {
        match self.find_registry(token_type) {
            Some(_) => {
                return Err(ErrorCode::AlreadyExists);
            },
            None => {},
        }
        let rd = derive_address("reward_data", token_type, &self.program);
        let vd = derive_address("reward_vault", token_type, &self.program);
        match (rd, vd) {
            (Some((_, reg_bump)), Some((vault_addr, vault_bump))) => {
                let entry = RegistryEntry {
                    data: RewardData {
                        admin: caller.dup(),
                        reward_mint: token_type.dup(),
                        reward_vault: vault_addr,
                        bump: reg_bump,
                        vault_bump: vault_bump,
                    },
                    vault_balance: 0,
                };
                let ghost old_pairs = reg_pairs(self.registries@);
                let ghost new_view = entry@;
                self.registries.push(entry);
                proof {
                    assert(reg_pairs(self.registries@) =~= old_pairs.push(
                        (token_type@, new_view),
                    ));
                    lemma_assoc_push(old_pairs, token_type@, new_view);
                    assert(self@ =~= spec_initialize(old(self)@, caller@, token_type@).0);
                }
                Ok(())
            },
            _ => Err(ErrorCode::DerivationFailed),
        }
    }

    /// The administrator of `token_type`'s registry creates the one record of
    /// `provider`, unclaimed, with entitlement `amount`. Fails with
    /// `InvalidMint`, `Unauthorized`, `AlreadyExists` or `DerivationFailed`;
    /// every failure leaves the engine unchanged.
    pub fn register_provider(
        &mut self,
        caller: &Identity,
        token_type: &Identity,
        provider: &Identity,
        amount: u64,
    ) -> (r: Result<(), ErrorCode>)
        requires
            old(self).wf(),
        ensures
            final(self).wf(),
            (final(self)@, r) == spec_register_provider(
                old(self)@,
                caller@,
                token_type@,
                provider@,
                amount,
            ),
    {
        let reg_idx = match self.find_registry(token_type) {
            Some(i) => i,
            None => {
                return Err(ErrorCode::InvalidMint);
            },
        };
        if !self.registries[reg_idx].data.admin.same(caller) {
            return Err(ErrorCode::Unauthorized);
        }
        match self.find_record(provider) {
            Some(_) => {
                return Err(ErrorCode::AlreadyExists);
            },
            None => {},
        }
        match derive_address("provider_data", provider, &self.program) {
            Some((_, bump)) => {
                let rec = ProviderData {
                    provider: provider.dup(),
                    reward_amount: amount,
                    claimed: false,
                    bump: bump,
                };
                let ghost old_pairs = rec_pairs(self.records@);
                let ghost new_view = rec@;
                self.records.push(rec);
                proof {
                    assert(rec_pairs(self.records@) =~= old_pairs.push((provider@, new_view)));
                    lemma_assoc_push(old_pairs, provider@, new_view);
                    assert(self@ =~= spec_register_provider(
                        old(self)@,
                        caller@,
                        token_type@,
                        provider@,
                        amount,
                    ).0);
                }
                Ok(())
            },
            None => Err(ErrorCode::DerivationFailed),
        }
    }

    /// The administrator replaces an unclaimed record's entitlement. Fails
    /// with `InvalidMint`, `Unauthorized`, `InvalidProvider` or
    /// `AlreadyClaimed`; every failure leaves the engine unchanged.
    pub fn update_reward(
        &mut self,
        caller: &Identity,
        token_type: &Identity,
        provider: &Identity,
        new_amount: u64,
    ) -> (r: Result<(), ErrorCode>)
        requires
            old(self).wf(),
        ensures
            final(self).wf(),
            (final(self)@, r) == spec_update_reward(
                old(self)@,
                caller@,
                token_type@,
                provider@,
                new_amount,
            ),
    {
        let reg_idx = match self.find_registry(token_type) {
            Some(i) => i,
            None => {
                return Err(ErrorCode::InvalidMint);
            },
        };
        if !self.registries[reg_idx].data.admin.same(caller) {
            return Err(ErrorCode::Unauthorized);
        }
        let rec_idx = match self.find_record(provider) {
            Some(i) => i,
            None => {
                return Err(ErrorCode::InvalidProvider);
            },
        };
        if self.records[rec_idx].claimed {
            return Err(ErrorCode::AlreadyClaimed);
        }
        let ghost old_pairs = rec_pairs(self.records@);
        let ghost old_view = self.records@[rec_idx as int]@;
        let prov = self.records[rec_idx].provider.dup();
        let bump = self.records[rec_idx].bump;
        self.records[rec_idx] = ProviderData {
            provider: prov,
            reward_amount: new_amount,
            claimed: false,
            bump: bump,
        };
        proof {
            let new_view = RecordView { reward_amount: new_amount, ..old_view };
            assert(old_pairs[rec_idx as int].0 == provider@);
            assert(rec_pairs(self.records@) =~= old_pairs.update(
                rec_idx as int,
                (provider@, new_view),
            ));
            lemma_assoc_update(old_pairs, rec_idx as int, new_view);
            assert(self@ =~= spec_update_reward(
                old(self)@,
                caller@,
                token_type@,
                provider@,
                new_amount,
            ).0);
        }
        Ok(())
    }

    /// The provider itself claims its entitlement once: the claimed flag
    /// flips first, then exactly the entitlement moves from the vault to the
    /// caller's receiving balance, created on demand. Fails with
    /// `InvalidMint`, `InvalidProvider`, `AlreadyClaimed`,
    /// `InsufficientFunds` or `BalanceOverflow`; every failure leaves the
    /// engine unchanged.
    pub fn claim_reward(&mut self, caller: &Identity, token_type: &Identity) -> (r: Result<
        (),
        ErrorCode,
    >)
        requires
            old(self).wf(),
        ensures
            final(self).wf(),
            (final(self)@, r) == spec_claim_reward(old(self)@, caller@, token_type@),
    {
        let reg_idx = match self.find_registry(token_type) {
            Some(i) => i,
            None => {
                return Err(ErrorCode::InvalidMint);
            },
        };
        let rec_idx = match self.find_record(caller) {
            Some(i) => i,
            None => {
                return Err(ErrorCode::InvalidProvider);
            },
        };
        if self.records[rec_idx].claimed {
            return Err(ErrorCode::AlreadyClaimed);
        }
        let amount = self.records[rec_idx].reward_amount;
        if self.registries[reg_idx].vault_balance < amount {
            return Err(ErrorCode::InsufficientFunds);
        }
        let wallet_idx = self.find_wallet(caller, token_type);
        let held: u64 = match wallet_idx {
            Some(w) => self.wallets[w].amount,
            None => 0,
        };
        if amount > u64::MAX - held {
            return Err(ErrorCode::BalanceOverflow);
        }
        // The claimed flag flips before any funds move.
        let ghost old_rec_pairs = rec_pairs(self.records@);
        let ghost old_rec_view = self.records@[rec_idx as int]@;
        let prov = self.records[rec_idx].provider.dup();
        let rec_bump = self.records[rec_idx].bump;
        self.records[rec_idx] = ProviderData {
            provider: prov,
            reward_amount: amount,
            claimed: true,
            bump: rec_bump,
        };
        proof {
            let new_rec_view = RecordView { claimed: true, ..old_rec_view };
            assert(old_rec_pairs[rec_idx as int].0 == caller@);
            assert(rec_pairs(self.records@) =~= old_rec_pairs.update(
                rec_idx as int,
                (caller@, new_rec_view),
            ));
            lemma_assoc_update(old_rec_pairs, rec_idx as int, new_rec_view);
        }
        // Debit the vault.
        let ghost old_reg_pairs = reg_pairs(self.registries@);
        let ghost old_reg_view = self.registries@[reg_idx as int]@;
        let new_entry = RegistryEntry {
            data: RewardData {
                admin: self.registries[reg_idx].data.admin.dup(),
                reward_mint: self.registries[reg_idx].data.reward_mint.dup(),
                reward_vault: self.registries[reg_idx].data.reward_vault.dup(),
                bump: self.registries[reg_idx].data.bump,
                vault_bump: self.registries[reg_idx].data.vault_bump,
            },
            vault_balance: self.registries[reg_idx].vault_balance - amount,
        };
        self.registries[reg_idx] = new_entry;
        proof {
            let new_reg_view = RegistryView {
                vault_balance: (old_reg_view.vault_balance - amount) as u64,
                ..old_reg_view
            };
            assert(old_reg_pairs[reg_idx as int].0 == token_type@);
            assert(reg_pairs(self.registries@) =~= old_reg_pairs.update(
                reg_idx as int,
                (token_type@, new_reg_view),
            ));
            lemma_assoc_update(old_reg_pairs, reg_idx as int, new_reg_view);
        }
        // Credit the caller's receiving balance, creating it on demand.
        let ghost old_wal_pairs = wal_pairs(self.wallets@);
        match wallet_idx {
            Some(w) => {
                let owner = self.wallets[w].owner.dup();
                let mint = self.wallets[w].mint.dup();
                self.wallets[w] = WalletCell { owner: owner, mint: mint, amount: held + amount };
                proof {
                    assert(old_wal_pairs[w as int].0 == (caller@, token_type@));
                    assert(wal_pairs(self.wallets@) =~= old_wal_pairs.update(
                        w as int,
                        ((caller@, token_type@), (held + amount) as u64),
                    ));
                    lemma_assoc_update(old_wal_pairs, w as int, (held + amount) as u64);
                }
            },
            None => {
                self.wallets.push(
                    WalletCell {
                        owner: caller.dup(),
                        mint: token_type.dup(),
                        amount: held + amount,
                    },
                );
                proof {
                    assert(wal_pairs(self.wallets@) =~= old_wal_pairs.push(
                        ((caller@, token_type@), (held + amount) as u64),
                    ));
                    lemma_assoc_push(old_wal_pairs, (caller@, token_type@), (held + amount) as u64);
                }
            },
        }
        proof {
            assert(self@ =~= spec_claim_reward(old(self)@, caller@, token_type@).0);
        }
        Ok(())
    }

    /// The external depositor credits `token_type`'s vault. Fails with
    /// `InvalidMint` or `BalanceOverflow`; every failure leaves the engine
    /// unchanged.
    pub fn deposit(&mut self, token_type: &Identity, amount: u64) -> (r: Result<(), ErrorCode>)
        requires
            old(self).wf(),
        ensures
            final(self).wf(),
            (final(self)@, r) == spec_deposit(old(self)@, token_type@, amount),
    {
        let reg_idx = match self.find_registry(token_type) {
            Some(i) => i,
            None => {
                return Err(ErrorCode::InvalidMint);
            },
        };
        if amount > u64::MAX - self.registries[reg_idx].vault_balance {
            return Err(ErrorCode::BalanceOverflow);
        }
        let ghost old_pairs = reg_pairs(self.registries@);
        let ghost old_view = self.registries@[reg_idx as int]@;
        let new_entry = RegistryEntry {
            data: RewardData {
                admin: self.registries[reg_idx].data.admin.dup(),
                reward_mint: self.registries[reg_idx].data.reward_mint.dup(),
                reward_vault: self.registries[reg_idx].data.reward_vault.dup(),
                bump: self.registries[reg_idx].data.bump,
                vault_bump: self.registries[reg_idx].data.vault_bump,
            },
            vault_balance: self.registries[reg_idx].vault_balance + amount,
        };
        self.registries[reg_idx] = new_entry;
        proof {
            let new_view = RegistryView {
                vault_balance: (old_view.vault_balance + amount) as u64,
                ..old_view
            };
            assert(old_pairs[reg_idx as int].0 == token_type@);
            assert(reg_pairs(self.registries@) =~= old_pairs.update(
                reg_idx as int,
                (token_type@, new_view),
            ));
            lemma_assoc_update(old_pairs, reg_idx as int, new_view);
            assert(self@ =~= spec_deposit(old(self)@, token_type@, amount).0);
        }
        Ok(())
    }

    /// The recorded registry for `token_type`, if one exists.
    pub fn get_registry(&self, token_type: &Identity) -> (r: Option<&RewardData>)
        requires
            self.wf(),
        ensures
            (match r {
                Some(rd) => {
                    &&& self@.registries.contains_key(token_type@)
                    &&& rd.admin@ == self@.registries[token_type@].admin
                    &&& rd.reward_mint@ == self@.registries[token_type@].reward_mint
                    &&& rd.reward_vault@ == self@.registries[token_type@].reward_vault
                    &&& rd.bump == self@.registries[token_type@].bump
                    &&& rd.vault_bump == self@.registries[token_type@].vault_bump
                },
                None => !self@.registries.contains_key(token_type@),
            }),
    {
        match self.find_registry(token_type) {
            Some(i) => Some(&self.registries[i].data),
            None => None,
        }
    }

    /// The balance `token_type`'s vault holds, if the registry exists.
    pub fn vault_balance(&self, token_type: &Identity) -> (r: Option<u64>)
        requires
            self.wf(),
        ensures
            (match r {
                Some(b) => self@.registries.contains_key(token_type@) && b
                    == self@.registries[token_type@].vault_balance,
                None => !self@.registries.contains_key(token_type@),
            }),
    {
        match self.find_registry(token_type) {
            Some(i) => Some(self.registries[i].vault_balance),
            None => None,
        }
    }

    /// The entitlement record of `provider`, if one exists.
    pub fn get_record(&self, provider: &Identity) -> (r: Option<&ProviderData>)
        requires
            self.wf(),
        ensures
            (match r {
                Some(rec) => self@.records.contains_key(provider@) && rec@
                    == self@.records[provider@],
                None => !self@.records.contains_key(provider@),
            }),
    {
        match self.find_record(provider) {
            Some(i) => Some(&self.records[i]),
            None => None,
        }
    }

    /// What `owner` holds of `mint`; a receiving account not yet created
    /// holds nothing.
    pub fn wallet_balance(&self, owner: &Identity, mint: &Identity) -> (r: u64)
        requires
            self.wf(),
        ensures
            r == spec_wallet_balance(self@, owner@, mint@),
    {
        match self.find_wallet(owner, mint) {
            Some(i) => self.wallets[i].amount,
            None => 0,
        }
    }
}

} // verus!
