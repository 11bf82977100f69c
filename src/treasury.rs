//! A simple treasury: named vaults that keep an internal balance.
use vstd::prelude::*;

use vstd::string::StringSliceAdditionalSpecFns;

use crate::ids::PdaSeed;

verus! {

/// The treasury's own record.
#[derive(Clone, Debug, Default)]
pub struct TreasuryState {
    /// How many vaults have been created.
    pub vault_count: u64,
}

/// One vault of the treasury.
#[derive(Clone, Debug, Default)]
pub struct Vault {
    pub name: String,
    pub balance: u64,
    /// Whether the vault has been set up.
    pub initialized: bool,
}

/// Why a treasury operation was refused.
#[derive(Clone, Copy, Debug, PartialEq, Eq, Structural)]
pub enum TreasuryError {
    /// The vault (the source, for a transfer) has not been set up.
    VaultNotInitialized,
    /// The destination vault of a transfer has not been set up.
    DestinationNotInitialized,
    /// The vault holds less than the amount asked for.
    InsufficientBalance,
    /// The vault counter cannot grow any further.
    TooManyVaults,
}

impl TreasuryState {
    /// Counts one more vault and returns the new count.
    pub fn register_vault(&mut self) -> (r: Result<u64, TreasuryError>)
        ensures
            old(self).vault_count < u64::MAX ==> r == Ok::<u64, TreasuryError>(
                (old(self).vault_count + 1) as u64,
            ) && final(self).vault_count == old(self).vault_count + 1,
            old(self).vault_count == u64::MAX ==> r == Err::<u64, TreasuryError>(
                TreasuryError::TooManyVaults,
            ) && final(self).vault_count == old(self).vault_count,
    {
        if self.vault_count == u64::MAX {
            return Err(TreasuryError::TooManyVaults);
        }
        self.vault_count = self.vault_count + 1;
        Ok(self.vault_count)
    }
}

impl Vault {
    /// A set-up vault named `name`, holding nothing.
    pub fn open(name: String) -> (r: Self)
        ensures
            r.name@ == name@,
            r.balance == 0,
            r.initialized,
    {
        Vault { name, balance: 0, initialized: true }
    }

    /// Credits `amount`; the balance stops at the largest value it can hold.
    pub fn deposit(&mut self, amount: u64) -> (r: Result<(), TreasuryError>)
        ensures
            final(self).name == old(self).name,
            final(self).initialized == old(self).initialized,
            old(self).initialized ==> r is Ok && final(self).balance == if old(self).balance + amount
                > u64::MAX {
                u64::MAX as int
            } else {
                old(self).balance + amount
            },
            !old(self).initialized ==> r == Err::<(), TreasuryError>(TreasuryError::VaultNotInitialized)
                && final(self).balance == old(self).balance,
    {
        if !self.initialized {
            return Err(TreasuryError::VaultNotInitialized);
        }
        self.balance = self.balance.saturating_add(amount);
        Ok(())
    }

    /// Debits `amount` if the vault holds that much.
    pub fn withdraw(&mut self, amount: u64) -> (r: Result<(), TreasuryError>)
        ensures
            final(self).name == old(self).name,
            final(self).initialized == old(self).initialized,
            match r {
                Ok(_) => old(self).initialized && amount <= old(self).balance && final(self).balance
                    == old(self).balance - amount,
                Err(e) => final(self).balance == old(self).balance && if !old(self).initialized {
                    e == TreasuryError::VaultNotInitialized
                } else {
                    e == TreasuryError::InsufficientBalance && amount > old(self).balance
                },
            },
    {
        if !self.initialized {
            return Err(TreasuryError::VaultNotInitialized);
        }
        if self.balance < amount {
            return Err(TreasuryError::InsufficientBalance);
        }
        self.balance = self.balance - amount;
        Ok(())
    }
}

/// Moves `amount` from one vault to another; nothing changes unless both
/// are set up and the source holds the amount. The destination's balance
/// stops at the largest value it can hold.
pub fn transfer(from: &mut Vault, to: &mut Vault, amount: u64) -> (r: Result<(), TreasuryError>)
    ensures
        final(from).name == old(from).name,
        final(from).initialized == old(from).initialized,
        final(to).name == old(to).name,
        final(to).initialized == old(to).initialized,
        match r {
            Ok(_) => {
                &&& old(from).initialized && old(to).initialized
                &&& amount <= old(from).balance
                &&& final(from).balance == old(from).balance - amount
                &&& final(to).balance == if old(to).balance + amount > u64::MAX {
                    u64::MAX as int
                } else {
                    old(to).balance + amount
                }
            },
            Err(e) => {
                &&& final(from).balance == old(from).balance
                &&& final(to).balance == old(to).balance
                &&& e == if !old(from).initialized {
                    TreasuryError::VaultNotInitialized
                } else if amount > old(from).balance {
                    TreasuryError::InsufficientBalance
                } else {
                    TreasuryError::DestinationNotInitialized
                }
                &&& (e is DestinationNotInitialized ==> !old(to).initialized)
            },
        },
{
    if !from.initialized {
        return Err(TreasuryError::VaultNotInitialized);
    }
    if from.balance < amount {
        return Err(TreasuryError::InsufficientBalance);
    }
    if !to.initialized {
        return Err(TreasuryError::DestinationNotInitialized);
    }
    from.balance = from.balance - amount;
    to.balance = to.balance.saturating_add(amount);
    Ok(())
}

/// The ASCII tag `treasury_state`, padded with zeros.
pub open spec fn treasury_state_tag() -> Seq<u8> {
    seq![
        116u8, 114, 101, 97, 115, 117, 114, 121, 95, 115, 116, 97, 116, 101, 0, 0,
        0, 0, 0, 0, 0, 0, 0, 0, 0, 0, 0, 0, 0, 0, 0, 0,
    ]
}

/// The ASCII tag `vault`, padded with zeros.
pub open spec fn vault_tag() -> Seq<u8> {
    seq![
        118u8, 97, 117, 108, 116, 0, 0, 0, 0, 0, 0, 0, 0, 0, 0, 0,
        0, 0, 0, 0, 0, 0, 0, 0, 0, 0, 0, 0, 0, 0, 0, 0,
    ]
}

/// The seed of a vault: the vault tag with its first bytes, at most 16,
/// replaced by the bytes of the vault's name.
pub open spec fn vault_seed(name: Seq<u8>) -> Seq<u8> {
    Seq::new(32, |i: int| if i < 16 && i < name.len() { name[i] } else { vault_tag()[i] })
}

/// The seed of the treasury's own record.
pub fn treasury_state_pda_seed() -> (r: PdaSeed)
    ensures
        r@ == treasury_state_tag(),
{
    let r: [u8; 32] = [
        116u8, 114, 101, 97, 115, 117, 114, 121, 95, 115, 116, 97, 116, 101, 0, 0,
        0, 0, 0, 0, 0, 0, 0, 0, 0, 0, 0, 0, 0, 0, 0, 0,
    ];
    assert(r@ =~= treasury_state_tag());
    r
}

/// The seed of the vault named `vault_name`.
pub fn vault_pda_seed(vault_name: &str) -> (r: PdaSeed)
    ensures
        r@ == vault_seed(vault_name.spec_bytes()),
{
    let name = vault_name.as_bytes();
    let mut seed: [u8; 32] = [
        118u8, 97, 117, 108, 116, 0, 0, 0, 0, 0, 0, 0, 0, 0, 0, 0,
        0, 0, 0, 0, 0, 0, 0, 0, 0, 0, 0, 0, 0, 0, 0, 0,
    ];
    assert(seed@ =~= vault_tag());
    let mut i: usize = 0;
    while i < 16 && i < name.len()
        invariant
            0 <= i <= 16,
            i <= name@.len(),
            name@ == vault_name.spec_bytes(),
            forall|j: int| 0 <= j < i ==> #[trigger] seed@[j] == name@[j],
            forall|j: int| i <= j < 32 ==> #[trigger] seed@[j] == vault_tag()[j],
        decreases 16 - i,
    {
        seed.set(i, name[i]);
        i = i + 1;
    }
    assert(seed@ =~= vault_seed(vault_name.spec_bytes()));
    seed
}

} // verus!
