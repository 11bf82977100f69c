use multisig_core::{transfer, TreasuryError, TreasuryState, Vault};

#[test]
fn register_vault_counts_up() {
    let mut state = TreasuryState::default();
    assert_eq!(state.register_vault(), Ok(1));
    assert_eq!(state.register_vault(), Ok(2));
    assert_eq!(state.vault_count, 2);
}

#[test]
fn register_vault_stops_at_the_limit() {
    let mut state = TreasuryState { vault_count: u64::MAX };
    assert_eq!(state.register_vault(), Err(TreasuryError::TooManyVaults));
    assert_eq!(state.vault_count, u64::MAX);
}

#[test]
fn deposit_and_withdraw() {
    let mut vault = Vault::open("ops".to_string());
    assert_eq!(vault.name, "ops");
    assert_eq!(vault.deposit(70), Ok(()));
    assert_eq!(vault.withdraw(20), Ok(()));
    assert_eq!(vault.balance, 50);
    assert_eq!(vault.withdraw(51), Err(TreasuryError::InsufficientBalance));
    assert_eq!(vault.balance, 50);
}

#[test]
fn deposit_saturates() {
    let mut vault = Vault::open("big".to_string());
    vault.deposit(u64::MAX - 1).unwrap();
    vault.deposit(5).unwrap();
    assert_eq!(vault.balance, u64::MAX);
}

#[test]
fn uninitialized_vault_is_refused() {
    let mut vault = Vault::default();
    assert_eq!(vault.deposit(1), Err(TreasuryError::VaultNotInitialized));
    assert_eq!(vault.withdraw(0), Err(TreasuryError::VaultNotInitialized));
    assert_eq!(vault.balance, 0);
}

#[test]
fn transfer_between_vaults() {
    let mut a = Vault::open("a".to_string());
    let mut b = Vault::open("b".to_string());
    a.deposit(30).unwrap();
    assert_eq!(transfer(&mut a, &mut b, 12), Ok(()));
    assert_eq!((a.balance, b.balance), (18, 12));
    assert_eq!(transfer(&mut a, &mut b, 19), Err(TreasuryError::InsufficientBalance));
    assert_eq!((a.balance, b.balance), (18, 12));
}

#[test]
fn transfer_to_uninitialized_vault_changes_nothing() {
    let mut a = Vault::open("a".to_string());
    let mut b = Vault::default();
    a.deposit(30).unwrap();
    assert_eq!(transfer(&mut a, &mut b, 10), Err(TreasuryError::DestinationNotInitialized));
    assert_eq!((a.balance, b.balance), (30, 0));
    assert_eq!(transfer(&mut b, &mut a, 0), Err(TreasuryError::VaultNotInitialized));
}

#[test]
fn treasury_state_seed_holds_the_tag() {
    let s = multisig_core::treasury_state_pda_seed();
    assert_eq!(&s[..14], b"treasury_state");
    assert!(s[14..].iter().all(|b| *b == 0));
}

#[test]
fn vault_seed_takes_at_most_sixteen_name_bytes() {
    let s = multisig_core::vault_pda_seed("ab");
    assert_eq!(&s[..5], b"abult");
    let s = multisig_core::vault_pda_seed("a-very-long-vault-name");
    assert_eq!(&s[..16], b"a-very-long-vaul");
    assert!(s[16..].iter().all(|b| *b == 0));
    let s = multisig_core::vault_pda_seed("");
    assert_eq!(&s[..5], b"vault");
}
