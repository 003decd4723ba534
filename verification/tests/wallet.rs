use ghost_wallet::{Address, AuthContext, DataKey, GhostWallet, TokenTransfer, WalletError};

#[test]
fn test_initialize() {
    let mut wallet = GhostWallet::new();

    let owner = Address::new(1);
    let recovery_email = String::from("user@example.com");

    wallet.initialize(owner, recovery_email.clone()).unwrap();

    assert_eq!(wallet.get_owner().unwrap(), owner);
    assert_eq!(wallet.get_recovery_email().unwrap(), recovery_email);
    let allowed = wallet.get_allowed_assets().unwrap();
    assert!(allowed.iter().any(|code| code == "XLM"));
}

#[test]
fn test_transfer_ownership() {
    let mut wallet = GhostWallet::new();

    let owner = Address::new(1);
    let new_owner = Address::new(2);
    let recovery_email = String::from("user@example.com");

    wallet.initialize(owner, recovery_email).unwrap();
    let auth = AuthContext::new(vec![owner]);
    wallet.transfer_ownership(new_owner, &auth).unwrap();

    assert_eq!(wallet.get_owner().unwrap(), new_owner);
}

#[test]
fn test_initialize_twice_fails() {
    let mut wallet = GhostWallet::new();
    let owner = Address::new(1);
    wallet
        .initialize(owner, String::from("user@example.com"))
        .unwrap();

    let second = wallet.initialize(Address::new(9), String::from("other@example.com"));
    assert_eq!(second, Err(WalletError::AlreadyInitialized));

    assert_eq!(wallet.get_owner().unwrap(), owner);
    assert_eq!(
        wallet.get_recovery_email().unwrap(),
        String::from("user@example.com")
    );
    assert_eq!(
        wallet.get_allowed_assets().unwrap(),
        vec![
            String::from("XLM"),
            String::from("USDC"),
            String::from("PYUSD")
        ]
    );
}

#[test]
fn test_uninitialized_operations_fail() {
    let mut wallet = GhostWallet::new();
    let auth = AuthContext::new(vec![Address::new(1)]);

    assert_eq!(wallet.get_owner(), Err(WalletError::NotInitialized));
    assert_eq!(wallet.get_recovery_email(), Err(WalletError::NotInitialized));
    assert_eq!(
        wallet.get_allowed_assets(),
        Err(WalletError::NotInitialized)
    );
    assert_eq!(
        wallet.transfer_ownership(Address::new(2), &auth),
        Err(WalletError::NotInitialized)
    );
    assert_eq!(
        wallet.update_allowed_asset(String::from("XLM"), true, &auth),
        Err(WalletError::NotInitialized)
    );
    assert_eq!(
        wallet.update_guardian(Address::new(3), true, &auth),
        Err(WalletError::NotInitialized)
    );
    assert_eq!(
        wallet.withdraw(Address::new(4), String::from("XLM"), 10, Address::new(5), &auth),
        Err(WalletError::NotInitialized)
    );
    assert_eq!(
        wallet.social_recover(Address::new(2), String::from(""), vec![], &auth),
        Err(WalletError::NotInitialized)
    );
    assert_eq!(
        wallet.forward_balance(
            Address::new(4),
            String::from("XLM"),
            Address::new(5),
            String::from(""),
            &auth,
            100
        ),
        Err(WalletError::NotInitialized)
    );
}

#[test]
fn test_update_allowed_asset_idempotent() {
    let mut wallet = GhostWallet::new();
    let owner = Address::new(1);
    wallet
        .initialize(owner, String::from("user@example.com"))
        .unwrap();
    let auth = AuthContext::new(vec![owner]);

    wallet
        .update_allowed_asset(String::from("DAI"), true, &auth)
        .unwrap();
    let once = wallet.get_allowed_assets().unwrap();
    wallet
        .update_allowed_asset(String::from("DAI"), true, &auth)
        .unwrap();
    let twice = wallet.get_allowed_assets().unwrap();
    assert_eq!(once, twice);
    assert_eq!(
        twice,
        vec![
            String::from("XLM"),
            String::from("USDC"),
            String::from("PYUSD"),
            String::from("DAI")
        ]
    );

    // Removing an absent entry is a no-op.
    wallet
        .update_allowed_asset(String::from("DOGE"), false, &auth)
        .unwrap();
    assert_eq!(wallet.get_allowed_assets().unwrap(), twice);
}

#[test]
fn test_removal_preserves_order() {
    let mut wallet = GhostWallet::new();
    let owner = Address::new(1);
    wallet
        .initialize(owner, String::from("user@example.com"))
        .unwrap();
    let auth = AuthContext::new(vec![owner]);

    wallet
        .update_allowed_asset(String::from("USDC"), false, &auth)
        .unwrap();
    assert_eq!(
        wallet.get_allowed_assets().unwrap(),
        vec![String::from("XLM"), String::from("PYUSD")]
    );
}

#[test]
fn test_update_requires_owner_proof() {
    let mut wallet = GhostWallet::new();
    let owner = Address::new(1);
    wallet
        .initialize(owner, String::from("user@example.com"))
        .unwrap();

    let stranger_auth = AuthContext::new(vec![Address::new(7)]);
    assert_eq!(
        wallet.update_allowed_asset(String::from("DAI"), true, &stranger_auth),
        Err(WalletError::NotAuthorized)
    );
    assert_eq!(
        wallet.transfer_ownership(Address::new(7), &stranger_auth),
        Err(WalletError::NotAuthorized)
    );
    assert_eq!(
        wallet.update_guardian(Address::new(8), true, &stranger_auth),
        Err(WalletError::NotAuthorized)
    );
    assert_eq!(wallet.get_owner().unwrap(), owner);
    assert_eq!(
        wallet.get_allowed_assets().unwrap(),
        vec![
            String::from("XLM"),
            String::from("USDC"),
            String::from("PYUSD")
        ]
    );
}

#[test]
fn test_withdraw_returns_transfer_instruction() {
    let mut wallet = GhostWallet::new();
    let owner = Address::new(1);
    wallet
        .initialize(owner, String::from("user@example.com"))
        .unwrap();
    let auth = AuthContext::new(vec![owner]);

    let token = Address::new(40);
    let to = Address::new(41);
    let transfer = wallet
        .withdraw(token, String::from("USDC"), 250, to, &auth)
        .unwrap();
    assert_eq!(
        transfer,
        TokenTransfer {
            token,
            to,
            amount: 250
        }
    );
}

#[test]
fn test_withdraw_rejects_unlisted_asset() {
    let mut wallet = GhostWallet::new();
    let owner = Address::new(1);
    wallet
        .initialize(owner, String::from("user@example.com"))
        .unwrap();
    let auth = AuthContext::new(vec![owner]);

    assert_eq!(
        wallet.withdraw(Address::new(40), String::from("DOGE"), 10, Address::new(41), &auth),
        Err(WalletError::AssetNotAllowed)
    );
    // Membership is exact and case-sensitive: no normalization happens.
    assert_eq!(
        wallet.withdraw(Address::new(40), String::from("xlm"), 10, Address::new(41), &auth),
        Err(WalletError::AssetNotAllowed)
    );
}

#[test]
fn test_has_field_tracks_record_lifecycle() {
    let mut wallet = GhostWallet::new();
    assert!(!wallet.has_field(DataKey::IsInitialized));
    assert!(!wallet.has_field(DataKey::Owner));
    assert!(!wallet.has_field(DataKey::RecoveryEmail));
    assert!(!wallet.has_field(DataKey::AllowedAssets));
    assert!(!wallet.has_field(DataKey::Guardians));
    assert!(!wallet.has_field(DataKey::AllowedRecipient));
    assert!(!wallet.has_field(DataKey::Balance));

    wallet
        .initialize(Address::new(1), String::from("user@example.com"))
        .unwrap();
    assert!(wallet.has_field(DataKey::IsInitialized));
    assert!(wallet.has_field(DataKey::Owner));
    assert!(wallet.has_field(DataKey::RecoveryEmail));
    assert!(wallet.has_field(DataKey::AllowedAssets));
    assert!(wallet.has_field(DataKey::Guardians));
    assert!(!wallet.has_field(DataKey::AllowedRecipient));
    assert!(!wallet.has_field(DataKey::Balance));
}

#[test]
fn test_error_descriptions_are_distinct() {
    let errors = [
        WalletError::NotInitialized,
        WalletError::AlreadyInitialized,
        WalletError::NotAuthorized,
        WalletError::AssetNotAllowed,
        WalletError::RecoveryDenied,
        WalletError::GuardianSetEmpty,
        WalletError::NothingToForward,
    ];
    for (i, a) in errors.iter().enumerate() {
        assert!(!a.describe().is_empty());
        for b in errors.iter().skip(i + 1) {
            assert_ne!(a.describe(), b.describe());
        }
    }
}
