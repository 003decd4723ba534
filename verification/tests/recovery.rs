use ghost_wallet::{Address, AuthContext, GhostWallet, TokenTransfer, WalletError};

#[test]
fn test_social_recover_with_email() {
    let mut wallet = GhostWallet::new();

    let owner = Address::new(1);
    let new_owner = Address::new(2);
    let recovery_email = String::from("user@example.com");

    wallet.initialize(owner, recovery_email.clone()).unwrap();

    let auth = AuthContext::new(vec![owner, new_owner]);
    wallet
        .social_recover(new_owner, recovery_email.clone(), vec![], &auth)
        .unwrap();

    assert_eq!(wallet.get_owner().unwrap(), new_owner);
}

#[test]
fn test_social_recover_with_guardian() {
    let mut wallet = GhostWallet::new();

    let owner = Address::new(1);
    let new_owner = Address::new(2);
    let guardian = Address::new(3);
    let recovery_email = String::from("user@example.com");

    wallet.initialize(owner, recovery_email).unwrap();
    let owner_auth = AuthContext::new(vec![owner]);
    wallet.update_guardian(guardian, true, &owner_auth).unwrap();

    let approvals = vec![guardian];
    let guardian_auth = AuthContext::new(vec![guardian]);
    wallet
        .social_recover(new_owner, String::from(""), approvals, &guardian_auth)
        .unwrap();

    assert_eq!(wallet.get_owner().unwrap(), new_owner);
}

#[test]
fn test_email_claim_takes_precedence() {
    let mut wallet = GhostWallet::new();
    let owner = Address::new(1);
    let new_owner = Address::new(2);
    let guardian = Address::new(3);
    wallet
        .initialize(owner, String::from("user@example.com"))
        .unwrap();
    let owner_auth = AuthContext::new(vec![owner]);
    wallet.update_guardian(guardian, true, &owner_auth).unwrap();

    // The claim matches, and a registered guardian is also offered as an
    // approver — but the caller has proven control of nothing.  Recovery
    // still succeeds: the email path decides first, so no guardian proof
    // is ever requested.
    let no_proof = AuthContext::none();
    wallet
        .social_recover(
            new_owner,
            String::from("user@example.com"),
            vec![guardian],
            &no_proof,
        )
        .unwrap();
    assert_eq!(wallet.get_owner().unwrap(), new_owner);
}

#[test]
fn test_recovery_denied_without_credentials() {
    let mut wallet = GhostWallet::new();
    let owner = Address::new(1);
    wallet
        .initialize(owner, String::from("user@example.com"))
        .unwrap();

    // Non-matching claim and no approvals at all.
    let r = wallet.social_recover(
        Address::new(2),
        String::from("wrong@example.com"),
        vec![],
        &AuthContext::none(),
    );
    assert_eq!(r, Err(WalletError::RecoveryDenied));
    assert_eq!(wallet.get_owner().unwrap(), owner);

    // An empty claim fails closed even though it is "equal to nothing".
    let r = wallet.social_recover(Address::new(2), String::from(""), vec![], &AuthContext::none());
    assert_eq!(r, Err(WalletError::RecoveryDenied));
    assert_eq!(wallet.get_owner().unwrap(), owner);
}

#[test]
fn test_recovery_denied_when_no_candidate_matches() {
    let mut wallet = GhostWallet::new();
    let owner = Address::new(1);
    let guardian = Address::new(3);
    wallet
        .initialize(owner, String::from("user@example.com"))
        .unwrap();
    let owner_auth = AuthContext::new(vec![owner]);
    wallet.update_guardian(guardian, true, &owner_auth).unwrap();

    // Candidates are offered, but none is a registered guardian.
    let outsider = Address::new(9);
    let r = wallet.social_recover(
        Address::new(2),
        String::from(""),
        vec![outsider],
        &AuthContext::new(vec![outsider]),
    );
    assert_eq!(r, Err(WalletError::RecoveryDenied));
    assert_eq!(wallet.get_owner().unwrap(), owner);
}

#[test]
fn test_matched_guardian_must_prove_control() {
    let mut wallet = GhostWallet::new();
    let owner = Address::new(1);
    let guardian = Address::new(3);
    wallet
        .initialize(owner, String::from("user@example.com"))
        .unwrap();
    let owner_auth = AuthContext::new(vec![owner]);
    wallet.update_guardian(guardian, true, &owner_auth).unwrap();

    // The first matching candidate is the one that must prove control;
    // without that proof the recovery is refused.
    let r = wallet.social_recover(
        Address::new(2),
        String::from(""),
        vec![guardian],
        &AuthContext::none(),
    );
    assert_eq!(r, Err(WalletError::NotAuthorized));
    assert_eq!(wallet.get_owner().unwrap(), owner);
}

#[test]
fn test_guardian_misconfiguration_is_fatal() {
    let mut wallet = GhostWallet::new();
    let owner = Address::new(1);
    wallet
        .initialize(owner, String::from("user@example.com"))
        .unwrap();

    // Approvals offered against a wallet with zero registered guardians:
    // a configuration error, distinct from a plain denial.
    let approver = Address::new(9);
    let r = wallet.social_recover(
        Address::new(2),
        String::from(""),
        vec![approver],
        &AuthContext::new(vec![approver]),
    );
    assert_eq!(r, Err(WalletError::GuardianSetEmpty));
    assert_eq!(wallet.get_owner().unwrap(), owner);
}

#[test]
fn test_update_guardian_idempotent() {
    let mut wallet = GhostWallet::new();
    let owner = Address::new(1);
    let guardian = Address::new(3);
    wallet
        .initialize(owner, String::from("user@example.com"))
        .unwrap();
    let owner_auth = AuthContext::new(vec![owner]);

    wallet.update_guardian(guardian, true, &owner_auth).unwrap();
    wallet.update_guardian(guardian, true, &owner_auth).unwrap();
    // Striking the guardian once undoes the double registration entirely:
    // afterwards the approval flow sees an empty guardian set.
    wallet.update_guardian(guardian, false, &owner_auth).unwrap();
    wallet.update_guardian(guardian, false, &owner_auth).unwrap();

    let r = wallet.social_recover(
        Address::new(2),
        String::from(""),
        vec![guardian],
        &AuthContext::new(vec![guardian]),
    );
    assert_eq!(r, Err(WalletError::GuardianSetEmpty));
}

#[test]
fn test_forward_balance_with_email_claim() {
    let mut wallet = GhostWallet::new();
    let owner = Address::new(1);
    let token = Address::new(40);
    let destination = Address::new(50);
    wallet
        .initialize(owner, String::from("user@example.com"))
        .unwrap();

    let transfer = wallet
        .forward_balance(
            token,
            String::from("XLM"),
            destination,
            String::from("user@example.com"),
            &AuthContext::none(),
            777,
        )
        .unwrap();
    assert_eq!(
        transfer,
        TokenTransfer {
            token,
            to: destination,
            amount: 777
        }
    );
    assert_eq!(wallet.get_last_forward_recipient(), Some(destination));
}

#[test]
fn test_forward_balance_owner_fallback() {
    let mut wallet = GhostWallet::new();
    let owner = Address::new(1);
    wallet
        .initialize(owner, String::from("user@example.com"))
        .unwrap();

    // No claim, but the owner has proven control: the fallback path.
    let transfer = wallet
        .forward_balance(
            Address::new(40),
            String::from("USDC"),
            Address::new(50),
            String::from(""),
            &AuthContext::new(vec![owner]),
            5,
        )
        .unwrap();
    assert_eq!(transfer.amount, 5);

    // Neither claim nor owner proof: refused before the balance matters.
    let r = wallet.forward_balance(
        Address::new(40),
        String::from("USDC"),
        Address::new(51),
        String::from(""),
        &AuthContext::none(),
        5,
    );
    assert_eq!(r, Err(WalletError::NotAuthorized));
    assert_eq!(wallet.get_last_forward_recipient(), Some(Address::new(50)));
}

#[test]
fn test_scenario_full_lifecycle() {
    let mut wallet = GhostWallet::new();
    let owner = Address::new(1);
    let new_owner = Address::new(2);
    let guardian = Address::new(3);

    wallet.initialize(owner, String::from("u@x.com")).unwrap();
    assert_eq!(
        wallet.get_allowed_assets().unwrap(),
        vec![
            String::from("XLM"),
            String::from("USDC"),
            String::from("PYUSD")
        ]
    );

    let owner_auth = AuthContext::new(vec![owner]);
    wallet.update_guardian(guardian, true, &owner_auth).unwrap();
    wallet
        .social_recover(
            new_owner,
            String::from(""),
            vec![guardian],
            &AuthContext::new(vec![guardian]),
        )
        .unwrap();
    assert_eq!(wallet.get_owner().unwrap(), new_owner);

    // A sweep of a zero balance fails and leaves no audit marker.
    let r = wallet.forward_balance(
        Address::new(40),
        String::from("XLM"),
        Address::new(50),
        String::from("u@x.com"),
        &AuthContext::none(),
        0,
    );
    assert_eq!(r, Err(WalletError::NothingToForward));
    assert_eq!(wallet.get_last_forward_recipient(), None);

    // A withdrawal of an unlisted asset is refused, so no transfer
    // instruction is ever produced.
    let r = wallet.withdraw(
        Address::new(40),
        String::from("DOGE"),
        10,
        Address::new(51),
        &AuthContext::new(vec![new_owner]),
    );
    assert_eq!(r, Err(WalletError::AssetNotAllowed));
}
