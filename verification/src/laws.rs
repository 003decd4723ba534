use vstd::prelude::*;

use crate::error::WalletError;
use crate::model::{
    claim_matches, spec_forward_balance, spec_get_allowed_assets, spec_get_owner,
    spec_get_recovery_email, spec_initialize, spec_social_recover, spec_transfer_ownership,
    spec_update_allowed_asset, spec_update_guardian, spec_withdraw, WalletModel,
};
use crate::seq_util::{
    lemma_insert_idempotent, lemma_insert_membership, lemma_remove_absent_noop,
    lemma_remove_idempotent, lemma_remove_membership, lemma_remove_preserves_order, remove_val,
    surviving_index,
};
use crate::types::{Address, TokenTransfer};

verus! {

/// Initialization is one-shot: after a successful `initialize`, a second
/// call always fails with `AlreadyInitialized` and leaves the record
/// exactly as the first call left it.
pub proof fn lemma_initialize_at_most_once(
    m: WalletModel,
    owner1: Address,
    email1: Seq<char>,
    owner2: Address,
    email2: Seq<char>,
)
    requires
        spec_initialize(m, owner1, email1).1 is Ok,
    ensures
        spec_initialize(spec_initialize(m, owner1, email1).0, owner2, email2).1 == Err::<
            (),
            WalletError,
        >(WalletError::AlreadyInitialized),
        spec_initialize(spec_initialize(m, owner1, email1).0, owner2, email2).0 == spec_initialize(
            m,
            owner1,
            email1,
        ).0,
{
}

/// Once the record is initialized, no operation ever clears the flag.
pub proof fn lemma_initialized_is_permanent(
    m: WalletModel,
    owner: Address,
    email: Seq<char>,
    new_owner: Address,
    code: Seq<char>,
    allow: bool,
    guardian: Address,
    token: Address,
    destination: Address,
    claim: Seq<char>,
    approvals: Seq<Address>,
    auth: Seq<Address>,
    balance: i128,
)
    requires
        m.initialized,
    ensures
        spec_initialize(m, owner, email).0.initialized,
        spec_transfer_ownership(m, new_owner, auth).0.initialized,
        spec_update_allowed_asset(m, code, allow, auth).0.initialized,
        spec_update_guardian(m, guardian, allow, auth).0.initialized,
        spec_social_recover(m, new_owner, claim, approvals, auth).0.initialized,
        spec_forward_balance(m, token, code, destination, claim, auth, balance).0.initialized,
{
}

/// On an uninitialized wallet every read and every mutating operation
/// except `initialize` fails with `NotInitialized` and changes nothing.
pub proof fn lemma_uninitialized_rejects_everything(
    m: WalletModel,
    new_owner: Address,
    code: Seq<char>,
    allow: bool,
    guardian: Address,
    token: Address,
    amount: i128,
    to: Address,
    destination: Address,
    claim: Seq<char>,
    approvals: Seq<Address>,
    auth: Seq<Address>,
    balance: i128,
)
    requires
        m.wf(),
        !m.initialized,
    ensures
        spec_get_owner(m) == Err::<Address, WalletError>(WalletError::NotInitialized),
        spec_get_recovery_email(m) == Err::<Seq<char>, WalletError>(WalletError::NotInitialized),
        spec_get_allowed_assets(m) == Err::<Seq<Seq<char>>, WalletError>(
            WalletError::NotInitialized,
        ),
        spec_transfer_ownership(m, new_owner, auth) == (
            m,
            Err::<(), WalletError>(WalletError::NotInitialized),
        ),
        spec_update_allowed_asset(m, code, allow, auth) == (
            m,
            Err::<(), WalletError>(WalletError::NotInitialized),
        ),
        spec_update_guardian(m, guardian, allow, auth) == (
            m,
            Err::<(), WalletError>(WalletError::NotInitialized),
        ),
        spec_withdraw(m, token, code, amount, to, auth) == Err::<TokenTransfer, WalletError>(
            WalletError::NotInitialized,
        ),
        spec_social_recover(m, new_owner, claim, approvals, auth) == (
            m,
            Err::<(), WalletError>(WalletError::NotInitialized),
        ),
        spec_forward_balance(m, token, code, destination, claim, auth, balance) == (
            m,
            Err::<TokenTransfer, WalletError>(WalletError::NotInitialized),
        ),
{
}

/// Toggling allow-list membership is idempotent: a second identical
/// `update_allowed_asset` leaves the record exactly as the first did,
/// whether it adds, removes, or was refused.
pub proof fn lemma_update_allowed_asset_idempotent(
    m: WalletModel,
    code: Seq<char>,
    allow: bool,
    auth: Seq<Address>,
)
    ensures
        spec_update_allowed_asset(
            spec_update_allowed_asset(m, code, allow, auth).0,
            code,
            allow,
            auth,
        ).0 == spec_update_allowed_asset(m, code, allow, auth).0,
{
    let m1 = spec_update_allowed_asset(m, code, allow, auth).0;
    if m.initialized {
        match m.owner {
            Some(owner) => {
                if auth.contains(owner) {
                    if allow {
                        lemma_insert_idempotent(m.allowed_assets, code);
                    } else {
                        lemma_remove_idempotent(m.allowed_assets, code);
                    }
                    assert(spec_update_allowed_asset(m1, code, allow, auth).0 =~= m1);
                }
            },
            None => {},
        }
    }
}

/// An update that asks for a state the allow-list is already in changes
/// nothing: adding a present code, or removing an absent one, leaves the
/// whole record exactly as it was.
pub proof fn lemma_update_allowed_asset_noop(m: WalletModel, code: Seq<char>, auth: Seq<Address>)
    ensures
        m.allowed_assets.contains(code) ==> spec_update_allowed_asset(m, code, true, auth).0 == m,
        !m.allowed_assets.contains(code) ==> spec_update_allowed_asset(m, code, false, auth).0
            == m,
{
    if m.allowed_assets.contains(code) {
        assert(spec_update_allowed_asset(m, code, true, auth).0 =~= m);
    } else {
        lemma_remove_absent_noop(m.allowed_assets, code);
        assert(spec_update_allowed_asset(m, code, false, auth).0 =~= m);
    }
}

/// The same no-op rule for guardian registration.
pub proof fn lemma_update_guardian_noop(m: WalletModel, guardian: Address, auth: Seq<Address>)
    ensures
        m.guardians.contains(guardian) ==> spec_update_guardian(m, guardian, true, auth).0 == m,
        !m.guardians.contains(guardian) ==> spec_update_guardian(m, guardian, false, auth).0 == m,
{
    if !m.guardians.contains(guardian) {
        lemma_remove_absent_noop(m.guardians, guardian);
        assert(spec_update_guardian(m, guardian, false, auth).0 =~= m);
    } else {
        assert(spec_update_guardian(m, guardian, true, auth).0 =~= m);
    }
}

/// Toggling guardian registration is idempotent in the same way.
pub proof fn lemma_update_guardian_idempotent(
    m: WalletModel,
    guardian: Address,
    allow: bool,
    auth: Seq<Address>,
)
    ensures
        spec_update_guardian(spec_update_guardian(m, guardian, allow, auth).0, guardian, allow, auth).0
            == spec_update_guardian(m, guardian, allow, auth).0,
{
    let m1 = spec_update_guardian(m, guardian, allow, auth).0;
    if m.initialized {
        match m.owner {
            Some(owner) => {
                if auth.contains(owner) {
                    if allow {
                        lemma_insert_idempotent(m.guardians, guardian);
                    } else {
                        lemma_remove_idempotent(m.guardians, guardian);
                    }
                    assert(spec_update_guardian(m1, guardian, allow, auth).0 =~= m1);
                }
            },
            None => {},
        }
    }
}

/// What an authorized allow-list toggle does to membership: afterwards
/// the toggled code is present exactly when it was being added, and the
/// membership of every other code is untouched.
pub proof fn lemma_update_allowed_asset_membership(
    m: WalletModel,
    code: Seq<char>,
    allow: bool,
    auth: Seq<Address>,
    other: Seq<char>,
)
    requires
        spec_update_allowed_asset(m, code, allow, auth).1 is Ok,
    ensures
        spec_update_allowed_asset(m, code, allow, auth).0.allowed_assets.contains(code) == allow,
        other != code ==> spec_update_allowed_asset(m, code, allow, auth).0.allowed_assets.contains(
            other,
        ) == m.allowed_assets.contains(other),
{
    if allow {
        lemma_insert_membership(m.allowed_assets, code, code);
        lemma_insert_membership(m.allowed_assets, code, other);
    } else {
        lemma_remove_membership(m.allowed_assets, code, code);
        lemma_remove_membership(m.allowed_assets, code, other);
    }
}

/// What an authorized guardian toggle does to membership, in the same
/// way.
pub proof fn lemma_update_guardian_membership(
    m: WalletModel,
    guardian: Address,
    allow: bool,
    auth: Seq<Address>,
    other: Address,
)
    requires
        spec_update_guardian(m, guardian, allow, auth).1 is Ok,
    ensures
        spec_update_guardian(m, guardian, allow, auth).0.guardians.contains(guardian) == allow,
        other != guardian ==> spec_update_guardian(m, guardian, allow, auth).0.guardians.contains(
            other,
        ) == m.guardians.contains(other),
{
    if allow {
        lemma_insert_membership(m.guardians, guardian, guardian);
        lemma_insert_membership(m.guardians, guardian, other);
    } else {
        lemma_remove_membership(m.guardians, guardian, guardian);
        lemma_remove_membership(m.guardians, guardian, other);
    }
}

/// Removing an asset code preserves the relative order of the remaining
/// codes: any two surviving entries reappear in the same order, at the
/// positions `surviving_index` names.
pub proof fn lemma_asset_removal_preserves_order(
    m: WalletModel,
    code: Seq<char>,
    auth: Seq<Address>,
    i: int,
    j: int,
)
    requires
        spec_update_allowed_asset(m, code, false, auth).1 is Ok,
        0 <= i < j < m.allowed_assets.len(),
        m.allowed_assets[i] != code,
        m.allowed_assets[j] != code,
    ensures
        spec_update_allowed_asset(m, code, false, auth).0.allowed_assets == remove_val(
            m.allowed_assets,
            code,
        ),
        0 <= surviving_index(m.allowed_assets, code, i) < surviving_index(
            m.allowed_assets,
            code,
            j,
        ) < remove_val(m.allowed_assets, code).len(),
        remove_val(m.allowed_assets, code)[surviving_index(m.allowed_assets, code, i)]
            == m.allowed_assets[i],
        remove_val(m.allowed_assets, code)[surviving_index(m.allowed_assets, code, j)]
            == m.allowed_assets[j],
{
    lemma_remove_preserves_order(m.allowed_assets, code, i, j);
}

/// Striking a guardian preserves the relative order of the remaining
/// guardians in the same way.
pub proof fn lemma_guardian_removal_preserves_order(
    m: WalletModel,
    guardian: Address,
    auth: Seq<Address>,
    i: int,
    j: int,
)
    requires
        spec_update_guardian(m, guardian, false, auth).1 is Ok,
        0 <= i < j < m.guardians.len(),
        m.guardians[i] != guardian,
        m.guardians[j] != guardian,
    ensures
        spec_update_guardian(m, guardian, false, auth).0.guardians == remove_val(
            m.guardians,
            guardian,
        ),
        0 <= surviving_index(m.guardians, guardian, i) < surviving_index(
            m.guardians,
            guardian,
            j,
        ) < remove_val(m.guardians, guardian).len(),
        remove_val(m.guardians, guardian)[surviving_index(m.guardians, guardian, i)]
            == m.guardians[i],
        remove_val(m.guardians, guardian)[surviving_index(m.guardians, guardian, j)]
            == m.guardians[j],
{
    lemma_remove_preserves_order(m.guardians, guardian, i, j);
}

/// The email claim takes precedence during recovery: when the presented
/// claim matches the stored fingerprint, `social_recover` succeeds by the
/// email path alone, and its outcome is the same whatever approvals are
/// offered and whatever control the caller has proven — no guardian proof
/// is ever requested.
pub proof fn lemma_email_claim_takes_precedence(
    m: WalletModel,
    new_owner: Address,
    claim: Seq<char>,
    approvals1: Seq<Address>,
    approvals2: Seq<Address>,
    auth1: Seq<Address>,
    auth2: Seq<Address>,
)
    requires
        m.initialized,
        claim_matches(m, claim),
    ensures
        spec_social_recover(m, new_owner, claim, approvals1, auth1) == spec_social_recover(
            m,
            new_owner,
            claim,
            approvals2,
            auth2,
        ),
        spec_social_recover(m, new_owner, claim, approvals1, auth1).1 == Ok::<(), WalletError>(()),
        spec_social_recover(m, new_owner, claim, approvals1, auth1).0 == (WalletModel {
            owner: Some(new_owner),
            ..m
        }),
{
}

/// A recovery attempt with a non-matching (or empty) claim and no
/// candidate approvers fails with `RecoveryDenied` and leaves the owner —
/// and everything else — unchanged.
pub proof fn lemma_recovery_denied_without_credentials(
    m: WalletModel,
    new_owner: Address,
    claim: Seq<char>,
    auth: Seq<Address>,
)
    requires
        m.initialized,
        !claim_matches(m, claim),
    ensures
        spec_social_recover(m, new_owner, claim, Seq::empty(), auth) == (
            m,
            Err::<(), WalletError>(WalletError::RecoveryDenied),
        ),
{
}

/// Invoking the guardian path against a wallet with no registered
/// guardians is a configuration error, not a normal denial: however many
/// approvals are offered, the recovery aborts with `GuardianSetEmpty`.
pub proof fn lemma_guardian_misconfiguration_is_fatal(
    m: WalletModel,
    new_owner: Address,
    claim: Seq<char>,
    approvals: Seq<Address>,
    auth: Seq<Address>,
)
    requires
        m.initialized,
        !claim_matches(m, claim),
        approvals.len() > 0,
        m.guardians.len() == 0,
    ensures
        spec_social_recover(m, new_owner, claim, approvals, auth) == (
            m,
            Err::<(), WalletError>(WalletError::GuardianSetEmpty),
        ),
{
}

/// A balance forward never consults the guardian set: its result is the
/// same whatever guardians are registered, because its fallback path is
/// direct owner proof, never guardian approval.
pub proof fn lemma_forward_balance_never_consults_guardians(
    m: WalletModel,
    guardians: Seq<Address>,
    token: Address,
    code: Seq<char>,
    destination: Address,
    claim: Seq<char>,
    auth: Seq<Address>,
    balance: i128,
)
    ensures
        spec_forward_balance(
            (WalletModel { guardians, ..m }),
            token,
            code,
            destination,
            claim,
            auth,
            balance,
        ).1 == spec_forward_balance(m, token, code, destination, claim, auth, balance).1,
{
}

/// Every operation keeps the record well-formed, and `initialize`
/// establishes well-formedness; together with `WalletModel::empty()`
/// being well-formed, every reachable record is.
pub proof fn lemma_operations_preserve_wf(
    m: WalletModel,
    owner: Address,
    email: Seq<char>,
    new_owner: Address,
    code: Seq<char>,
    allow: bool,
    guardian: Address,
    token: Address,
    destination: Address,
    claim: Seq<char>,
    approvals: Seq<Address>,
    auth: Seq<Address>,
    balance: i128,
)
    requires
        m.wf(),
    ensures
        WalletModel::empty().wf(),
        spec_initialize(m, owner, email).0.wf(),
        spec_transfer_ownership(m, new_owner, auth).0.wf(),
        spec_update_allowed_asset(m, code, allow, auth).0.wf(),
        spec_update_guardian(m, guardian, allow, auth).0.wf(),
        spec_social_recover(m, new_owner, claim, approvals, auth).0.wf(),
        spec_forward_balance(m, token, code, destination, claim, auth, balance).0.wf(),
{
}

/// The recovery fingerprint is set once at initialization and never
/// changed afterwards: no other operation touches it.
pub proof fn lemma_recovery_email_immutable(
    m: WalletModel,
    new_owner: Address,
    code: Seq<char>,
    allow: bool,
    guardian: Address,
    token: Address,
    destination: Address,
    claim: Seq<char>,
    approvals: Seq<Address>,
    auth: Seq<Address>,
    balance: i128,
)
    ensures
        spec_transfer_ownership(m, new_owner, auth).0.recovery_email == m.recovery_email,
        spec_update_allowed_asset(m, code, allow, auth).0.recovery_email == m.recovery_email,
        spec_update_guardian(m, guardian, allow, auth).0.recovery_email == m.recovery_email,
        spec_social_recover(m, new_owner, claim, approvals, auth).0.recovery_email
            == m.recovery_email,
        spec_forward_balance(m, token, code, destination, claim, auth, balance).0.recovery_email
            == m.recovery_email,
{
}

} // verus!
