use vstd::prelude::*;

use crate::error::WalletError;
use crate::seq_util::{insert_val, remove_val};
use crate::types::{Address, DataKey, TokenTransfer};

verus! {

/// The mathematical view of a wallet record: one fixed set of named
/// fields, nothing else ever persisted.
///
/// `owner` and `recovery_email` are `None` exactly as long as the record
/// has not been created; `last_forward_recipient` is a write-only audit
/// marker left behind by a successful balance sweep.
#[verifier::ext_equal]
pub struct WalletModel {
    pub initialized: bool,
    pub owner: Option<Address>,
    pub recovery_email: Option<Seq<char>>,
    pub allowed_assets: Seq<Seq<char>>,
    pub guardians: Seq<Address>,
    pub last_forward_recipient: Option<Address>,
}

impl WalletModel {
    /// The record of a wallet nothing has happened to yet.
    pub open spec fn empty() -> WalletModel {
        WalletModel {
            initialized: false,
            owner: None,
            recovery_email: None,
            allowed_assets: Seq::empty(),
            guardians: Seq::empty(),
            last_forward_recipient: None,
        }
    }

    /// Well-formedness of the record: the identity fields are populated
    /// exactly when the record has been created, and nothing is persisted
    /// before creation.
    pub open spec fn wf(self) -> bool {
        &&& self.initialized <==> self.owner is Some
        &&& self.initialized <==> self.recovery_email is Some
        &&& !self.initialized ==> self.allowed_assets =~= Seq::<Seq<char>>::empty()
        &&& !self.initialized ==> self.guardians =~= Seq::<Address>::empty()
        &&& !self.initialized ==> self.last_forward_recipient is None
    }
}

/// Whether the persistent field named by `key` is populated in the
/// record.  The identity fields and the two policy lists come into being
/// at initialization and are never dropped; the audit marker appears with
/// the first successful sweep; `Balance` is never written at all.
pub open spec fn spec_has_field(m: WalletModel, key: DataKey) -> bool {
    match key {
        DataKey::Owner => m.owner is Some,
        DataKey::RecoveryEmail => m.recovery_email is Some,
        DataKey::Balance => false,
        DataKey::IsInitialized => m.initialized,
        DataKey::AllowedRecipient => m.last_forward_recipient is Some,
        DataKey::AllowedAssets => m.initialized,
        DataKey::Guardians => m.initialized,
    }
}

/// The asset codes every wallet starts out allowing, in insertion order.
pub open spec fn default_asset_codes() -> Seq<Seq<char>> {
    seq!["XLM"@, "USDC"@, "PYUSD"@]
}

/// Whether a presented email claim authorizes recovery: an empty claim
/// never does, and a non-empty one does exactly when it equals the stored
/// recovery fingerprint.  No normalization, hashing or expiry is applied;
/// the claim is an opaque bearer credential checked for exact equality.
pub open spec fn claim_matches(m: WalletModel, claim: Seq<char>) -> bool {
    claim.len() > 0 && match m.recovery_email {
        Some(stored) => stored == claim,
        None => false,
    }
}

/// The first candidate in `approvals` (scanned front to back) that is a
/// registered guardian, if any.
pub open spec fn first_match_from(approvals: Seq<Address>, guardians: Seq<Address>, i: int) -> Option<
    Address,
>
    decreases approvals.len() - i,
{
    if i < 0 || i >= approvals.len() {
        None
    } else if guardians.contains(approvals[i]) {
        Some(approvals[i])
    } else {
        first_match_from(approvals, guardians, i + 1)
    }
}

/// The first candidate approver that is a registered guardian, if any.
pub open spec fn first_match(approvals: Seq<Address>, guardians: Seq<Address>) -> Option<Address> {
    first_match_from(approvals, guardians, 0)
}

/// Outcome of the guardian-quorum path, given the registered guardians,
/// the candidate approvers and the addresses the caller has proven.
///
/// An empty candidate list fails softly (`Ok(false)`) so callers can try
/// the path speculatively; a non-empty list against a wallet with no
/// guardians is a configuration error; otherwise the first candidate that
/// is a registered guardian must itself be proven, and one such proof
/// satisfies the threshold.
pub open spec fn spec_guardian_approval(
    m: WalletModel,
    approvals: Seq<Address>,
    auth: Seq<Address>,
) -> Result<bool, WalletError> {
    if approvals.len() == 0 {
        Ok(false)
    } else if m.guardians.len() == 0 {
        Err(WalletError::GuardianSetEmpty)
    } else {
        match first_match(approvals, m.guardians) {
            None => Ok(false),
            Some(g) => if auth.contains(g) {
                Ok(true)
            } else {
                Err(WalletError::NotAuthorized)
            },
        }
    }
}

/// Outcome of `initialize`: creates the record at most once, with the
/// supplied owner and recovery fingerprint, the default allow-list and no
/// guardians.
pub open spec fn spec_initialize(m: WalletModel, owner: Address, email: Seq<char>) -> (
    WalletModel,
    Result<(), WalletError>,
) {
    if m.initialized {
        (m, Err(WalletError::AlreadyInitialized))
    } else {
        (
            WalletModel {
                initialized: true,
                owner: Some(owner),
                recovery_email: Some(email),
                allowed_assets: default_asset_codes(),
                guardians: Seq::empty(),
                last_forward_recipient: m.last_forward_recipient,
            },
            Ok(()),
        )
    }
}

/// Outcome of `get_owner`.
pub open spec fn spec_get_owner(m: WalletModel) -> Result<Address, WalletError> {
    match m.owner {
        Some(owner) => Ok(owner),
        None => Err(WalletError::NotInitialized),
    }
}

/// Outcome of `get_recovery_email`.
pub open spec fn spec_get_recovery_email(m: WalletModel) -> Result<Seq<char>, WalletError> {
    match m.recovery_email {
        Some(stored) => Ok(stored),
        None => Err(WalletError::NotInitialized),
    }
}

/// Outcome of `get_allowed_assets`.
pub open spec fn spec_get_allowed_assets(m: WalletModel) -> Result<Seq<Seq<char>>, WalletError> {
    if m.initialized {
        Ok(m.allowed_assets)
    } else {
        Err(WalletError::NotInitialized)
    }
}

/// Outcome of `transfer_ownership`: only the proven current owner may
/// reassign ownership, and nothing else changes.
pub open spec fn spec_transfer_ownership(
    m: WalletModel,
    new_owner: Address,
    auth: Seq<Address>,
) -> (WalletModel, Result<(), WalletError>) {
    match m.owner {
        None => (m, Err(WalletError::NotInitialized)),
        Some(owner) => if auth.contains(owner) {
            (WalletModel { owner: Some(new_owner), ..m }, Ok(()))
        } else {
            (m, Err(WalletError::NotAuthorized))
        },
    }
}

/// Outcome of `update_allowed_asset`: the proven owner toggles membership
/// of `code` in the allow-list; adding a present code and removing an
/// absent one are no-ops, and removal keeps the remaining order.
pub open spec fn spec_update_allowed_asset(
    m: WalletModel,
    code: Seq<char>,
    allow: bool,
    auth: Seq<Address>,
) -> (WalletModel, Result<(), WalletError>) {
    if !m.initialized {
        (m, Err(WalletError::NotInitialized))
    } else {
        match m.owner {
            None => (m, Err(WalletError::NotInitialized)),
            Some(owner) => if !auth.contains(owner) {
                (m, Err(WalletError::NotAuthorized))
            } else {
                let assets = if allow {
                    insert_val(m.allowed_assets, code)
                } else {
                    remove_val(m.allowed_assets, code)
                };
                (WalletModel { allowed_assets: assets, ..m }, Ok(()))
            },
        }
    }
}

/// Outcome of `update_guardian`: the proven owner toggles membership of
/// `guardian` in the guardian set, with the same no-op and order rules as
/// the allow-list.
pub open spec fn spec_update_guardian(
    m: WalletModel,
    guardian: Address,
    allow: bool,
    auth: Seq<Address>,
) -> (WalletModel, Result<(), WalletError>) {
    if !m.initialized {
        (m, Err(WalletError::NotInitialized))
    } else {
        match m.owner {
            None => (m, Err(WalletError::NotInitialized)),
            Some(owner) => if !auth.contains(owner) {
                (m, Err(WalletError::NotAuthorized))
            } else {
                let guardians = if allow {
                    insert_val(m.guardians, guardian)
                } else {
                    remove_val(m.guardians, guardian)
                };
                (WalletModel { guardians: guardians, ..m }, Ok(()))
            },
        }
    }
}

/// Outcome of `withdraw`: the proven owner moves `amount` units of an
/// allow-listed asset; the state itself never changes, the transfer is
/// delegated to the token service.
pub open spec fn spec_withdraw(
    m: WalletModel,
    token: Address,
    code: Seq<char>,
    amount: i128,
    to: Address,
    auth: Seq<Address>,
) -> Result<TokenTransfer, WalletError> {
    match m.owner {
        None => Err(WalletError::NotInitialized),
        Some(owner) => if !auth.contains(owner) {
            Err(WalletError::NotAuthorized)
        } else if !m.allowed_assets.contains(code) {
            Err(WalletError::AssetNotAllowed)
        } else {
            Ok(TokenTransfer { token, to, amount })
        },
    }
}

/// Outcome of `social_recover`: the email-claim path is tried first and
/// short-circuits; only when it fails is the guardian path consulted.  On
/// success ownership passes to `new_owner` unconditionally; when both
/// paths fail softly the recovery is denied and nothing changes.
pub open spec fn spec_social_recover(
    m: WalletModel,
    new_owner: Address,
    claim: Seq<char>,
    approvals: Seq<Address>,
    auth: Seq<Address>,
) -> (WalletModel, Result<(), WalletError>) {
    if !m.initialized {
        (m, Err(WalletError::NotInitialized))
    } else if claim_matches(m, claim) {
        (WalletModel { owner: Some(new_owner), ..m }, Ok(()))
    } else {
        match spec_guardian_approval(m, approvals, auth) {
            Ok(true) => (WalletModel { owner: Some(new_owner), ..m }, Ok(())),
            Ok(false) => (m, Err(WalletError::RecoveryDenied)),
            Err(e) => (m, Err(e)),
        }
    }
}

/// Outcome of `forward_balance`: sweep the wallet's entire balance of an
/// allow-listed token to `destination`, authorized by the email claim or,
/// failing that, by direct owner proof (never by guardians).  A sweep of a
/// non-positive balance is refused, and a successful sweep records the
/// destination as the last forward recipient.
pub open spec fn spec_forward_balance(
    m: WalletModel,
    token: Address,
    code: Seq<char>,
    destination: Address,
    claim: Seq<char>,
    auth: Seq<Address>,
    balance: i128,
) -> (WalletModel, Result<TokenTransfer, WalletError>) {
    if !m.initialized {
        (m, Err(WalletError::NotInitialized))
    } else if !m.allowed_assets.contains(code) {
        (m, Err(WalletError::AssetNotAllowed))
    } else {
        match m.owner {
            None => (m, Err(WalletError::NotInitialized)),
            Some(owner) => if !(claim_matches(m, claim) || auth.contains(owner)) {
                (m, Err(WalletError::NotAuthorized))
            } else if balance <= 0 {
                (m, Err(WalletError::NothingToForward))
            } else {
                (
                    WalletModel { last_forward_recipient: Some(destination), ..m },
                    Ok(TokenTransfer { token, to: destination, amount: balance }),
                )
            },
        }
    }
}

} // verus!
