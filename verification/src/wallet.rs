use vstd::prelude::*;
use vstd::string::StringExecFns;

use crate::error::WalletError;
use crate::model::{
    claim_matches, default_asset_codes, first_match, first_match_from, spec_forward_balance,
    spec_get_allowed_assets, spec_get_owner, spec_get_recovery_email, spec_guardian_approval,
    spec_has_field, spec_initialize, spec_social_recover, spec_transfer_ownership,
    spec_update_allowed_asset, spec_update_guardian, spec_withdraw, WalletModel,
};
use crate::seq_util::{lemma_remove_take_step, remove_val};
use crate::types::{contains_address, Address, AuthContext, DataKey, TokenTransfer};

verus! {

/// The wallet record: the one piece of persistent state the authorization
/// core works on.  Its mathematical view is a [`WalletModel`], and every
/// operation's contract pins the new view and the returned value as a
/// function of the old view and the arguments.
pub struct GhostWallet {
    initialized: bool,
    owner: Option<Address>,
    recovery_email: Option<String>,
    allowed_assets: Vec<String>,
    guardians: Vec<Address>,
    last_forward_recipient: Option<Address>,
}

impl View for GhostWallet {
    type V = WalletModel;

    closed spec fn view(&self) -> WalletModel {
        WalletModel {
            initialized: self.initialized,
            owner: self.owner,
            recovery_email: match self.recovery_email {
                Some(stored) => Some(stored@),
                None => None,
            },
            allowed_assets: self.allowed_assets.deep_view(),
            guardians: self.guardians@,
            last_forward_recipient: self.last_forward_recipient,
        }
    }
}

impl GhostWallet {
    /// A wallet record nothing has happened to yet: uninitialized, with
    /// every field unset.
    pub fn new() -> (w: GhostWallet)
        ensures
            w@ == WalletModel::empty(),
    {
        let w = GhostWallet {
            initialized: false,
            owner: None,
            recovery_email: None,
            allowed_assets: Vec::new(),
            guardians: Vec::new(),
            last_forward_recipient: None,
        };
        proof {
            assert(w@ =~= WalletModel::empty());
        }
        w
    }

    /// Create the record: set the owner, derive the recovery fingerprint
    /// from the supplied email, install the default allow-list and an
    /// empty guardian set, and raise the initialization flag.  Fails, and
    /// changes nothing, if the record already exists; no authorization is
    /// required, the flag check alone restricts this bootstrap step to a
    /// single success.
    pub fn initialize(&mut self, owner: Address, recovery_email: String) -> (r: Result<
        (),
        WalletError,
    >)
        ensures
            final(self)@ == spec_initialize(old(self)@, owner, recovery_email@).0,
            r == spec_initialize(old(self)@, owner, recovery_email@).1,
    {
        let ghost email = recovery_email@;
        if self.initialized {
            return Err(WalletError::AlreadyInitialized);
        }
        self.owner = Some(owner);
        self.recovery_email = Some(recovery_email);
        self.initialized = true;

        let mut allowed_assets: Vec<String> = Vec::new();
        allowed_assets.push("XLM".to_string());
        allowed_assets.push("USDC".to_string());
        allowed_assets.push("PYUSD".to_string());
        self.allowed_assets = allowed_assets;

        self.guardians = Vec::new();
        proof {
            assert(self.allowed_assets.deep_view() =~= default_asset_codes());
            assert(self.guardians@ =~= Seq::<Address>::empty());
            assert(self@ =~= spec_initialize(old(self)@, owner, email).0);
        }
        Ok(())
    }

    /// The current owner of the wallet.
    pub fn get_owner(&self) -> (r: Result<Address, WalletError>)
        ensures
            r == spec_get_owner(self@),
    {
        match self.owner {
            Some(owner) => Ok(owner),
            None => Err(WalletError::NotInitialized),
        }
    }

    /// The stored recovery-email fingerprint.
    pub fn get_recovery_email(&self) -> (r: Result<String, WalletError>)
        ensures
            spec_get_recovery_email(self@) matches Ok(stored) ==> (r matches Ok(s) && s@
                == stored),
            spec_get_recovery_email(self@) matches Err(e) ==> r == Err::<String, WalletError>(e),
    {
        match &self.recovery_email {
            Some(stored) => Ok(stored.clone()),
            None => Err(WalletError::NotInitialized),
        }
    }

    /// Reassign ownership to `new_owner`.  Only a caller who has proven
    /// control of the current owner address may do so; nothing else in
    /// the record changes.
    pub fn transfer_ownership(&mut self, new_owner: Address, auth: &AuthContext) -> (r: Result<
        (),
        WalletError,
    >)
        ensures
            final(self)@ == spec_transfer_ownership(old(self)@, new_owner, auth@).0,
            r == spec_transfer_ownership(old(self)@, new_owner, auth@).1,
    {
        match self.owner {
            None => Err(WalletError::NotInitialized),
            Some(owner) => {
                if auth.controls(owner) {
                    self.owner = Some(new_owner);
                    proof {
                        assert(self@ =~= spec_transfer_ownership(old(self)@, new_owner, auth@).0);
                    }
                    Ok(())
                } else {
                    Err(WalletError::NotAuthorized)
                }
            },
        }
    }

    /// The allow-list of asset codes this wallet will move, in insertion
    /// order.
    pub fn get_allowed_assets(&self) -> (r: Result<Vec<String>, WalletError>)
        ensures
            spec_get_allowed_assets(self@) matches Ok(codes) ==> (r matches Ok(v) && v.deep_view()
                == codes),
            spec_get_allowed_assets(self@) matches Err(e) ==> r == Err::<Vec<String>, WalletError>(
                e,
            ),
    {
        if !self.initialized {
            return Err(WalletError::NotInitialized);
        }
        Ok(clone_codes(&self.allowed_assets))
    }

    /// Add (`allow == true`) or remove (`allow == false`) an asset code
    /// on the allow-list.  Requires proof of control of the owner
    /// address.  The toggle is idempotent: adding a present code and
    /// removing an absent one are no-ops, and removal keeps the remaining
    /// codes in their original order.
    pub fn update_allowed_asset(&mut self, asset_code: String, allow: bool, auth: &AuthContext) -> (r:
        Result<(), WalletError>)
        ensures
            final(self)@ == spec_update_allowed_asset(old(self)@, asset_code@, allow, auth@).0,
            r == spec_update_allowed_asset(old(self)@, asset_code@, allow, auth@).1,
    {
        let ghost code = asset_code@;
        if !self.initialized {
            return Err(WalletError::NotInitialized);
        }
        let owner = match self.owner {
            Some(owner) => owner,
            None => {
                return Err(WalletError::NotInitialized);
            },
        };
        if !auth.controls(owner) {
            return Err(WalletError::NotAuthorized);
        }
        if allow {
            if !contains_code(&self.allowed_assets, &asset_code) {
                self.allowed_assets.push(asset_code);
                proof {
                    assert(self.allowed_assets.deep_view() =~= old(
                        self,
                    ).allowed_assets.deep_view().push(code));
                }
            }
        } else {
            self.allowed_assets = remove_code(&self.allowed_assets, &asset_code);
        }
        proof {
            assert(self@ =~= spec_update_allowed_asset(old(self)@, code, allow, auth@).0);
        }
        Ok(())
    }

    /// Register (`allow == true`) or strike (`allow == false`) a guardian
    /// eligible to approve emergency recovery.  Requires proof of control
    /// of the owner address; the same idempotence and order rules as the
    /// allow-list apply.
    pub fn update_guardian(&mut self, guardian: Address, allow: bool, auth: &AuthContext) -> (r:
        Result<(), WalletError>)
        ensures
            final(self)@ == spec_update_guardian(old(self)@, guardian, allow, auth@).0,
            r == spec_update_guardian(old(self)@, guardian, allow, auth@).1,
    {
        if !self.initialized {
            return Err(WalletError::NotInitialized);
        }
        let owner = match self.owner {
            Some(owner) => owner,
            None => {
                return Err(WalletError::NotInitialized);
            },
        };
        if !auth.controls(owner) {
            return Err(WalletError::NotAuthorized);
        }
        if allow {
            if !contains_address(&self.guardians, guardian) {
                self.guardians.push(guardian);
            }
        } else {
            self.guardians = remove_address(&self.guardians, guardian);
        }
        proof {
            assert(self@ =~= spec_update_guardian(old(self)@, guardian, allow, auth@).0);
        }
        Ok(())
    }

    /// Move `amount` units of the token contract at `token_address` to
    /// `to`.  Requires proof of control of the owner address and an
    /// allow-listed asset code; the movement itself, including any
    /// insufficient-funds failure, is the token service's concern.
    pub fn withdraw(
        &self,
        token_address: Address,
        asset_code: String,
        amount: i128,
        to: Address,
        auth: &AuthContext,
    ) -> (r: Result<TokenTransfer, WalletError>)
        ensures
            r == spec_withdraw(self@, token_address, asset_code@, amount, to, auth@),
    {
        let owner = match self.owner {
            Some(owner) => owner,
            None => {
                return Err(WalletError::NotInitialized);
            },
        };
        if !auth.controls(owner) {
            return Err(WalletError::NotAuthorized);
        }
        if !self.is_asset_allowed(&asset_code) {
            return Err(WalletError::AssetNotAllowed);
        }
        Ok(TokenTransfer { token: token_address, to, amount })
    }

    /// Reassign ownership without the current owner's cooperation: the
    /// email-claim path is tried first, and only if it fails is the
    /// guardian path consulted.  On success `new_owner` takes over in the
    /// same call, with no confirmation delay; when both paths fail softly
    /// the recovery is denied and nothing changes.
    pub fn social_recover(
        &mut self,
        new_owner: Address,
        email_claim: String,
        approvals: Vec<Address>,
        auth: &AuthContext,
    ) -> (r: Result<(), WalletError>)
        ensures
            final(self)@ == spec_social_recover(
                old(self)@,
                new_owner,
                email_claim@,
                approvals@,
                auth@,
            ).0,
            r == spec_social_recover(old(self)@, new_owner, email_claim@, approvals@, auth@).1,
    {
        if !self.initialized {
            return Err(WalletError::NotInitialized);
        }
        if self.verify_email_claim(&email_claim) {
            self.owner = Some(new_owner);
            proof {
                assert(self@ =~= spec_social_recover(
                    old(self)@,
                    new_owner,
                    email_claim@,
                    approvals@,
                    auth@,
                ).0);
            }
            return Ok(());
        }
        match self.require_guardian_approval(&approvals, auth) {
            Ok(true) => {
                self.owner = Some(new_owner);
                proof {
                    assert(self@ =~= spec_social_recover(
                        old(self)@,
                        new_owner,
                        email_claim@,
                        approvals@,
                        auth@,
                    ).0);
                }
                Ok(())
            },
            Ok(false) => Err(WalletError::RecoveryDenied),
            Err(e) => Err(e),
        }
    }

    /// Sweep the wallet's entire balance of the token at `token_address`
    /// to `destination_wallet`.  Requires an allow-listed asset and
    /// either a matching email claim or, failing that, proof of control
    /// of the owner address; guardians cannot authorize a forward.  The
    /// caller supplies the balance the token service reported for the
    /// wallet; a non-positive balance is refused, and a successful sweep
    /// records the destination as the last forward recipient.
    pub fn forward_balance(
        &mut self,
        token_address: Address,
        asset_code: String,
        destination_wallet: Address,
        email_claim: String,
        auth: &AuthContext,
        balance: i128,
    ) -> (r: Result<TokenTransfer, WalletError>)
        ensures
            final(self)@ == spec_forward_balance(
                old(self)@,
                token_address,
                asset_code@,
                destination_wallet,
                email_claim@,
                auth@,
                balance,
            ).0,
            r == spec_forward_balance(
                old(self)@,
                token_address,
                asset_code@,
                destination_wallet,
                email_claim@,
                auth@,
                balance,
            ).1,
    {
        if !self.initialized {
            return Err(WalletError::NotInitialized);
        }
        if !self.is_asset_allowed(&asset_code) {
            return Err(WalletError::AssetNotAllowed);
        }
        let owner = match self.owner {
            Some(owner) => owner,
            None => {
                return Err(WalletError::NotInitialized);
            },
        };
        let authorized = self.verify_email_claim(&email_claim) || auth.controls(owner);
        if !authorized {
            return Err(WalletError::NotAuthorized);
        }
        if balance <= 0 {
            return Err(WalletError::NothingToForward);
        }
        self.last_forward_recipient = Some(destination_wallet);
        proof {
            assert(self@ =~= spec_forward_balance(
                old(self)@,
                token_address,
                asset_code@,
                destination_wallet,
                email_claim@,
                auth@,
                balance,
            ).0);
        }
        Ok(TokenTransfer { token: token_address, to: destination_wallet, amount: balance })
    }

    /// The destination recorded by the most recent successful balance
    /// sweep, if any.  A write-only audit marker as far as the other
    /// operations are concerned; exposed read-only because the record's
    /// fields are publicly visible where the wallet is deployed.
    pub fn get_last_forward_recipient(&self) -> (r: Option<Address>)
        ensures
            r == self@.last_forward_recipient,
    {
        self.last_forward_recipient
    }

    /// Whether the persistent field named by `key` is populated.
    pub fn has_field(&self, key: DataKey) -> (r: bool)
        ensures
            r == spec_has_field(self@, key),
    {
        match key {
            DataKey::Owner => self.owner.is_some(),
            DataKey::RecoveryEmail => self.recovery_email.is_some(),
            DataKey::Balance => false,
            DataKey::IsInitialized => self.initialized,
            DataKey::AllowedRecipient => self.last_forward_recipient.is_some(),
            DataKey::AllowedAssets => self.initialized,
            DataKey::Guardians => self.initialized,
        }
    }

    /// Whether `asset_code` is on the allow-list; exact, case-sensitive
    /// equality over the stored codes.
    fn is_asset_allowed(&self, asset_code: &String) -> (r: bool)
        ensures
            r == self@.allowed_assets.contains(asset_code@),
    {
        contains_code(&self.allowed_assets, asset_code)
    }

    /// The email-claim check: fails closed on an empty claim, succeeds
    /// exactly when the claim equals the stored fingerprint.
    fn verify_email_claim(&self, provided_claim: &String) -> (r: bool)
        ensures
            r == claim_matches(self@, provided_claim@),
    {
        if provided_claim.as_str().is_empty() {
            return false;
        }
        match &self.recovery_email {
            Some(stored) => *stored == *provided_claim,
            None => false,
        }
    }

    /// The guardian-quorum path: scan the candidate approvers in order,
    /// and let the first one that is a registered guardian satisfy the
    /// threshold of one, provided the caller has proven control of it.
    fn require_guardian_approval(&self, approvals: &Vec<Address>, auth: &AuthContext) -> (r: Result<
        bool,
        WalletError,
    >)
        ensures
            r == spec_guardian_approval(self@, approvals@, auth@),
    {
        if approvals.len() == 0 {
            return Ok(false);
        }
        if self.guardians.len() == 0 {
            return Err(WalletError::GuardianSetEmpty);
        }
        let mut i: usize = 0;
        while i < approvals.len()
            invariant
                i <= approvals@.len(),
                approvals@.len() > 0,
                self@.guardians.len() > 0,
                first_match(approvals@, self@.guardians) == first_match_from(
                    approvals@,
                    self@.guardians,
                    i as int,
                ),
            decreases approvals@.len() - i,
        {
            let candidate = approvals[i];
            if contains_address(&self.guardians, candidate) {
                if auth.controls(candidate) {
                    return Ok(true);
                } else {
                    return Err(WalletError::NotAuthorized);
                }
            }
            i += 1;
        }
        Ok(false)
    }
}

/// Whether `code` occurs in `list`, comparing the character sequences.
fn contains_code(list: &Vec<String>, code: &String) -> (r: bool)
    ensures
        r == list.deep_view().contains(code@),
{
    let mut i: usize = 0;
    while i < list.len()
        invariant
            i <= list@.len(),
            forall|k: int| 0 <= k < i ==> list.deep_view()[k] != code@,
        decreases list@.len() - i,
    {
        if list[i] == *code {
            assert(list.deep_view()[i as int] == code@);
            assert(list.deep_view().contains(code@));
            return true;
        }
        i += 1;
    }
    false
}

/// A copy of `list` with the same character sequences.
fn clone_codes(list: &Vec<String>) -> (r: Vec<String>)
    ensures
        r.deep_view() == list.deep_view(),
{
    let mut out: Vec<String> = Vec::new();
    proof {
        assert(out.deep_view() =~= list.deep_view().take(0));
    }
    let mut i: usize = 0;
    while i < list.len()
        invariant
            i <= list@.len(),
            out.deep_view() == list.deep_view().take(i as int),
        decreases list@.len() - i,
    {
        let ghost prev = out.deep_view();
        out.push(list[i].clone());
        proof {
            assert(out.deep_view() =~= prev.push(list.deep_view()[i as int]));
            assert(list.deep_view().take(i as int + 1) =~= list.deep_view().take(i as int).push(
                list.deep_view()[i as int],
            ));
        }
        i += 1;
    }
    proof {
        assert(list.deep_view().take(list@.len() as int) =~= list.deep_view());
    }
    out
}

/// `list` with every occurrence of `code` removed, order preserved.
fn remove_code(list: &Vec<String>, code: &String) -> (r: Vec<String>)
    ensures
        r.deep_view() == remove_val(list.deep_view(), code@),
{
    let mut retained: Vec<String> = Vec::new();
    proof {
        assert(list.deep_view().take(0) =~= Seq::<Seq<char>>::empty());
        assert(retained.deep_view() =~= remove_val(list.deep_view().take(0), code@));
    }
    let mut i: usize = 0;
    while i < list.len()
        invariant
            i <= list@.len(),
            retained.deep_view() == remove_val(list.deep_view().take(i as int), code@),
        decreases list@.len() - i,
    {
        proof {
            lemma_remove_take_step(list.deep_view(), code@, i as int);
        }
        if list[i] != *code {
            retained.push(list[i].clone());
            proof {
                assert(retained.deep_view() =~= remove_val(
                    list.deep_view().take(i as int + 1),
                    code@,
                ));
            }
        }
        i += 1;
    }
    proof {
        assert(list.deep_view().take(list@.len() as int) =~= list.deep_view());
    }
    retained
}

/// `list` with every occurrence of `target` removed, order preserved.
fn remove_address(list: &Vec<Address>, target: Address) -> (r: Vec<Address>)
    ensures
        r@ == remove_val(list@, target),
{
    let mut retained: Vec<Address> = Vec::new();
    proof {
        assert(list@.take(0) =~= Seq::<Address>::empty());
        assert(retained@ =~= remove_val(list@.take(0), target));
    }
    let mut i: usize = 0;
    while i < list.len()
        invariant
            i <= list@.len(),
            retained@ == remove_val(list@.take(i as int), target),
        decreases list@.len() - i,
    {
        proof {
            lemma_remove_take_step(list@, target, i as int);
        }
        if list[i] != target {
            retained.push(list[i]);
        }
        i += 1;
    }
    proof {
        assert(list@.take(list@.len() as int) =~= list@);
    }
    retained
}

} // verus!
