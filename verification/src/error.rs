use vstd::prelude::*;

verus! {

/// Every way a wallet operation can be refused.
///
/// `NotInitialized` and `AlreadyInitialized` are precondition violations;
/// `NotAuthorized`, `RecoveryDenied` and `AssetNotAllowed` are ordinary
/// authorization denials the caller can recover from by retrying with the
/// right credentials; `NothingToForward` reports an empty sweep.
/// `GuardianSetEmpty` is the one configuration error: the guardian approval
/// flow was attempted against a wallet with no registered guardians, so no
/// input could ever have satisfied it.
#[derive(Clone, Copy, Debug, PartialEq, Eq, Structural)]
pub enum WalletError {
    /// The wallet record has not been created yet.
    NotInitialized,
    /// The wallet record already exists; `initialize` runs at most once.
    AlreadyInitialized,
    /// The caller did not prove control of the address the operation demands.
    NotAuthorized,
    /// The asset code is not on the wallet's allow-list.
    AssetNotAllowed,
    /// Neither the email claim nor the guardian path authorized the recovery.
    RecoveryDenied,
    /// The guardian approval flow was invoked with no guardians registered.
    GuardianSetEmpty,
    /// The wallet holds no positive balance of the token to sweep.
    NothingToForward,
}

impl WalletError {
    /// A human-readable description of the error.
    pub fn describe(&self) -> (r: &'static str)
        ensures
            r@.len() > 0,
            self is NotInitialized ==> r@ == "wallet not initialized"@,
            self is AlreadyInitialized ==> r@ == "wallet already initialized"@,
            self is NotAuthorized ==> r@ == "caller authorization missing"@,
            self is AssetNotAllowed ==> r@ == "asset not allowed"@,
            self is RecoveryDenied ==> r@ == "recovery requires email claim or guardian approval"@,
            self is GuardianSetEmpty ==> r@ == "no guardians registered for approval flow"@,
            self is NothingToForward ==> r@ == "no balance available to forward"@,
    {
        proof {
            reveal_strlit("wallet not initialized");
            reveal_strlit("wallet already initialized");
            reveal_strlit("caller authorization missing");
            reveal_strlit("asset not allowed");
            reveal_strlit("recovery requires email claim or guardian approval");
            reveal_strlit("no guardians registered for approval flow");
            reveal_strlit("no balance available to forward");
        }
        match self {
            WalletError::NotInitialized => "wallet not initialized",
            WalletError::AlreadyInitialized => "wallet already initialized",
            WalletError::NotAuthorized => "caller authorization missing",
            WalletError::AssetNotAllowed => "asset not allowed",
            WalletError::RecoveryDenied => "recovery requires email claim or guardian approval",
            WalletError::GuardianSetEmpty => "no guardians registered for approval flow",
            WalletError::NothingToForward => "no balance available to forward",
        }
    }
}

} // verus!
