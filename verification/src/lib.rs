//! Authorization core of a recoverable on-chain wallet.
//!
//! The library decides who may move funds held by a wallet and how control
//! of the wallet can be transferred, including emergency recovery when the
//! primary credential is unavailable.  The wallet record itself
//! ([`GhostWallet`]) is a fixed-shape struct; the host environment that the
//! deployed wallet runs under (persistent storage, the caller-proved-control
//! primitive, the token-transfer service) is kept outside: callers hand each
//! operation an [`AuthContext`] naming the addresses the host has verified,
//! and operations that move value return a [`TokenTransfer`] instruction for
//! the token service to carry out.

mod error;
mod types;
mod seq_util;
mod model;
mod wallet;
mod laws;

pub use error::WalletError;
pub use laws::{
    lemma_asset_removal_preserves_order, lemma_email_claim_takes_precedence,
    lemma_forward_balance_never_consults_guardians, lemma_guardian_misconfiguration_is_fatal,
    lemma_guardian_removal_preserves_order, lemma_initialize_at_most_once,
    lemma_initialized_is_permanent, lemma_operations_preserve_wf, lemma_recovery_denied_without_credentials,
    lemma_recovery_email_immutable, lemma_uninitialized_rejects_everything,
    lemma_update_allowed_asset_idempotent, lemma_update_allowed_asset_membership,
    lemma_update_allowed_asset_noop, lemma_update_guardian_idempotent,
    lemma_update_guardian_membership, lemma_update_guardian_noop,
};
pub use model::{
    WalletModel, claim_matches, default_asset_codes, first_match, first_match_from,
    spec_forward_balance, spec_get_allowed_assets, spec_get_owner, spec_get_recovery_email,
    spec_guardian_approval, spec_has_field, spec_initialize, spec_social_recover,
    spec_transfer_ownership, spec_update_allowed_asset, spec_update_guardian, spec_withdraw,
};
pub use types::{Address, AuthContext, DataKey, TokenTransfer};
pub use wallet::GhostWallet;
pub use seq_util::{insert_val, remove_val, surviving_index};
pub use seq_util::{
    lemma_insert_idempotent, lemma_insert_membership, lemma_insert_present_noop,
    lemma_remove_absent_noop, lemma_remove_idempotent, lemma_remove_membership,
    lemma_remove_not_contains, lemma_remove_preserves_order, lemma_remove_survivor_position,
    lemma_remove_take_prefix, lemma_remove_take_step,
};
