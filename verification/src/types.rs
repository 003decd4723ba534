use vstd::prelude::*;

verus! {

/// The names of the persistent fields a wallet record can hold: the
/// record's key space is this closed set, nothing else is ever stored.
///
/// `Balance` is declared for completeness but never written by any
/// operation; token balances live with the external token service.
#[derive(Clone, Copy, Debug, PartialEq, Eq, Structural)]
pub enum DataKey {
    Owner,
    RecoveryEmail,
    Balance,
    IsInitialized,
    AllowedRecipient,
    AllowedAssets,
    Guardians,
}

/// An account identity, standing in for a ledger address.
///
/// The wallet logic only ever compares addresses for equality; what an
/// address proves or signs is the host's concern.
#[derive(Clone, Copy, Debug, PartialEq, Eq, Structural)]
pub struct Address {
    pub id: u64,
}

impl Address {
    pub fn new(id: u64) -> (a: Address)
        ensures
            a.id == id,
    {
        Address { id }
    }
}

/// The addresses whose control the host has verified for the current call.
///
/// This is the injected form of the host's require-control-of-address
/// primitive: instead of the core asking the host to abort when a proof is
/// missing, the host hands each operation the set of addresses the invoking
/// transaction has proven, and the core consults it afresh on every
/// privileged call.  Its view is the sequence of proven addresses.
pub struct AuthContext {
    proven: Vec<Address>,
}

impl View for AuthContext {
    type V = Seq<Address>;

    closed spec fn view(&self) -> Seq<Address> {
        self.proven@
    }
}

impl AuthContext {
    /// An authorization context proving control of exactly `proven`.
    pub fn new(proven: Vec<Address>) -> (ctx: AuthContext)
        ensures
            ctx@ == proven@,
    {
        AuthContext { proven }
    }

    /// A context proving control of no address at all.
    pub fn none() -> (ctx: AuthContext)
        ensures
            ctx@ == Seq::<Address>::empty(),
    {
        AuthContext { proven: Vec::new() }
    }

    /// Whether the caller has proven control of `a`.
    pub fn controls(&self, a: Address) -> (r: bool)
        ensures
            r == self@.contains(a),
    {
        contains_address(&self.proven, a)
    }
}

/// An instruction for the external token service: move `amount` units of
/// the token contract at `token` out of the wallet's own account into `to`.
#[derive(Clone, Copy, Debug, PartialEq, Eq, Structural)]
pub struct TokenTransfer {
    /// The address of the token contract to invoke.
    pub token: Address,
    /// The recipient of the transfer.
    pub to: Address,
    /// The number of units to move; always strictly positive for a sweep.
    pub amount: i128,
}

/// Whether `target` occurs in `list`.
pub(crate) fn contains_address(list: &Vec<Address>, target: Address) -> (r: bool)
    ensures
        r == list@.contains(target),
{
    let mut i: usize = 0;
    while i < list.len()
        invariant
            i <= list@.len(),
            forall|k: int| 0 <= k < i ==> list@[k] != target,
        decreases list@.len() - i,
    {
        if list[i] == target {
            assert(list@.contains(target));
            return true;
        }
        i += 1;
    }
    false
}

} // verus!
