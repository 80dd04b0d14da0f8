//! The proof-of-existence module: accounts claim content as theirs, and a
//! piece of content has at most one owner at a time.

use crate::primitives::Identifier;
use crate::storage::StorageMap;
use crate::support::{Dispatch, DispatchError, DispatchResult};
use vstd::prelude::*;

verus! {

/// The types the proof-of-existence module is configured with, on top of
/// those of the system module.
pub trait Config: crate::system::Config {
    /// The content that can be claimed: the bytes themselves, or a hash of
    /// them.
    type Content: Identifier;
}

/// The proof-of-existence module, viewed as the map from each claimed
/// content to its owner.
#[derive(Debug)]
pub struct Pallet<T: Config> {
    claims: StorageMap<T::Content, T::AccountId>,
}

/// The calls that the proof-of-existence module takes.
pub enum Call<T: Config> {
    /// Claim `claim` for the caller.
    CreateClaim { claim: T::Content },
    /// Give up the caller's claim on `claim`.
    RevokeClaim { claim: T::Content },
}

/// The owner of `claim`, if it has one.
pub open spec fn owner_of<C, A>(claims: Map<C, A>, claim: C) -> Option<A> {
    if claims.contains_key(claim) {
        Some(claims[claim])
    } else {
        None
    }
}

/// What claiming `claim` for `caller` leads to: the new claims, or the
/// reason for which the claim is refused.
pub open spec fn create_claim_outcome<C, A>(claims: Map<C, A>, caller: A, claim: C) -> Result<
    Map<C, A>,
    DispatchError,
> {
    if claims.contains_key(claim) {
        Err(DispatchError::AlreadyClaimed)
    } else {
        Ok(claims.insert(claim, caller))
    }
}

/// What revoking `claim` by `caller` leads to: the new claims, or the reason
/// for which the revocation is refused.
pub open spec fn revoke_claim_outcome<C, A>(claims: Map<C, A>, caller: A, claim: C) -> Result<
    Map<C, A>,
    DispatchError,
> {
    if !claims.contains_key(claim) {
        Err(DispatchError::ClaimNotFound)
    } else if claims[claim] != caller {
        Err(DispatchError::NotClaimOwner)
    } else {
        Ok(claims.remove(claim))
    }
}

/// What a call of `caller` leads to.
pub open spec fn call_outcome<T: Config>(
    claims: Map<<T::Content as View>::V, <T::AccountId as View>::V>,
    caller: <T::AccountId as View>::V,
    call: Call<T>,
) -> Result<Map<<T::Content as View>::V, <T::AccountId as View>::V>, DispatchError> {
    match call {
        Call::CreateClaim { claim } => create_claim_outcome(claims, caller, claim@),
        Call::RevokeClaim { claim } => revoke_claim_outcome(claims, caller, claim@),
    }
}

/// Once `first` has claimed free content, it is the owner; a claim by anyone
/// on the same content is refused as already made, and the owner stays. When
/// `first` has revoked the claim the content is free again, and `second` can
/// claim it.
pub proof fn lemma_claim_lifecycle<C, A>(claims: Map<C, A>, first: A, second: A, claim: C)
    requires
        !claims.contains_key(claim),
    ensures
        ({
            let claimed = create_claim_outcome(claims, first, claim);
            &&& claimed is Ok
            &&& owner_of(claimed->Ok_0, claim) == Some(first)
            &&& create_claim_outcome(claimed->Ok_0, second, claim) == Err::<
                Map<C, A>,
                DispatchError,
            >(DispatchError::AlreadyClaimed)
            &&& {
                let revoked = revoke_claim_outcome(claimed->Ok_0, first, claim);
                &&& revoked is Ok
                &&& owner_of(revoked->Ok_0, claim) == None::<A>
                &&& create_claim_outcome(revoked->Ok_0, second, claim) is Ok
                &&& owner_of(create_claim_outcome(revoked->Ok_0, second, claim)->Ok_0, claim)
                    == Some(second)
            }
        }),
{
}

/// A claim can be revoked by its owner only: anyone else is refused, and the
/// claim stays as it is.
pub proof fn lemma_revoke_by_other<C, A>(claims: Map<C, A>, owner: A, other: A, claim: C)
    requires
        !claims.contains_key(claim),
        other != owner,
    ensures
        ({
            let claimed = create_claim_outcome(claims, owner, claim);
            &&& claimed is Ok
            &&& revoke_claim_outcome(claimed->Ok_0, other, claim) == Err::<
                Map<C, A>,
                DispatchError,
            >(DispatchError::NotClaimOwner)
        }),
{
}

impl<T: Config> View for Pallet<T> {
    type V = Map<<T::Content as View>::V, <T::AccountId as View>::V>;

    closed spec fn view(&self) -> Self::V {
        self.claims@.map_values(|owner: T::AccountId| owner@)
    }
}

impl<T: Config> Pallet<T> {
    /// Only finitely many claims are held.
    pub proof fn lemma_finite(&self)
        ensures
            self@.dom().finite(),
    {
        self.claims.lemma_finite();
        assert(self@.dom() =~= self.claims@.dom());
    }

    /// The proof-of-existence module with no content claimed.
    pub fn new() -> (r: Self)
        ensures
            r@ == Map::<<T::Content as View>::V, <T::AccountId as View>::V>::empty(),
    {
        let r = Pallet { claims: StorageMap::new() };
        assert(r@ =~= Map::<<T::Content as View>::V, <T::AccountId as View>::V>::empty());
        r
    }

    /// The owner of `claim`, if it has one.
    pub fn get_claim(&self, claim: &T::Content) -> (r: Option<&T::AccountId>)
        ensures
            match r {
                Some(owner) => owner_of(self@, claim@) == Some(owner@),
                None => owner_of(self@, claim@) == None::<<T::AccountId as View>::V>,
            },
    {
        self.claims.get(claim)
    }

    /// Claims `claim` for `caller`. The claim is refused, and nothing
    /// changes, when the content has an owner already, be it `caller`.
    pub fn create_claim(&mut self, caller: T::AccountId, claim: T::Content) -> (r: DispatchResult)
        ensures
            match create_claim_outcome(old(self)@, caller@, claim@) {
                Ok(claims) => r == Ok::<(), DispatchError>(()) && final(self)@ == claims,
                Err(e) => r == Err::<(), DispatchError>(e) && final(self)@ == old(self)@,
            },
    {
        if self.claims.contains_key(&claim) {
            return Err(DispatchError::AlreadyClaimed);
        }
        self.claims.insert(claim, caller);
        assert(final(self)@ =~= old(self)@.insert(claim@, caller@));
        Ok(())
    }

    /// Gives up the claim of `caller` on `claim`. The revocation is refused,
    /// and nothing changes, when the content has no owner, or another owner
    /// than `caller`.
    pub fn revoke_claim(&mut self, caller: T::AccountId, claim: T::Content) -> (r: DispatchResult)
        ensures
            match revoke_claim_outcome(old(self)@, caller@, claim@) {
                Ok(claims) => r == Ok::<(), DispatchError>(()) && final(self)@ == claims,
                Err(e) => r == Err::<(), DispatchError>(e) && final(self)@ == old(self)@,
            },
    {
        let owner = match self.get_claim(&claim) {
            Some(owner) => owner,
            None => {
                return Err(DispatchError::ClaimNotFound);
            },
        };
        if !owner.same(&caller) {
            return Err(DispatchError::NotClaimOwner);
        }
        self.claims.remove(&claim);
        assert(final(self)@ =~= old(self)@.remove(claim@));
        Ok(())
    }
}

impl<T: Config> Dispatch for Pallet<T> {
    type Caller = T::AccountId;

    type Call = Call<T>;

    /// Carries out `call` for `caller`: a claim or a revocation by `caller`.
    fn dispatch(&mut self, caller: T::AccountId, call: Call<T>) -> (r: DispatchResult)
        ensures
            match call_outcome(old(self)@, caller@, call) {
                Ok(claims) => r == Ok::<(), DispatchError>(()) && final(self)@ == claims,
                Err(e) => r == Err::<(), DispatchError>(e) && final(self)@ == old(self)@,
            },
    {
        match call {
            Call::CreateClaim { claim } => self.create_claim(caller, claim),
            Call::RevokeClaim { claim } => self.revoke_claim(caller, claim),
        }
    }
}

} // verus!
