//! The system module: the number of the current block, and for every
//! account the number of extrinsics it has had processed.

use crate::primitives::{next_up_to, Identifier, Unsigned};
use crate::storage::StorageMap;
use vstd::prelude::*;

verus! {

/// The types the system module is configured with.
pub trait Config {
    /// How accounts are identified.
    type AccountId: Identifier;

    /// How blocks are counted.
    type BlockNumber: Unsigned;

    /// How an account's extrinsics are counted.
    type Nonce: Unsigned;
}

/// The system module.
#[derive(Debug)]
pub struct Pallet<T: Config> {
    block_number: T::BlockNumber,
    nonce: StorageMap<T::AccountId, T::Nonce>,
}

/// What the system module holds: the current block number, and the nonces
/// stored so far. An account without a stored nonce has nonce 0.
#[verifier::reject_recursive_types(A)]
pub ghost struct State<A> {
    pub block_number: nat,
    pub nonces: Map<A, nat>,
}

/// The nonce of `who`: what is stored for it, or 0.
pub open spec fn nonce_of<A>(nonces: Map<A, nat>, who: A) -> nat {
    if nonces.contains_key(who) {
        nonces[who]
    } else {
        0
    }
}

/// The nonces after one more extrinsic of `who`: its nonce goes up by one,
/// unless it has reached `limit`.
pub open spec fn nonces_after_inc<A>(nonces: Map<A, nat>, who: A, limit: nat) -> Map<A, nat> {
    nonces.insert(who, next_up_to(nonce_of(nonces, who), limit))
}

/// The nonces after `times` more extrinsics of `who`.
pub open spec fn nonces_after_incs<A>(nonces: Map<A, nat>, who: A, limit: nat, times: nat) -> Map<
    A,
    nat,
>
    decreases times,
{
    if times == 0 {
        nonces
    } else {
        nonces_after_inc(nonces_after_incs(nonces, who, limit, (times - 1) as nat), who, limit)
    }
}

/// Incrementing the nonce of one account lowers the nonce of none, and
/// changes that of no other account.
pub proof fn lemma_inc_nonce_monotonic<A>(nonces: Map<A, nat>, who: A, limit: nat, other: A)
    requires
        nonce_of(nonces, who) <= limit,
    ensures
        nonce_of(nonces_after_inc(nonces, who, limit), other) >= nonce_of(nonces, other),
        other != who ==> nonce_of(nonces_after_inc(nonces, who, limit), other) == nonce_of(
            nonces,
            other,
        ),
{
}

/// After `times` increments the nonce of an account has gone up by `times`,
/// or has stopped at `limit`; so from nonce 0 it is `times` for as long as
/// `times` is within the limit.
pub proof fn lemma_inc_nonce_repeated<A>(nonces: Map<A, nat>, who: A, limit: nat, times: nat)
    requires
        nonce_of(nonces, who) <= limit,
    ensures
        nonce_of(nonces_after_incs(nonces, who, limit, times), who) == if nonce_of(nonces, who)
            + times <= limit {
            nonce_of(nonces, who) + times
        } else {
            limit
        },
    decreases times,
{
    if times > 0 {
        lemma_inc_nonce_repeated(nonces, who, limit, (times - 1) as nat);
    }
}

impl<T: Config> View for Pallet<T> {
    type V = State<<T::AccountId as View>::V>;

    closed spec fn view(&self) -> Self::V {
        State {
            block_number: self.block_number.value(),
            nonces: self.nonce@.map_values(|n: T::Nonce| n.value()),
        }
    }
}

impl<T: Config> Pallet<T> {
    /// No block, and no nonce above the largest that the type holds.
    pub proof fn lemma_in_range(&self)
        ensures
            self@.block_number <= T::BlockNumber::limit(),
            forall|who: <T::AccountId as View>::V|
                nonce_of(self@.nonces, who) <= T::Nonce::limit(),
            self@.nonces.dom().finite(),
    {
        self.block_number.lemma_in_range();
        self.nonce.lemma_finite();
        assert forall|who: <T::AccountId as View>::V|
            nonce_of(self@.nonces, who) <= T::Nonce::limit() by {
            if self@.nonces.contains_key(who) {
                self.nonce@[who].lemma_in_range();
            }
        }
        assert(self@.nonces.dom() =~= self.nonce@.dom());
    }

    /// The system module before any block: block number 0, and nonce 0 for
    /// every account.
    pub fn new() -> (r: Self)
        ensures
            r@.block_number == 0,
            r@.nonces == Map::<<T::AccountId as View>::V, nat>::empty(),
            forall|who: <T::AccountId as View>::V| nonce_of(r@.nonces, who) == 0,
    {
        let r = Pallet { block_number: T::BlockNumber::zero(), nonce: StorageMap::new() };
        assert(r@.nonces =~= Map::<<T::AccountId as View>::V, nat>::empty());
        r
    }

    /// The current block number.
    pub fn block_number(&self) -> (r: T::BlockNumber)
        ensures
            r.value() == self@.block_number,
    {
        self.block_number
    }

    /// Moves on to the next block number. At the largest number that the
    /// type holds, the block number stays.
    pub fn inc_block_number(&mut self)
        ensures
            final(self)@.block_number == next_up_to(
                old(self)@.block_number,
                T::BlockNumber::limit(),
            ),
            final(self)@.nonces == old(self)@.nonces,
    {
        self.block_number = self.block_number.saturating_next();
    }

    /// The nonce of `who`: 0 until its first extrinsic.
    pub fn nonce(&self, who: &T::AccountId) -> (r: T::Nonce)
        ensures
            r.value() == nonce_of(self@.nonces, who@),
    {
        match self.nonce.get(who) {
            Some(n) => *n,
            None => T::Nonce::zero(),
        }
    }

    /// Counts one more extrinsic of `who`. At the largest number that the
    /// type holds, the nonce stays.
    pub fn inc_nonce(&mut self, who: &T::AccountId)
        ensures
            final(self)@.nonces == nonces_after_inc(old(self)@.nonces, who@, T::Nonce::limit()),
            final(self)@.block_number == old(self)@.block_number,
    {
        let next = self.nonce(who).saturating_next();
        let ghost before = self.nonce@;
        self.nonce.insert(who.duplicate(), next);
        assert(final(self)@.nonces =~= nonces_after_inc(
            old(self)@.nonces,
            who@,
            T::Nonce::limit(),
        )) by {
            assert(self.nonce@ == before.insert(who@, next));
        }
    }
}

} // verus!
