//! The balances module: what every account holds, and transfers between
//! accounts that neither create nor destroy anything.

use crate::primitives::{Identifier, Unsigned};
use crate::storage::StorageMap;
use crate::support::{Dispatch, DispatchError, DispatchResult};
use vstd::prelude::*;

verus! {

/// The types the balances module is configured with, on top of those of the
/// system module.
pub trait Config: crate::system::Config {
    /// How much an account holds.
    type Balance: Unsigned;
}

/// The balances module, viewed as the map of the balances stored so far. An
/// account without a stored balance holds 0.
#[derive(Debug)]
pub struct Pallet<T: Config> {
    balances: StorageMap<T::AccountId, T::Balance>,
}

/// The calls that the balances module takes.
pub enum Call<T: Config> {
    /// Move `amount` from the caller to `to`.
    Transfer { to: T::AccountId, amount: T::Balance },
}

/// The balance of `who`: what is stored for it, or 0.
pub open spec fn balance_of<A>(balances: Map<A, nat>, who: A) -> nat {
    if balances.contains_key(who) {
        balances[who]
    } else {
        0
    }
}

/// The sum of all stored balances.
pub open spec fn total_supply<A>(balances: Map<A, nat>) -> nat
    decreases balances.dom().len(),
    when balances.dom().finite()
{
    if balances.dom().len() == 0 {
        0
    } else {
        let who = balances.dom().choose();
        balances[who] + total_supply(balances.remove(who))
    }
}

/// What a transfer of `amount` from `caller` to `to` leads to, where no
/// balance may pass `limit`: the new balances, or the reason for which the
/// transfer is refused. The caller is debited first and `to` credited after,
/// so a transfer to oneself leaves the balance as it was.
pub open spec fn transfer_outcome<A>(
    balances: Map<A, nat>,
    caller: A,
    to: A,
    amount: nat,
    limit: nat,
) -> Result<Map<A, nat>, DispatchError> {
    let caller_balance = balance_of(balances, caller);
    if caller_balance < amount {
        Err(DispatchError::InsufficientBalance)
    } else {
        let debited = balances.insert(caller, (caller_balance - amount) as nat);
        let to_balance = balance_of(debited, to);
        if to_balance + amount > limit {
            Err(DispatchError::Overflow)
        } else {
            Ok(debited.insert(to, to_balance + amount))
        }
    }
}

/// What a call of `caller` leads to.
pub open spec fn call_outcome<T: Config>(
    balances: Map<<T::AccountId as View>::V, nat>,
    caller: <T::AccountId as View>::V,
    call: Call<T>,
) -> Result<Map<<T::AccountId as View>::V, nat>, DispatchError> {
    match call {
        Call::Transfer { to, amount } => transfer_outcome(
            balances,
            caller,
            to@,
            amount.value(),
            T::Balance::limit(),
        ),
    }
}

/// The total supply is the balance of any one account plus the total supply
/// of the others.
pub proof fn lemma_total_supply_remove<A>(balances: Map<A, nat>, who: A)
    requires
        balances.dom().finite(),
        balances.contains_key(who),
    ensures
        total_supply(balances) == balances[who] + total_supply(balances.remove(who)),
    decreases balances.dom().len(),
{
    let first = balances.dom().choose();
    if first != who {
        let without_first = balances.remove(first);
        let without_who = balances.remove(who);
        lemma_total_supply_remove(without_first, who);
        lemma_total_supply_remove(without_who, first);
        assert(without_first.remove(who) =~= without_who.remove(first));
    }
}

/// Storing a balance changes the total supply by the difference to what the
/// account held before.
pub proof fn lemma_total_supply_insert<A>(balances: Map<A, nat>, who: A, amount: nat)
    requires
        balances.dom().finite(),
    ensures
        total_supply(balances.insert(who, amount)) + balance_of(balances, who) == total_supply(
            balances,
        ) + amount,
{
    let after = balances.insert(who, amount);
    lemma_total_supply_remove(after, who);
    if balances.contains_key(who) {
        lemma_total_supply_remove(balances, who);
        assert(after.remove(who) =~= balances.remove(who));
    } else {
        assert(after.remove(who) =~= balances);
    }
}

/// A transfer that succeeds between two different accounts takes `amount`
/// from the caller and gives it to `to`; every other balance stays.
pub proof fn lemma_transfer_moves_amount<A>(
    balances: Map<A, nat>,
    caller: A,
    to: A,
    amount: nat,
    limit: nat,
)
    requires
        caller != to,
        transfer_outcome(balances, caller, to, amount, limit) is Ok,
    ensures
        ({
            let after = transfer_outcome(balances, caller, to, amount, limit)->Ok_0;
            &&& balance_of(after, caller) == balance_of(balances, caller) - amount
            &&& balance_of(after, to) == balance_of(balances, to) + amount
            &&& forall|other: A|
                other != caller && other != to ==> balance_of(after, other) == balance_of(
                    balances,
                    other,
                )
        }),
{
}

/// A transfer that succeeds leaves the sum of all balances as it was,
/// whoever it is to.
pub proof fn lemma_transfer_conserves_supply<A>(
    balances: Map<A, nat>,
    caller: A,
    to: A,
    amount: nat,
    limit: nat,
)
    requires
        balances.dom().finite(),
        transfer_outcome(balances, caller, to, amount, limit) is Ok,
    ensures
        transfer_outcome(balances, caller, to, amount, limit)->Ok_0.dom().finite(),
        total_supply(transfer_outcome(balances, caller, to, amount, limit)->Ok_0) == total_supply(
            balances,
        ),
{
    let caller_balance = balance_of(balances, caller);
    let debited = balances.insert(caller, (caller_balance - amount) as nat);
    let to_balance = balance_of(debited, to);
    lemma_total_supply_insert(balances, caller, (caller_balance - amount) as nat);
    lemma_total_supply_insert(debited, to, to_balance + amount);
}

/// A transfer of more than the caller holds is refused for want of funds,
/// and of no other transfer is that said.
pub proof fn lemma_transfer_insufficient<A>(
    balances: Map<A, nat>,
    caller: A,
    to: A,
    amount: nat,
    limit: nat,
)
    ensures
        balance_of(balances, caller) < amount <==> transfer_outcome(
            balances,
            caller,
            to,
            amount,
            limit,
        ) == Err::<Map<A, nat>, DispatchError>(DispatchError::InsufficientBalance),
{
}

/// A transfer to oneself of no more than one holds succeeds and changes no
/// balance, as long as the balance held is within the limit.
pub proof fn lemma_transfer_to_self<A>(balances: Map<A, nat>, caller: A, amount: nat, limit: nat)
    requires
        amount <= balance_of(balances, caller) <= limit,
    ensures
        transfer_outcome(balances, caller, caller, amount, limit) is Ok,
        forall|who: A|
            balance_of(transfer_outcome(balances, caller, caller, amount, limit)->Ok_0, who)
                == balance_of(balances, who),
{
}

impl<T: Config> View for Pallet<T> {
    type V = Map<<T::AccountId as View>::V, nat>;

    closed spec fn view(&self) -> Self::V {
        self.balances@.map_values(|b: T::Balance| b.value())
    }
}

impl<T: Config> Pallet<T> {
    /// Finitely many balances are stored, none above the largest that the
    /// type holds.
    pub proof fn lemma_in_range(&self)
        ensures
            self@.dom().finite(),
            forall|who: <T::AccountId as View>::V| balance_of(self@, who) <= T::Balance::limit(),
    {
        self.balances.lemma_finite();
        assert(self@.dom() =~= self.balances@.dom());
        assert forall|who: <T::AccountId as View>::V| balance_of(self@, who)
            <= T::Balance::limit() by {
            if self@.contains_key(who) {
                self.balances@[who].lemma_in_range();
            }
        }
    }

    /// The balances module with nothing stored: every account holds 0.
    pub fn new() -> (r: Self)
        ensures
            r@ == Map::<<T::AccountId as View>::V, nat>::empty(),
            forall|who: <T::AccountId as View>::V| balance_of(r@, who) == 0,
    {
        let r = Pallet { balances: StorageMap::new() };
        assert(r@ =~= Map::<<T::AccountId as View>::V, nat>::empty());
        r
    }

    /// Sets what `who` holds to `amount`, whatever it held.
    pub fn set_balance(&mut self, who: &T::AccountId, amount: T::Balance)
        ensures
            final(self)@ == old(self)@.insert(who@, amount.value()),
    {
        self.balances.insert(who.duplicate(), amount);
        assert(final(self)@ =~= old(self)@.insert(who@, amount.value()));
    }

    /// What `who` holds.
    pub fn balance(&self, who: &T::AccountId) -> (r: T::Balance)
        ensures
            r.value() == balance_of(self@, who@),
    {
        match self.balances.get(who) {
            Some(b) => *b,
            None => T::Balance::zero(),
        }
    }

    /// Moves `amount` from `caller` to `to`. The transfer is refused, and
    /// nothing changes, when `caller` holds less than `amount`, or when `to`
    /// would come to hold more than the balance type can.
    pub fn transfer(&mut self, caller: T::AccountId, to: T::AccountId, amount: T::Balance) -> (r:
        DispatchResult)
        ensures
            match transfer_outcome(
                old(self)@,
                caller@,
                to@,
                amount.value(),
                T::Balance::limit(),
            ) {
                Ok(balances) => r == Ok::<(), DispatchError>(()) && final(self)@ == balances,
                Err(e) => r == Err::<(), DispatchError>(e) && final(self)@ == old(self)@,
            },
    {
        let caller_balance = self.balance(&caller);
        let new_caller_balance = match caller_balance.checked_sub(amount) {
            Some(b) => b,
            None => {
                return Err(DispatchError::InsufficientBalance);
            },
        };
        let to_balance = if caller.same(&to) {
            new_caller_balance
        } else {
            self.balance(&to)
        };
        let new_to_balance = match to_balance.checked_add(amount) {
            Some(b) => b,
            None => {
                return Err(DispatchError::Overflow);
            },
        };
        proof {
            // What `to` comes to hold is a balance, so it is within the limit.
            new_to_balance.lemma_in_range();
        }
        self.set_balance(&caller, new_caller_balance);
        self.set_balance(&to, new_to_balance);
        Ok(())
    }
}

impl<T: Config> Dispatch for Pallet<T> {
    type Caller = T::AccountId;

    type Call = Call<T>;

    /// Carries out `call` for `caller`: a transfer from `caller`.
    fn dispatch(&mut self, caller: T::AccountId, call: Call<T>) -> (r: DispatchResult)
        ensures
            match call_outcome(old(self)@, caller@, call) {
                Ok(balances) => r == Ok::<(), DispatchError>(()) && final(self)@ == balances,
                Err(e) => r == Err::<(), DispatchError>(e) && final(self)@ == old(self)@,
            },
    {
        match call {
            Call::Transfer { to, amount } => self.transfer(caller, to, amount),
        }
    }
}

} // verus!
