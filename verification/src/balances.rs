//! The balances pallet: a ledger from accounts to balances.
//!
//! An account without an entry holds nothing. The only call is a transfer,
//! which either moves the whole amount or leaves the ledger as it was.

use crate::numeric::Amount;
use crate::storage::{Key, StorageMap};
use crate::support::{outcome, stored_or_zero, Dispatch, DispatchResult};
use crate::system::Account;
use vstd::prelude::*;

verus! {

/// The reason given where the caller holds less than the amount.
pub const INSUFFICIENT_FUNDS: &'static str = "Not enough funds.";

/// The reason given where the receiver's balance would pass the limit.
pub const OVERFLOW: &'static str = "Overflow";

/// What the pallet needs beyond the system's types.
pub trait Config: crate::system::Config {
    /// The quantity that accounts hold.
    type Balance: Amount;
}

/// The sum of all balances of a ledger.
pub open spec fn total<Id>(balances: Map<Id, nat>) -> nat
    decreases balances.dom().len(),
    when balances.dom().finite()
    via total_decreases::<Id>
{
    if balances.dom().len() == 0 {
        0
    } else {
        let who = balances.dom().choose();
        balances[who] + total(balances.remove(who))
    }
}

#[via_fn]
proof fn total_decreases<Id>(balances: Map<Id, nat>) {
    if balances.dom().len() != 0 {
        let who = balances.dom().choose();
        assert(balances.dom().contains(who));
        assert(balances.remove(who).dom() =~= balances.dom().remove(who));
    }
}

/// The ledger after a transfer of `amount` from `caller` to `to`, or the
/// reason for which the transfer is refused.
///
/// Both balances are read before either is written, and the receiver's is
/// written last. A transfer to oneself that passes both checks therefore
/// leaves the caller with the old balance plus `amount`.
pub open spec fn transfer_spec<Id>(
    balances: Map<Id, nat>,
    caller: Id,
    to: Id,
    amount: nat,
    limit: nat,
) -> Result<Map<Id, nat>, Seq<char>> {
    let caller_balance = stored_or_zero(balances, caller);
    let to_balance = stored_or_zero(balances, to);
    if caller_balance < amount {
        Err(INSUFFICIENT_FUNDS@)
    } else if to_balance + amount > limit {
        Err(OVERFLOW@)
    } else {
        Ok(
            balances.insert(caller, (caller_balance - amount) as nat).insert(
                to,
                to_balance + amount,
            ),
        )
    }
}

/// The total of a ledger is the balance of any one account plus the total
/// of the ledger without that account.
pub proof fn lemma_total_split<Id>(balances: Map<Id, nat>, who: Id)
    requires
        balances.dom().finite(),
    ensures
        total(balances) == stored_or_zero(balances, who) + total(balances.remove(who)),
    decreases balances.dom().len(),
{
    if !balances.contains_key(who) {
        assert(balances.remove(who) =~= balances);
    } else {
        let first = balances.dom().choose();
        assert(balances.dom().len() != 0);
        if first != who {
            let rest = balances.remove(first);
            assert(rest.dom() =~= balances.dom().remove(first));
            lemma_total_split(rest, who);
            let other = balances.remove(who);
            assert(other.dom() =~= balances.dom().remove(who));
            lemma_total_split(other, first);
            assert(rest.remove(who) =~= other.remove(first));
        }
    }
}

/// Writing a balance changes the total by the difference to what the
/// account held before.
pub proof fn lemma_total_insert<Id>(balances: Map<Id, nat>, who: Id, balance: nat)
    requires
        balances.dom().finite(),
    ensures
        total(balances.insert(who, balance)) + stored_or_zero(balances, who) == total(balances)
            + balance,
{
    let after = balances.insert(who, balance);
    lemma_total_split(balances, who);
    lemma_total_split(after, who);
    assert(after.remove(who) =~= balances.remove(who));
}

/// A transfer between two accounts takes `amount` from the caller, gives it
/// to the receiver, touches no other account and keeps the total.
pub proof fn lemma_transfer_conserves<Id>(
    balances: Map<Id, nat>,
    caller: Id,
    to: Id,
    amount: nat,
    limit: nat,
)
    requires
        balances.dom().finite(),
        caller != to,
        transfer_spec(balances, caller, to, amount, limit) is Ok,
    ensures
        ({
            let after = transfer_spec(balances, caller, to, amount, limit)->Ok_0;
            &&& stored_or_zero(after, caller) + amount == stored_or_zero(balances, caller)
            &&& stored_or_zero(after, to) == stored_or_zero(balances, to) + amount
            &&& forall|other: Id|
                other != caller && other != to ==> stored_or_zero(after, other) == stored_or_zero(
                    balances,
                    other,
                )
            &&& after.dom().finite()
            &&& total(after) == total(balances)
        }),
{
    let caller_balance = stored_or_zero(balances, caller);
    let to_balance = stored_or_zero(balances, to);
    let debited = balances.insert(caller, (caller_balance - amount) as nat);
    lemma_total_insert(balances, caller, (caller_balance - amount) as nat);
    lemma_total_insert(debited, to, to_balance + amount);
}

/// A refused transfer names its reason: too little on the caller's side
/// comes first, too much on the receiver's side second.
pub proof fn lemma_transfer_refused<Id>(
    balances: Map<Id, nat>,
    caller: Id,
    to: Id,
    amount: nat,
    limit: nat,
)
    ensures
        transfer_spec(balances, caller, to, amount, limit) is Err <==> (stored_or_zero(
            balances,
            caller,
        ) < amount || stored_or_zero(balances, to) + amount > limit),
        stored_or_zero(balances, caller) < amount ==> transfer_spec(
            balances,
            caller,
            to,
            amount,
            limit,
        ) == Err::<Map<Id, nat>, Seq<char>>(INSUFFICIENT_FUNDS@),
        INSUFFICIENT_FUNDS@ != OVERFLOW@,
{
    reveal_strlit("Not enough funds.");
    reveal_strlit("Overflow");
    assert(INSUFFICIENT_FUNDS@.len() == 17);
    assert(OVERFLOW@.len() == 8);
}

/// The ledger.
#[derive(Debug)]
pub struct Pallet<T: Config> {
    balances: StorageMap<T::AccountId, T::Balance>,
}

impl<T: Config> View for Pallet<T> {
    type V = Map<Account<T>, nat>;

    closed spec fn view(&self) -> Map<Account<T>, nat> {
        self.balances@.map_values(|b: T::Balance| b.value())
    }
}

impl<T: Config> Pallet<T> {
    /// What `who` holds: zero without an entry.
    pub open spec fn balance_of(&self, who: Account<T>) -> nat {
        stored_or_zero(self@, who)
    }

    /// The ledger has finitely many entries, none above the limit.
    pub proof fn lemma_bounded(&self)
        ensures
            self@.dom().finite(),
            forall|who: Account<T>| #[trigger] self.balance_of(who) <= T::Balance::limit(),
    {
        self.balances.lemma_finite();
        assert(self@.dom() =~= self.balances@.dom());
        assert forall|who: Account<T>| #[trigger] self.balance_of(who) <= T::Balance::limit() by {
            if self.balances@.contains_key(who) {
                self.balances@[who].lemma_within_limit();
            }
        }
    }

    /// The empty ledger.
    pub fn new() -> (r: Self)
        ensures
            r@ == Map::<Account<T>, nat>::empty(),
    {
        let r = Pallet { balances: StorageMap::new() };
        assert(r@ =~= Map::<Account<T>, nat>::empty());
        r
    }

    /// Writes the balance of `who`, whatever it was.
    pub fn set_balance(&mut self, who: &T::AccountId, amount: T::Balance)
        ensures
            final(self)@ == old(self)@.insert(who@, amount.value()),
    {
        self.balances.insert(who.duplicate(), amount);
        assert(self@ =~= old(self)@.insert(who@, amount.value()));
    }

    /// What `who` holds.
    pub fn balance(&self, who: &T::AccountId) -> (r: T::Balance)
        ensures
            r.value() == self.balance_of(who@),
    {
        match self.balances.get(who) {
            Some(b) => *b,
            None => T::Balance::zero(),
        }
    }

    /// Moves `amount` from `caller` to `to`, or refuses and changes nothing.
    pub fn transfer(&mut self, caller: T::AccountId, to: T::AccountId, amount: T::Balance) -> (result:
        DispatchResult)
        ensures
            match transfer_spec(old(self)@, caller@, to@, amount.value(), T::Balance::limit()) {
                Ok(balances) => result is Ok && final(self)@ == balances,
                Err(reason) => outcome(result) == Err::<(), Seq<char>>(reason) && final(self)@ == old(
                    self,
                )@,
            },
            result is Ok && caller@ != to@ ==> total(final(self)@) == total(old(self)@),
    {
        proof {
            self.lemma_bounded();
            if transfer_spec(old(self)@, caller@, to@, amount.value(), T::Balance::limit()) is Ok
                && caller@ != to@ {
                lemma_transfer_conserves(
                    old(self)@,
                    caller@,
                    to@,
                    amount.value(),
                    T::Balance::limit(),
                );
            }
        }
        let caller_balance = self.balance(&caller);
        let to_balance = self.balance(&to);
        let new_caller_balance = match caller_balance.checked_sub(&amount) {
            Some(rest) => rest,
            None => {
                return Err(INSUFFICIENT_FUNDS);
            },
        };
        let new_to_balance = match to_balance.checked_add(&amount) {
            Some(sum) => sum,
            None => {
                return Err(OVERFLOW);
            },
        };
        proof {
            new_to_balance.lemma_within_limit();
        }
        self.balances.insert(caller, new_caller_balance);
        self.balances.insert(to, new_to_balance);
        assert(self@ =~= old(self)@.insert(caller@, new_caller_balance.value()).insert(
            to@,
            new_to_balance.value(),
        ));
        Ok(())
    }
}

/// The calls that the pallet answers.
#[allow(non_camel_case_types)]
pub enum Call<T: Config> {
    /// Move `amount` from the caller to `to`.
    transfer { to: T::AccountId, amount: T::Balance },
}

impl<T: Config> Dispatch for Pallet<T> {
    type Caller = T::AccountId;

    type Call = Call<T>;

    open spec fn dispatched(
        &self,
        caller: Self::Caller,
        call: Self::Call,
        after: &Self,
        result: DispatchResult,
    ) -> bool {
        match call {
            Call::transfer { to, amount } => match transfer_spec(
                self@,
                caller@,
                to@,
                amount.value(),
                T::Balance::limit(),
            ) {
                Ok(balances) => result is Ok && after@ == balances,
                Err(reason) => outcome(result) == Err::<(), Seq<char>>(reason) && after@ == self@,
            },
        }
    }

    fn dispatch(&mut self, caller: Self::Caller, call: Self::Call) -> (result: DispatchResult) {
        match call {
            Call::transfer { to, amount } => {
                self.transfer(caller, to, amount)?;
            },
        }
        Ok(())
    }
}

} // verus!
