//! The base currency: the collaborator that holds the currency half of
//! every pool's reserves.

use vstd::prelude::*;
use std::collections::HashMap;
use crate::types::AccountId;
use crate::types::Balance;

verus! {

/// Why the currency refused a transfer.
#[derive(Clone, Copy, Debug, PartialEq, Eq, Structural)]
pub enum CurrencyError {
    /// The sender holds less than the amount.
    InsufficientBalance,
    /// The sender must stay alive and would be left below the minimum
    /// balance.
    KeepAlive,
    /// The receiver's balance would leave the numeric range.
    Overflow,
}

/// The free balances after `amount` went from `from` to `to`. The debit is
/// applied first, so a transfer to oneself changes nothing.
pub open spec fn moved(
    balances: Map<AccountId, Balance>,
    from: AccountId,
    to: AccountId,
    amount: Balance,
) -> Map<AccountId, Balance> {
    let debited = balances.insert(from, (balances[from] - amount) as Balance);
    debited.insert(to, (debited[to] + amount) as Balance)
}

/// A ledger of exactly one asset, the base currency.
///
/// The pools read the free balance of their reserve accounts from it and
/// ask it to move currency between traders and reserves. An implementation
/// decides by itself when a transfer is refused; it promises that a refused
/// transfer moves nothing and that an accepted one moves exactly the amount.
pub trait Currency: Sized {
    /// The free balance of every account.
    spec fn balances(&self) -> Map<AccountId, Balance>;

    /// What [`Currency::transfer`] answers in this state.
    spec fn transfer_outcome(
        &self,
        from: AccountId,
        to: AccountId,
        amount: Balance,
        keep_alive: bool,
    ) -> Result<(), CurrencyError>;

    /// The free balance of `who`.
    fn free_balance(&self, who: AccountId) -> (balance: Balance)
        ensures
            balance == self.balances()[who],
    ;

    /// Moves `amount` from `from` to `to`. With `keep_alive` the sender
    /// must not be emptied below what keeps its account alive.
    fn transfer(&mut self, from: AccountId, to: AccountId, amount: Balance, keep_alive: bool) -> (result:
        Result<(), CurrencyError>)
        ensures
            result == old(self).transfer_outcome(from, to, amount, keep_alive),
            result is Ok ==> {
                &&& amount <= old(self).balances()[from]
                &&& from != to ==> old(self).balances()[to] + amount <= u128::MAX
                &&& final(self).balances() == moved(old(self).balances(), from, to, amount)
            },
            result is Err ==> *final(self) == *old(self),
    ;
}

/// The least balance that keeps an account of [`Balances`] alive.
pub const EXISTENTIAL_DEPOSIT: Balance = 1;

/// An in-memory currency ledger.
///
/// It refuses a transfer that the sender cannot cover, one that would leave
/// a sender that must stay alive with less than [`EXISTENTIAL_DEPOSIT`],
/// and one that the receiver's balance cannot hold.
pub struct Balances {
    free: HashMap<AccountId, Balance>,
}

impl Balances {
    /// A ledger in which nobody holds anything.
    pub fn new() -> (ledger: Self)
        ensures
            ledger.balances() == Map::total(|who: AccountId| 0u128),
    {
        let ledger = Balances { free: HashMap::new() };
        proof {
            assert(ledger.balances() =~= Map::total(|who: AccountId| 0u128));
        }
        ledger
    }

    /// Sets the free balance of `who` to `value`.
    pub fn make_free_balance_be(&mut self, who: AccountId, value: Balance)
        ensures
            final(self).balances() == old(self).balances().insert(who, value),
    {
        self.free.insert(who, value);
        proof {
            assert(self.balances() =~= old(self).balances().insert(who, value));
        }
    }
}

impl Currency for Balances {
    closed spec fn balances(&self) -> Map<AccountId, Balance> {
        Map::total(
            |who: AccountId|
                if self.free@.contains_key(who) {
                    self.free@[who]
                } else {
                    0
                },
        )
    }

    open spec fn transfer_outcome(
        &self,
        from: AccountId,
        to: AccountId,
        amount: Balance,
        keep_alive: bool,
    ) -> Result<(), CurrencyError> {
        if self.balances()[from] < amount {
            Err(CurrencyError::InsufficientBalance)
        } else if keep_alive && self.balances()[from] - amount < EXISTENTIAL_DEPOSIT {
            Err(CurrencyError::KeepAlive)
        } else if from != to && self.balances()[to] + amount > u128::MAX {
            Err(CurrencyError::Overflow)
        } else {
            Ok(())
        }
    }

    fn free_balance(&self, who: AccountId) -> (balance: Balance) {
        match self.free.get(&who) {
            Some(v) => *v,
            None => 0,
        }
    }

    fn transfer(&mut self, from: AccountId, to: AccountId, amount: Balance, keep_alive: bool) -> (result:
        Result<(), CurrencyError>) {
        let from_balance = self.free_balance(from);
        if from_balance < amount {
            return Err(CurrencyError::InsufficientBalance);
        }
        let remaining = from_balance - amount;
        if keep_alive && remaining < EXISTENTIAL_DEPOSIT {
            return Err(CurrencyError::KeepAlive);
        }
        if from != to {
            let to_balance = self.free_balance(to);
            let raised = match to_balance.checked_add(amount) {
                Some(sum) => sum,
                None => {
                    return Err(CurrencyError::Overflow);
                },
            };
            self.free.insert(from, remaining);
            self.free.insert(to, raised);
        }
        proof {
            assert(self.balances() =~= moved(old(self).balances(), from, to, amount));
        }
        Ok(())
    }
}

} // verus!
