//! The executable ledger.

use vstd::prelude::*;
use std::collections::HashMap;
use crate::fungible::state::Error;
use crate::fungible::state::Event;
use crate::fungible::state::LedgerState;
use crate::types::AccountId;
use crate::types::TokenBalance;
use crate::types::TokenId;

verus! {

/// Key of the storage entry of a pair of identifiers: the first one in the
/// upper 64 bits, the second in the lower.
spec fn pair_key(first: u64, second: u64) -> u128 {
    (first as u128 * 0x1_0000_0000_0000_0000 + second as u128) as u128
}

/// Distinct pairs have distinct keys.
proof fn lemma_pair_key_injective(a: u64, b: u64, c: u64, d: u64)
    requires
        pair_key(a, b) == pair_key(c, d),
    ensures
        a == c,
        b == d,
{
}

/// Computes the key of a pair.
fn make_pair_key(first: u64, second: u64) -> (key: u128)
    ensures
        key == pair_key(first, second),
{
    first as u128 * 0x1_0000_0000_0000_0000 + second as u128
}

/// What a storage map holds under `key`: zero where it has no entry.
spec fn stored<K>(entries: Map<K, TokenBalance>, key: K) -> TokenBalance {
    if entries.contains_key(key) {
        entries[key]
    } else {
        0
    }
}

/// What the two-level allowance storage holds for a spender.
spec fn stored_allowance(
    entries: Map<u128, HashMap<AccountId, TokenBalance>>,
    key: u128,
    spender: AccountId,
) -> TokenBalance {
    if entries.contains_key(key) {
        stored(entries[key]@, spender)
    } else {
        0
    }
}

/// The token ledger.
///
/// Owns the balances, allowances and supply of every asset, and the
/// notifications its operations emitted since the host last collected them.
pub struct Module {
    token_count: TokenId,
    balances: HashMap<u128, TokenBalance>,
    allowances: HashMap<u128, HashMap<AccountId, TokenBalance>>,
    total_supply: HashMap<TokenId, TokenBalance>,
    events: Vec<Event>,
}

impl View for Module {
    type V = LedgerState;

    closed spec fn view(&self) -> LedgerState {
        LedgerState {
            token_count: self.token_count,
            balances: Map::total(
                |k: (TokenId, AccountId)| stored(self.balances@, pair_key(k.0, k.1)),
            ),
            allowances: Map::total(
                |k: (TokenId, AccountId, AccountId)|
                    stored_allowance(self.allowances@, pair_key(k.0, k.1), k.2),
            ),
            total_supply: Map::total(|id: TokenId| stored(self.total_supply@, id)),
            events: self.events@,
        }
    }
}

impl Module {
    /// Validity of the ledger: the supply of every asset is the sum of what
    /// its owners hold, and nothing is held of an asset not yet issued.
    pub open spec fn wf(&self) -> bool {
        self@.wf()
    }

    /// A ledger without assets.
    pub fn new() -> (ledger: Self)
        ensures
            ledger.wf(),
            ledger@ == LedgerState::empty(),
    {
        let ledger = Module {
            token_count: 0,
            balances: HashMap::new(),
            allowances: HashMap::new(),
            total_supply: HashMap::new(),
            events: Vec::new(),
        };
        proof {
            LedgerState::lemma_empty_wf();
            assert(ledger@ =~= LedgerState::empty());
        }
        ledger
    }

    /// Number of assets issued so far, which is the identifier that the next
    /// asset will get.
    pub fn token_count(&self) -> (count: TokenId)
        ensures
            count == self@.token_count,
    {
        self.token_count
    }

    /// What `key.1` holds of asset `key.0`.
    pub fn balance_of(&self, key: (TokenId, AccountId)) -> (balance: TokenBalance)
        ensures
            balance == self@.balance_of(key.0, key.1),
    {
        let k = make_pair_key(key.0, key.1);
        match self.balances.get(&k) {
            Some(v) => *v,
            None => 0,
        }
    }

    /// What spender `key.2` may still move of asset `key.0` on behalf of
    /// owner `key.1`.
    pub fn allowance(&self, key: (TokenId, AccountId, AccountId)) -> (allowed: TokenBalance)
        ensures
            allowed == self@.allowance(key.0, key.1, key.2),
    {
        let k = make_pair_key(key.0, key.1);
        match self.allowances.get(&k) {
            Some(spenders) => match spenders.get(&key.2) {
                Some(v) => *v,
                None => 0,
            },
            None => 0,
        }
    }

    /// Supply of asset `id`.
    pub fn total_supply(&self, id: TokenId) -> (supply: TokenBalance)
        ensures
            supply == self@.supply(id),
    {
        match self.total_supply.get(&id) {
            Some(v) => *v,
            None => 0,
        }
    }

    /// The notifications emitted since the host last collected them, oldest
    /// first.
    pub fn events(&self) -> (events: &Vec<Event>)
        ensures
            events@ == self@.events,
    {
        &self.events
    }

    /// Hands the pending notifications to the host and forgets them.
    pub fn take_events(&mut self) -> (events: Vec<Event>)
        ensures
            events@ == old(self)@.events,
            final(self)@ == (LedgerState { events: Seq::empty(), ..old(self)@ }),
            old(self).wf() ==> final(self).wf(),
    {
        let mut events: Vec<Event> = Vec::new();
        std::mem::swap(&mut self.events, &mut events);
        proof {
            assert(self@ =~= (LedgerState { events: Seq::empty(), ..old(self)@ }));
        }
        events
    }

    fn set_balance(&mut self, id: TokenId, who: AccountId, value: TokenBalance)
        ensures
            final(self)@ == (LedgerState {
                balances: old(self)@.balances.insert((id, who), value),
                ..old(self)@
            }),
    {
        let k = make_pair_key(id, who);
        self.balances.insert(k, value);
        proof {
            let expected = LedgerState {
                balances: old(self)@.balances.insert((id, who), value),
                ..old(self)@
            };
            assert forall|other: (TokenId, AccountId)|
                self@.balances[other] == expected.balances[other] by {
                if pair_key(other.0, other.1) == k {
                    lemma_pair_key_injective(other.0, other.1, id, who);
                }
            }
            assert(self@ =~= expected);
        }
    }

    fn set_supply(&mut self, id: TokenId, value: TokenBalance)
        ensures
            final(self)@ == (LedgerState {
                total_supply: old(self)@.total_supply.insert(id, value),
                ..old(self)@
            }),
    {
        self.total_supply.insert(id, value);
        proof {
            assert(self@ =~= (LedgerState {
                total_supply: old(self)@.total_supply.insert(id, value),
                ..old(self)@
            }));
        }
    }

    fn set_allowance(
        &mut self,
        id: TokenId,
        owner: AccountId,
        spender: AccountId,
        value: TokenBalance,
    )
        ensures
            final(self)@ == (LedgerState {
                allowances: old(self)@.allowances.insert((id, owner, spender), value),
                ..old(self)@
            }),
    {
        let k = make_pair_key(id, owner);
        let mut spenders = match self.allowances.remove(&k) {
            Some(found) => found,
            None => HashMap::new(),
        };
        spenders.insert(spender, value);
        self.allowances.insert(k, spenders);
        proof {
            let expected = LedgerState {
                allowances: old(self)@.allowances.insert((id, owner, spender), value),
                ..old(self)@
            };
            assert forall|other: (TokenId, AccountId, AccountId)|
                self@.allowances[other] == expected.allowances[other] by {
                if pair_key(other.0, other.1) == k {
                    lemma_pair_key_injective(other.0, other.1, id, owner);
                }
            }
            assert(self@ =~= expected);
        }
    }

    fn deposit_event(&mut self, event: Event)
        ensures
            final(self)@ == old(self)@.emit(event),
    {
        self.events.push(event);
        proof {
            assert(self@ =~= old(self)@.emit(event));
        }
    }

    /// Issues the next asset identifier, with `total_supply` units, all
    /// held by `who`.
    ///
    /// Fails with `IdSpaceExhausted`, changing nothing, once every
    /// identifier has been issued. The identifier returned was never issued
    /// before: it is the number of assets issued so far.
    pub fn create_token(&mut self, who: AccountId, total_supply: TokenBalance) -> (result: Result<
        TokenId,
        Error,
    >)
        requires
            old(self).wf(),
        ensures
            final(self).wf(),
            match result {
                Ok(id) => {
                    &&& old(self)@.token_count < u64::MAX
                    &&& id == old(self)@.token_count
                    &&& final(self)@ == old(self)@.created(who, total_supply)
                },
                Err(e) => {
                    &&& e == Error::IdSpaceExhausted
                    &&& old(self)@.token_count == u64::MAX
                    &&& final(self)@ == old(self)@
                },
            },
    {
        let id = self.token_count;
        let next_id = match id.checked_add(1) {
            Some(next) => next,
            None => {
                return Err(Error::IdSpaceExhausted);
            },
        };
        proof {
            old(self)@.lemma_created_wf(who, total_supply);
        }
        self.set_balance(id, who, total_supply);
        self.set_supply(id, total_supply);
        self.token_count = next_id;
        self.deposit_event(Event::AssetCreated(id, who, total_supply));
        proof {
            assert(self@ =~= old(self)@.created(who, total_supply));
        }
        Ok(id)
    }

    /// Gives `amount` new units of the issued asset `id` to `to`.
    ///
    /// Fails with `Overflow`, changing nothing, if the balance of `to` or
    /// the supply would leave the numeric range.
    pub fn mint(&mut self, id: TokenId, to: AccountId, amount: TokenBalance) -> (result: Result<
        (),
        Error,
    >)
        requires
            old(self).wf(),
            id < old(self)@.token_count,
        ensures
            final(self).wf(),
            match result {
                Ok(()) => {
                    &&& old(self)@.balance_of(id, to) + amount <= u64::MAX
                    &&& old(self)@.supply(id) + amount <= u64::MAX
                    &&& final(self)@ == old(self)@.minted(id, to, amount)
                },
                Err(e) => {
                    &&& e == Error::Overflow
                    &&& old(self)@.balance_of(id, to) + amount > u64::MAX || old(self)@.supply(id)
                        + amount > u64::MAX
                    &&& final(self)@ == old(self)@
                },
            },
    {
        let balance = self.balance_of((id, to));
        let supply = self.total_supply(id);
        let (new_balance, new_supply) = match (
            balance.checked_add(amount),
            supply.checked_add(amount),
        ) {
            (Some(raised), Some(issued)) => (raised, issued),
            _ => {
                return Err(Error::Overflow);
            },
        };
        proof {
            old(self)@.lemma_minted_wf(id, to, amount);
        }
        self.set_balance(id, to, new_balance);
        self.set_supply(id, new_supply);
        proof {
            assert(self@ =~= old(self)@.minted(id, to, amount));
        }
        Ok(())
    }

    /// Takes `amount` units of asset `id` from `from` and destroys them.
    ///
    /// Fails with `InsufficientFunds`, changing nothing, if `from` holds
    /// less than `amount`.
    pub fn burn(&mut self, id: TokenId, from: AccountId, amount: TokenBalance) -> (result: Result<
        (),
        Error,
    >)
        requires
            old(self).wf(),
        ensures
            final(self).wf(),
            match result {
                Ok(()) => {
                    &&& amount <= old(self)@.balance_of(id, from)
                    &&& final(self)@ == old(self)@.burned(id, from, amount)
                },
                Err(e) => {
                    &&& e == Error::InsufficientFunds
                    &&& old(self)@.balance_of(id, from) < amount
                    &&& final(self)@ == old(self)@
                },
            },
    {
        let balance = self.balance_of((id, from));
        if balance < amount {
            return Err(Error::InsufficientFunds);
        }
        let supply = self.total_supply(id);
        proof {
            old(self)@.lemma_balance_within_supply(id, from);
            old(self)@.lemma_burned_wf(id, from, amount);
        }
        self.set_balance(id, from, balance - amount);
        self.set_supply(id, supply - amount);
        proof {
            assert(self@ =~= old(self)@.burned(id, from, amount));
        }
        Ok(())
    }

    /// Moves `amount` units of asset `id` from `from` to `to` and emits a
    /// transfer notification. A transfer to oneself changes no balance.
    ///
    /// Fails with `InsufficientFunds`, changing nothing, if `from` holds
    /// less than `amount`.
    pub fn do_transfer(
        &mut self,
        id: TokenId,
        from: AccountId,
        to: AccountId,
        amount: TokenBalance,
    ) -> (result: Result<(), Error>)
        requires
            old(self).wf(),
        ensures
            final(self).wf(),
            match result {
                Ok(()) => {
                    &&& amount <= old(self)@.balance_of(id, from)
                    &&& final(self)@ == old(self)@.transferred(id, from, to, amount)
                    &&& from == to ==> final(self)@.balances == old(self)@.balances
                },
                Err(e) => {
                    &&& e == Error::InsufficientFunds
                    &&& old(self)@.balance_of(id, from) < amount
                    &&& final(self)@ == old(self)@
                },
            },
    {
        let from_balance = self.balance_of((id, from));
        if from_balance < amount {
            return Err(Error::InsufficientFunds);
        }
        proof {
            old(self)@.lemma_transferred_wf(id, from, to, amount);
        }
        self.set_balance(id, from, from_balance - amount);
        let to_balance = self.balance_of((id, to));
        self.set_balance(id, to, to_balance + amount);
        self.deposit_event(Event::Transfer(from, to, amount));
        proof {
            assert(self@ =~= old(self)@.transferred(id, from, to, amount));
        }
        Ok(())
    }

    /// Moves `amount` units of asset `id` from `sender` to `destination`.
    ///
    /// Fails, changing nothing, with `ZeroAmount` if `amount` is zero, else
    /// with `InsufficientFunds` if `sender` holds less than `amount`.
    pub fn transfer(
        &mut self,
        sender: AccountId,
        id: TokenId,
        destination: AccountId,
        amount: TokenBalance,
    ) -> (result: Result<(), Error>)
        requires
            old(self).wf(),
        ensures
            final(self).wf(),
            match result {
                Ok(()) => {
                    &&& 0 < amount <= old(self)@.balance_of(id, sender)
                    &&& final(self)@ == old(self)@.transferred(id, sender, destination, amount)
                    &&& sender == destination ==> final(self)@.balances == old(self)@.balances
                },
                Err(e) => {
                    &&& final(self)@ == old(self)@
                    &&& e == (if amount == 0 {
                        Error::ZeroAmount
                    } else {
                        Error::InsufficientFunds
                    })
                    &&& amount == 0 || old(self)@.balance_of(id, sender) < amount
                },
            },
    {
        if amount == 0 {
            return Err(Error::ZeroAmount);
        }
        self.do_transfer(id, sender, destination, amount)
    }

    /// Moves `amount` units of asset `id` from `from` to `to` on behalf of
    /// `from`, and takes `amount` off what `sender` may still move.
    ///
    /// Fails, changing nothing, with the first of: `ZeroAmount` if `amount`
    /// is zero, `InsufficientAllowance` if `from` allowed `sender` less than
    /// `amount`, `InsufficientFunds` if `from` holds less than `amount`.
    pub fn transfer_from(
        &mut self,
        sender: AccountId,
        id: TokenId,
        from: AccountId,
        to: AccountId,
        amount: TokenBalance,
    ) -> (result: Result<(), Error>)
        requires
            old(self).wf(),
        ensures
            final(self).wf(),
            match result {
                Ok(()) => {
                    &&& 0 < amount <= old(self)@.allowance(id, from, sender)
                    &&& amount <= old(self)@.balance_of(id, from)
                    &&& final(self)@ == old(self)@.transferred(id, from, to, amount).spent(
                        id,
                        from,
                        sender,
                        amount,
                    )
                },
                Err(e) => {
                    &&& final(self)@ == old(self)@
                    &&& e == (if amount == 0 {
                        Error::ZeroAmount
                    } else if old(self)@.allowance(id, from, sender) < amount {
                        Error::InsufficientAllowance
                    } else {
                        Error::InsufficientFunds
                    })
                    &&& amount == 0 || old(self)@.allowance(id, from, sender) < amount || old(
                        self,
                    )@.balance_of(id, from) < amount
                },
            },
    {
        if amount == 0 {
            return Err(Error::ZeroAmount);
        }
        let allowed = self.allowance((id, from, sender));
        if allowed < amount {
            return Err(Error::InsufficientAllowance);
        }
        match self.do_transfer(id, from, to, amount) {
            Ok(()) => {},
            Err(e) => {
                return Err(e);
            },
        }
        self.set_allowance(id, from, sender, allowed - amount);
        proof {
            assert(self@ =~= old(self)@.transferred(id, from, to, amount).spent(
                id,
                from,
                sender,
                amount,
            ));
        }
        Ok(())
    }

    /// Lets `spender` move another `amount` units of asset `id` on behalf
    /// of `sender`: the amount is added to what was allowed before.
    ///
    /// Fails, changing nothing, with `ZeroAmount` if `amount` is zero, else
    /// with `Overflow` if the allowance would leave the numeric range.
    pub fn approve(
        &mut self,
        sender: AccountId,
        id: TokenId,
        spender: AccountId,
        amount: TokenBalance,
    ) -> (result: Result<(), Error>)
        requires
            old(self).wf(),
        ensures
            final(self).wf(),
            match result {
                Ok(()) => {
                    &&& 0 < amount
                    &&& old(self)@.allowance(id, sender, spender) + amount <= u64::MAX
                    &&& final(self)@ == old(self)@.approved(id, sender, spender, amount)
                },
                Err(e) => {
                    &&& final(self)@ == old(self)@
                    &&& e == (if amount == 0 {
                        Error::ZeroAmount
                    } else {
                        Error::Overflow
                    })
                    &&& amount == 0 || old(self)@.allowance(id, sender, spender) + amount
                        > u64::MAX
                },
            },
    {
        if amount == 0 {
            return Err(Error::ZeroAmount);
        }
        let allowed = self.allowance((id, sender, spender));
        let raised = match allowed.checked_add(amount) {
            Some(sum) => sum,
            None => {
                return Err(Error::Overflow);
            },
        };
        self.set_allowance(id, sender, spender, raised);
        self.deposit_event(Event::Approval(sender, spender, amount));
        proof {
            assert(self@ =~= old(self)@.approved(id, sender, spender, amount));
        }
        Ok(())
    }
}

} // verus!
