//! The mathematical model of the ledger and of each of its operations.

use vstd::prelude::*;
use crate::fungible::sum::account_space;
use crate::fungible::sum::lemma_sum_bounds_one;
use crate::fungible::sum::lemma_sum_bounds_two;
use crate::fungible::sum::lemma_sum_insert;
use crate::fungible::sum::lemma_sum_insert_other;
use crate::fungible::sum::lemma_sum_of_nothing;
use crate::fungible::sum::supply_sum;
use crate::types::AccountId;
use crate::types::TokenBalance;
use crate::types::TokenId;

verus! {

/// Why a ledger operation was refused.
#[derive(Clone, Copy, Debug, PartialEq, Eq, Structural)]
pub enum Error {
    /// Every asset identifier has been issued.
    IdSpaceExhausted,
    /// A transfer or an approval of nothing.
    ZeroAmount,
    /// The account holds less than the operation takes from it.
    InsufficientFunds,
    /// The spender may not move that much on behalf of the owner.
    InsufficientAllowance,
    /// The amount does not fit the numeric range.
    Overflow,
}

/// What a ledger operation notifies its host of.
#[derive(Clone, Copy, Debug, PartialEq, Eq, Structural)]
pub enum Event {
    /// A new asset `(id, owner, supply)`.
    AssetCreated(TokenId, AccountId, TokenBalance),
    /// A movement `(from, to, amount)`.
    Transfer(AccountId, AccountId, TokenBalance),
    /// A raised allowance `(owner, spender, amount)`.
    Approval(AccountId, AccountId, TokenBalance),
}

/// The ledger as a mathematical value.
///
/// The maps are total: an owner never seen holds zero, a pair never approved
/// allows zero.
#[verifier::ext_equal]
pub struct LedgerState {
    /// Number of assets issued so far, which is also the next identifier.
    pub token_count: TokenId,
    /// Balance of each `(asset, owner)`.
    pub balances: Map<(TokenId, AccountId), TokenBalance>,
    /// What each `(asset, owner, spender)` may still move.
    pub allowances: Map<(TokenId, AccountId, AccountId), TokenBalance>,
    /// Supply of each asset.
    pub total_supply: Map<TokenId, TokenBalance>,
    /// Notifications emitted and not yet collected by the host.
    pub events: Seq<Event>,
}

impl LedgerState {
    /// The ledger before any asset was issued.
    pub open spec fn empty() -> LedgerState {
        LedgerState {
            token_count: 0,
            balances: Map::total(|k: (TokenId, AccountId)| 0),
            allowances: Map::total(|k: (TokenId, AccountId, AccountId)| 0),
            total_supply: Map::total(|k: TokenId| 0),
            events: Seq::empty(),
        }
    }

    /// What `who` holds of asset `id`.
    pub open spec fn balance_of(self, id: TokenId, who: AccountId) -> TokenBalance {
        self.balances[(id, who)]
    }

    /// What `spender` may still move of asset `id` on behalf of `owner`.
    pub open spec fn allowance(self, id: TokenId, owner: AccountId, spender: AccountId)
        -> TokenBalance {
        self.allowances[(id, owner, spender)]
    }

    /// The supply of asset `id`.
    pub open spec fn supply(self, id: TokenId) -> TokenBalance {
        self.total_supply[id]
    }

    /// Every key has an entry in each map.
    pub open spec fn total(self) -> bool {
        &&& forall|k: (TokenId, AccountId)| self.balances.dom().contains(k)
        &&& forall|k: (TokenId, AccountId, AccountId)| self.allowances.dom().contains(k)
        &&& forall|k: TokenId| self.total_supply.dom().contains(k)
    }

    /// The supply of every asset is the sum of what its owners hold.
    pub open spec fn conserved(self) -> bool {
        forall|id: TokenId| #[trigger] self.total_supply[id] == supply_sum(self.balances, id)
    }

    /// Nobody holds anything of an asset that was not issued yet.
    pub open spec fn unissued_empty(self) -> bool {
        forall|id: TokenId| id >= self.token_count ==> #[trigger] self.total_supply[id] == 0
    }

    /// Validity of a ledger.
    pub open spec fn wf(self) -> bool {
        &&& self.total()
        &&& self.conserved()
        &&& self.unissued_empty()
    }

    /// The ledger with `event` added to the pending notifications.
    pub open spec fn emit(self, event: Event) -> LedgerState {
        LedgerState { events: self.events.push(event), ..self }
    }

    /// The ledger after the next identifier was issued to `who` with
    /// `supply` units.
    pub open spec fn created(self, who: AccountId, supply: TokenBalance) -> LedgerState {
        let id = self.token_count;
        LedgerState {
            token_count: (id + 1) as TokenId,
            balances: self.balances.insert((id, who), supply),
            total_supply: self.total_supply.insert(id, supply),
            ..self
        }.emit(Event::AssetCreated(id, who, supply))
    }

    /// The ledger after `amount` new units of `id` were given to `to`.
    pub open spec fn minted(self, id: TokenId, to: AccountId, amount: TokenBalance)
        -> LedgerState {
        LedgerState {
            balances: self.balances.insert(
                (id, to),
                (self.balances[(id, to)] + amount) as TokenBalance,
            ),
            total_supply: self.total_supply.insert(
                id,
                (self.total_supply[id] + amount) as TokenBalance,
            ),
            ..self
        }
    }

    /// The ledger after `amount` units of `id` were taken from `from` and
    /// destroyed.
    pub open spec fn burned(self, id: TokenId, from: AccountId, amount: TokenBalance)
        -> LedgerState {
        LedgerState {
            balances: self.balances.insert(
                (id, from),
                (self.balances[(id, from)] - amount) as TokenBalance,
            ),
            total_supply: self.total_supply.insert(
                id,
                (self.total_supply[id] - amount) as TokenBalance,
            ),
            ..self
        }
    }

    /// The balances after `amount` units of `id` went from `from` to `to`.
    /// The debit is applied first, so a transfer to oneself changes nothing.
    pub open spec fn moved(
        self,
        id: TokenId,
        from: AccountId,
        to: AccountId,
        amount: TokenBalance,
    ) -> Map<(TokenId, AccountId), TokenBalance> {
        let debited = self.balances.insert(
            (id, from),
            (self.balances[(id, from)] - amount) as TokenBalance,
        );
        debited.insert((id, to), (debited[(id, to)] + amount) as TokenBalance)
    }

    /// The ledger after `amount` units of `id` went from `from` to `to`.
    pub open spec fn transferred(
        self,
        id: TokenId,
        from: AccountId,
        to: AccountId,
        amount: TokenBalance,
    ) -> LedgerState {
        LedgerState { balances: self.moved(id, from, to, amount), ..self }.emit(
            Event::Transfer(from, to, amount),
        )
    }

    /// The ledger after `owner` allowed `spender` another `amount` units of
    /// `id`.
    pub open spec fn approved(
        self,
        id: TokenId,
        owner: AccountId,
        spender: AccountId,
        amount: TokenBalance,
    ) -> LedgerState {
        LedgerState {
            allowances: self.allowances.insert(
                (id, owner, spender),
                (self.allowances[(id, owner, spender)] + amount) as TokenBalance,
            ),
            ..self
        }.emit(Event::Approval(owner, spender, amount))
    }

    /// The ledger after `spender` used up `amount` of what `owner` allowed.
    pub open spec fn spent(
        self,
        id: TokenId,
        owner: AccountId,
        spender: AccountId,
        amount: TokenBalance,
    ) -> LedgerState {
        LedgerState {
            allowances: self.allowances.insert(
                (id, owner, spender),
                (self.allowances[(id, owner, spender)] - amount) as TokenBalance,
            ),
            ..self
        }
    }

    /// The empty ledger is valid.
    pub proof fn lemma_empty_wf()
        ensures
            Self::empty().wf(),
    {
        let s = Self::empty();
        assert forall|id: TokenId| #[trigger] s.total_supply[id] == supply_sum(s.balances, id) by {
            lemma_sum_of_nothing(s.balances, id, account_space());
        }
    }

    /// In a valid ledger no balance exceeds the supply of its asset.
    pub proof fn lemma_balance_within_supply(self, id: TokenId, who: AccountId)
        requires
            self.wf(),
        ensures
            self.balance_of(id, who) <= self.supply(id),
    {
        lemma_sum_bounds_one(self.balances, id, who, account_space());
    }

    /// In a valid ledger two distinct owners together hold no more than
    /// the supply of the asset.
    pub proof fn lemma_pair_within_supply(self, id: TokenId, first: AccountId, second: AccountId)
        requires
            self.wf(),
            first != second,
        ensures
            self.balance_of(id, first) + self.balance_of(id, second) <= self.supply(id),
    {
        lemma_sum_bounds_two(self.balances, id, first, second, account_space());
    }

    /// Issuing an asset keeps the ledger valid.
    pub proof fn lemma_created_wf(self, who: AccountId, supply: TokenBalance)
        requires
            self.wf(),
            self.token_count < u64::MAX,
        ensures
            self.created(who, supply).wf(),
    {
        let id = self.token_count;
        let next = self.created(who, supply);
        assert(self.total_supply[id] == 0);
        lemma_sum_bounds_one(self.balances, id, who, account_space());
        assert forall|other: TokenId| #[trigger]
            next.total_supply[other] == supply_sum(next.balances, other) by {
            if other == id {
                lemma_sum_insert(self.balances, id, who, supply, account_space());
            } else {
                assert(self.total_supply[other] == supply_sum(self.balances, other));
                lemma_sum_insert_other(self.balances, other, id, who, supply, account_space());
            }
        }
        assert forall|other: TokenId| other >= next.token_count implies #[trigger]
            next.total_supply[other] == 0 by {
            assert(self.total_supply[other] == 0);
        }
    }

    /// Minting within the numeric range keeps the ledger valid.
    pub proof fn lemma_minted_wf(self, id: TokenId, to: AccountId, amount: TokenBalance)
        requires
            self.wf(),
            id < self.token_count,
            self.supply(id) + amount <= u64::MAX,
        ensures
            self.minted(id, to, amount).wf(),
    {
        let next = self.minted(id, to, amount);
        self.lemma_balance_within_supply(id, to);
        assert forall|other: TokenId| #[trigger]
            next.total_supply[other] == supply_sum(next.balances, other) by {
            assert(self.total_supply[other] == supply_sum(self.balances, other));
            if other == id {
                lemma_sum_insert(
                    self.balances,
                    id,
                    to,
                    (self.balances[(id, to)] + amount) as TokenBalance,
                    account_space(),
                );
            } else {
                lemma_sum_insert_other(
                    self.balances,
                    other,
                    id,
                    to,
                    (self.balances[(id, to)] + amount) as TokenBalance,
                    account_space(),
                );
            }
        }
        assert forall|other: TokenId| other >= next.token_count implies #[trigger]
            next.total_supply[other] == 0 by {
            assert(self.total_supply[other] == 0);
        }
    }

    /// Burning what an account holds keeps the ledger valid.
    pub proof fn lemma_burned_wf(self, id: TokenId, from: AccountId, amount: TokenBalance)
        requires
            self.wf(),
            amount <= self.balance_of(id, from),
        ensures
            self.burned(id, from, amount).wf(),
    {
        let next = self.burned(id, from, amount);
        self.lemma_balance_within_supply(id, from);
        assert forall|other: TokenId| #[trigger]
            next.total_supply[other] == supply_sum(next.balances, other) by {
            assert(self.total_supply[other] == supply_sum(self.balances, other));
            if other == id {
                lemma_sum_insert(
                    self.balances,
                    id,
                    from,
                    (self.balances[(id, from)] - amount) as TokenBalance,
                    account_space(),
                );
            } else {
                lemma_sum_insert_other(
                    self.balances,
                    other,
                    id,
                    from,
                    (self.balances[(id, from)] - amount) as TokenBalance,
                    account_space(),
                );
            }
        }
        assert forall|other: TokenId| other >= next.token_count implies #[trigger]
            next.total_supply[other] == 0 by {
            assert(self.total_supply[other] == 0);
        }
    }

    /// A transfer of what the sender holds never overflows the receiver and
    /// keeps the ledger valid.
    pub proof fn lemma_transferred_wf(
        self,
        id: TokenId,
        from: AccountId,
        to: AccountId,
        amount: TokenBalance,
    )
        requires
            self.wf(),
            amount <= self.balance_of(id, from),
        ensures
            self.transferred(id, from, to, amount).wf(),
            from != to ==> self.balance_of(id, to) + amount <= u64::MAX,
            from == to ==> self.transferred(id, from, to, amount).balances == self.balances,
            self.transferred(id, from, to, amount).balance_of(id, from) == (if from == to {
                self.balance_of(id, from)
            } else {
                (self.balance_of(id, from) - amount) as TokenBalance
            }),
            self.transferred(id, from, to, amount).balance_of(id, to) == (if from == to {
                self.balance_of(id, to)
            } else {
                (self.balance_of(id, to) + amount) as TokenBalance
            }),
    {
        let next = self.transferred(id, from, to, amount);
        let low = (self.balances[(id, from)] - amount) as TokenBalance;
        let debited = self.balances.insert((id, from), low);
        let high = (debited[(id, to)] + amount) as TokenBalance;
        if from != to {
            self.lemma_pair_within_supply(id, from, to);
        } else {
            assert(next.balances =~= self.balances);
        }
        assert forall|other: TokenId| #[trigger]
            next.total_supply[other] == supply_sum(next.balances, other) by {
            assert(self.total_supply[other] == supply_sum(self.balances, other));
            if other == id {
                lemma_sum_insert(self.balances, id, from, low, account_space());
                lemma_sum_insert(debited, id, to, high, account_space());
            } else {
                lemma_sum_insert_other(self.balances, other, id, from, low, account_space());
                lemma_sum_insert_other(debited, other, id, to, high, account_space());
            }
        }
        assert forall|other: TokenId| other >= next.token_count implies #[trigger]
            next.total_supply[other] == 0 by {
            assert(self.total_supply[other] == 0);
        }
    }

    /// Approvals add up: after two approvals the spender may move what it
    /// could move before and both amounts on top, not the larger of the
    /// two.
    pub proof fn lemma_approvals_add(
        self,
        id: TokenId,
        owner: AccountId,
        spender: AccountId,
        first: TokenBalance,
        second: TokenBalance,
    )
        requires
            self.allowance(id, owner, spender) + first + second <= u64::MAX,
        ensures
            self.approved(id, owner, spender, first).approved(
                id,
                owner,
                spender,
                second,
            ).allowance(id, owner, spender) == self.allowance(id, owner, spender) + first
                + second,
    {
    }
}

} // verus!
