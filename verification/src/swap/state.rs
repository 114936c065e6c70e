//! The mathematical model of the pool registry and of each pool operation.
//!
//! Every operation is described by a decision: from the registry, the
//! ledger and the currency balances as they stand, and the caller's
//! arguments, to either the first reason to refuse or the complete
//! settlement. Nothing is moved before that decision is made, which is
//! what makes every operation all-or-nothing.

use vstd::prelude::*;
use crate::currency::moved;
use crate::currency::CurrencyError;
use crate::fungible::state::LedgerState;
use crate::math::clamp_u64;
use crate::pricing::input_price;
use crate::pricing::output_price;
use crate::types::AccountId;
use crate::types::Balance;
use crate::types::BlockNumber;
use crate::types::SwapId;
use crate::types::TokenBalance;
use crate::types::TokenId;

verus! {

/// A pool: one ledger asset traded against the base currency.
#[derive(Clone, Copy, Debug, PartialEq, Eq, Structural)]
pub struct Swap {
    /// The asset that is pooled against the base currency.
    pub token_id: TokenId,
    /// The asset that stands for shares of this pool's liquidity.
    pub swap_token: TokenId,
    /// The account holding both reserves of this pool.
    pub account: AccountId,
}

/// Why a pool operation was refused.
#[derive(Clone, Copy, Debug, PartialEq, Eq, Structural)]
pub enum Error {
    /// The deadline has passed.
    Expired,
    /// Zero tokens supplied.
    ZeroTokens,
    /// Zero currency supplied.
    ZeroAmount,
    /// No pool has this identifier.
    NoSwapExists,
    /// The asset already has a pool.
    SwapAlreadyExists,
    /// Zero liquidity requested from a pool that has some.
    RequestedZeroLiquidity,
    /// The deposit would take more tokens than the caller allows.
    TooManyTokens,
    /// The deposit would create fewer shares than the caller asks for.
    TooLowLiquidity,
    /// No currency is being swapped.
    NoCurrencySwapped,
    /// No tokens are being swapped.
    NoTokensSwapped,
    /// Zero shares to burn.
    BurnZeroShares,
    /// The pool has no liquidity.
    NoLiquidity,
    /// Less currency would be returned than the caller asks for.
    NotEnoughCurrency,
    /// Fewer tokens would be returned than the caller asks for.
    NotEnoughTokens,
    /// The purchase would cost more currency than the caller allows.
    TooExpensiveCurrency,
    /// The purchase would cost more tokens than the caller allows.
    TooExpensiveTokens,
    /// An amount or an identifier does not fit the numeric range.
    Overflow,
    /// The purchase would take the whole reserve.
    PoolDrained,
    /// The reserves leave a price formula without a divisor.
    DivisionByZero,
    /// The token ledger refused a step.
    Token(crate::fungible::state::Error),
    /// The base currency refused the transfer.
    Currency(CurrencyError),
}

/// What a pool operation notifies its host of.
#[derive(Clone, Copy, Debug, PartialEq, Eq, Structural)]
pub enum Event {
    /// A new pool `(pool, reserve account)`.
    PoolCreated(SwapId, AccountId),
    /// A deposit `(pool, provider, currency, tokens)`.
    LiquidityAdded(SwapId, AccountId, Balance, TokenBalance),
    /// A withdrawal `(pool, provider, currency, tokens)`.
    LiquidityRemoved(SwapId, AccountId, Balance, TokenBalance),
    /// Tokens sold for currency `(pool, trader, currency bought, tokens
    /// sold, recipient)`.
    CurrencyPurchase(SwapId, AccountId, Balance, TokenBalance, AccountId),
    /// Currency sold for tokens `(pool, trader, currency sold, tokens
    /// bought, recipient)`.
    TokenPurchase(SwapId, AccountId, Balance, TokenBalance, AccountId),
}

/// First account of the range set apart for pool reserves: the bytes
/// `modlmtg/` read as a little-endian number.
///
/// Pool `n` keeps its reserves in account `RESERVE_BASE + n`, so no two
/// pools share an account. The host must hand no account of this range to
/// a user: whoever acts as a reserve account owns what the pool holds.
pub const RESERVE_BASE: AccountId = 0x2f67_746d_6c64_6f6d;

/// The reserve account of pool `id`.
pub open spec fn reserve_account(id: SwapId) -> AccountId {
    (RESERVE_BASE + id) as AccountId
}

/// Whether pool `id` has a reserve account, that is, whether the range set
/// apart for reserves reaches that far.
pub open spec fn has_reserve_account(id: SwapId) -> bool {
    RESERVE_BASE + id <= u64::MAX
}

/// A currency amount in the ledger's numeric domain. The bridge is lossy:
/// what exceeds 64 bits is clamped to the largest ledger amount.
pub open spec fn convert(amount: Balance) -> TokenBalance {
    clamp_u64(amount as int) as TokenBalance
}

/// A ledger amount in the currency's numeric domain, which holds it
/// exactly.
pub open spec fn unconvert(amount: TokenBalance) -> Balance {
    amount as Balance
}

/// The complete effect of an accepted pool operation: one currency
/// transfer, the ledger as the operation leaves it, and one notification.
pub struct Settlement {
    /// Who pays the currency.
    pub from: AccountId,
    /// Who receives the currency.
    pub to: AccountId,
    /// How much currency moves.
    pub currency: Balance,
    /// Whether the payer must stay alive.
    pub keep_alive: bool,
    /// The ledger after the operation.
    pub tokens: LedgerState,
    /// What the registry emits.
    pub event: Event,
}

/// The pool registry as a mathematical value.
#[verifier::ext_equal]
pub struct SwapState {
    /// Number of pools created so far, which is also the next identifier.
    pub swap_count: SwapId,
    /// The pools by identifier.
    pub swaps: Map<SwapId, Swap>,
    /// The pool of each pooled asset.
    pub token_to_swap: Map<TokenId, SwapId>,
    /// Notifications emitted and not yet collected by the host.
    pub events: Seq<Event>,
}

impl SwapState {
    /// The registry before any pool was created.
    pub open spec fn empty() -> SwapState {
        SwapState {
            swap_count: 0,
            swaps: Map::empty(),
            token_to_swap: Map::empty(),
            events: Seq::empty(),
        }
    }

    /// Validity of a registry: the pools are those numbered below the
    /// count, each holds its reserves in the account derived from its
    /// number, and the index by asset is the inverse of the pools' assets.
    pub open spec fn wf(self) -> bool {
        &&& forall|id: SwapId| #[trigger] self.swaps.contains_key(id) <==> id < self.swap_count
        &&& forall|id: SwapId| #[trigger]
            self.swaps.contains_key(id) ==> {
                &&& has_reserve_account(id)
                &&& self.swaps[id].account == reserve_account(id)
                &&& self.token_to_swap.contains_key(self.swaps[id].token_id)
                &&& self.token_to_swap[self.swaps[id].token_id] == id
            }
        &&& forall|token: TokenId| #[trigger]
            self.token_to_swap.contains_key(token) ==> {
                &&& self.swaps.contains_key(self.token_to_swap[token])
                &&& self.swaps[self.token_to_swap[token]].token_id == token
            }
    }

    /// Whether every pool's share asset has been issued by `tokens`.
    pub open spec fn shares_issued(self, tokens: LedgerState) -> bool {
        forall|id: SwapId| #[trigger]
            self.swaps.contains_key(id) ==> self.swaps[id].swap_token < tokens.token_count
    }

    /// The registry with `event` added to the pending notifications.
    pub open spec fn emit(self, event: Event) -> SwapState {
        SwapState { events: self.events.push(event), ..self }
    }

    /// The pool that `create_swap` records for `token_id` when the ledger
    /// has issued `token_count` assets.
    pub open spec fn next_swap(self, token_id: TokenId, token_count: TokenId) -> Swap {
        Swap { token_id, swap_token: token_count, account: reserve_account(self.swap_count) }
    }

    /// Why `create_swap` is refused, if it is.
    pub open spec fn create_swap_error(self, tokens: LedgerState, token_id: TokenId) -> Option<
        Error,
    > {
        if self.token_to_swap.contains_key(token_id) {
            Some(Error::SwapAlreadyExists)
        } else if !has_reserve_account(self.swap_count) {
            Some(Error::Overflow)
        } else if tokens.token_count == u64::MAX {
            Some(Error::Token(crate::fungible::state::Error::IdSpaceExhausted))
        } else {
            None
        }
    }

    /// The registry after a pool was created for `token_id`.
    pub open spec fn created(self, token_id: TokenId, token_count: TokenId) -> SwapState {
        let swap = self.next_swap(token_id, token_count);
        SwapState {
            swap_count: (self.swap_count + 1) as SwapId,
            swaps: self.swaps.insert(self.swap_count, swap),
            token_to_swap: self.token_to_swap.insert(token_id, self.swap_count),
            ..self
        }.emit(Event::PoolCreated(self.swap_count, swap.account))
    }

    /// What the index by asset answers: the pool of `token_id`, and pool
    /// zero where the asset has none.
    pub open spec fn swap_of(self, token_id: TokenId) -> SwapId {
        if self.token_to_swap.contains_key(token_id) {
            self.token_to_swap[token_id]
        } else {
            0
        }
    }

    /// The decision on a deposit of `currency_amount` into pool `swap_id`.
    ///
    /// An empty pool takes the currency and `max_tokens` tokens as they
    /// come, and pays as many shares as its currency reserve then holds. A
    /// pool with liquidity takes tokens and pays shares in proportion to
    /// the currency.
    pub open spec fn add_liquidity(
        self,
        tokens: LedgerState,
        balances: Map<AccountId, Balance>,
        now: BlockNumber,
        who: AccountId,
        swap_id: SwapId,
        currency_amount: Balance,
        min_liquidity: TokenBalance,
        max_tokens: TokenBalance,
        deadline: BlockNumber,
    ) -> Result<Settlement, Error> {
        if now > deadline {
            Err(Error::Expired)
        } else if max_tokens == 0 {
            Err(Error::ZeroTokens)
        } else if currency_amount == 0 {
            Err(Error::ZeroAmount)
        } else if !self.swaps.contains_key(swap_id) {
            Err(Error::NoSwapExists)
        } else {
            let swap = self.swaps[swap_id];
            let total_liquidity = tokens.supply(swap.swap_token);
            if total_liquidity > 0 {
                let swap_balance = convert(balances[swap.account]);
                let token_reserve = tokens.balance_of(swap.token_id, swap.account);
                let token_amount = convert(currency_amount) * token_reserve / (swap_balance as int);
                let liquidity_minted = convert(currency_amount) * total_liquidity / (
                swap_balance as int);
                if min_liquidity == 0 {
                    Err(Error::RequestedZeroLiquidity)
                } else if swap_balance == 0 {
                    Err(Error::DivisionByZero)
                } else if token_amount > max_tokens {
                    Err(Error::TooManyTokens)
                } else if liquidity_minted < min_liquidity {
                    Err(Error::TooLowLiquidity)
                } else if total_liquidity + liquidity_minted > u64::MAX {
                    Err(Error::Overflow)
                } else if tokens.balance_of(swap.token_id, who) < token_amount {
                    Err(Error::Token(crate::fungible::state::Error::InsufficientFunds))
                } else {
                    Ok(
                        Settlement {
                            from: who,
                            to: swap.account,
                            currency: currency_amount,
                            keep_alive: true,
                            tokens: tokens.minted(
                                swap.swap_token,
                                who,
                                liquidity_minted as TokenBalance,
                            ).transferred(
                                swap.token_id,
                                who,
                                swap.account,
                                token_amount as TokenBalance,
                            ),
                            event: Event::LiquidityAdded(
                                swap_id,
                                who,
                                currency_amount,
                                token_amount as TokenBalance,
                            ),
                        },
                    )
                }
            } else {
                let initial_liquidity = convert(
                    moved(balances, who, swap.account, currency_amount)[swap.account],
                );
                if tokens.balance_of(swap.token_id, who) < max_tokens {
                    Err(Error::Token(crate::fungible::state::Error::InsufficientFunds))
                } else {
                    Ok(
                        Settlement {
                            from: who,
                            to: swap.account,
                            currency: currency_amount,
                            keep_alive: true,
                            tokens: tokens.minted(swap.swap_token, who, initial_liquidity).transferred(
                                swap.token_id,
                                who,
                                swap.account,
                                max_tokens,
                            ),
                            event: Event::LiquidityAdded(swap_id, who, currency_amount, max_tokens),
                        },
                    )
                }
            }
        }
    }

    /// The decision on a withdrawal of `shares_to_burn` shares from pool
    /// `swap_id`: the caller gets the same fraction of both reserves that
    /// the shares are of all shares, rounded down.
    pub open spec fn remove_liquidity(
        self,
        tokens: LedgerState,
        balances: Map<AccountId, Balance>,
        now: BlockNumber,
        who: AccountId,
        swap_id: SwapId,
        shares_to_burn: TokenBalance,
        min_currency: Balance,
        min_tokens: TokenBalance,
        deadline: BlockNumber,
    ) -> Result<Settlement, Error> {
        if now > deadline {
            Err(Error::Expired)
        } else if shares_to_burn == 0 {
            Err(Error::BurnZeroShares)
        } else if !self.swaps.contains_key(swap_id) {
            Err(Error::NoSwapExists)
        } else {
            let swap = self.swaps[swap_id];
            let total_liquidity = tokens.supply(swap.swap_token);
            let swap_balance = convert(balances[swap.account]);
            let token_reserve = tokens.balance_of(swap.token_id, swap.account);
            let currency_amount = unconvert(
                (shares_to_burn * swap_balance / (total_liquidity as int)) as TokenBalance,
            );
            let token_amount = (shares_to_burn * token_reserve / (
            total_liquidity as int)) as TokenBalance;
            if total_liquidity == 0 {
                Err(Error::NoLiquidity)
            } else if tokens.balance_of(swap.swap_token, who) < shares_to_burn {
                Err(Error::Token(crate::fungible::state::Error::InsufficientFunds))
            } else if currency_amount < min_currency {
                Err(Error::NotEnoughCurrency)
            } else if token_amount < min_tokens {
                Err(Error::NotEnoughTokens)
            } else {
                Ok(
                    Settlement {
                        from: swap.account,
                        to: who,
                        currency: currency_amount,
                        keep_alive: false,
                        tokens: tokens.transferred(
                            swap.token_id,
                            swap.account,
                            who,
                            token_amount,
                        ).burned(swap.swap_token, who, shares_to_burn),
                        event: Event::LiquidityRemoved(swap_id, who, currency_amount, token_amount),
                    },
                )
            }
        }
    }

    /// The decision on selling exactly `currency` for tokens, which go to
    /// `recipient`.
    pub open spec fn currency_to_tokens_input(
        self,
        tokens: LedgerState,
        balances: Map<AccountId, Balance>,
        now: BlockNumber,
        buyer: AccountId,
        swap_id: SwapId,
        currency: Balance,
        min_tokens: TokenBalance,
        deadline: BlockNumber,
        recipient: AccountId,
    ) -> Result<Settlement, Error> {
        if now > deadline {
            Err(Error::Expired)
        } else if currency == 0 {
            Err(Error::NoCurrencySwapped)
        } else if min_tokens == 0 {
            Err(Error::NoTokensSwapped)
        } else if !self.swaps.contains_key(swap_id) {
            Err(Error::NoSwapExists)
        } else {
            let swap = self.swaps[swap_id];
            let tokens_bought = input_price(
                convert(currency) as int,
                convert(balances[swap.account]) as int,
                tokens.balance_of(swap.token_id, swap.account) as int,
            ) as TokenBalance;
            if tokens_bought < min_tokens {
                Err(Error::NotEnoughTokens)
            } else {
                Ok(
                    Settlement {
                        from: buyer,
                        to: swap.account,
                        currency,
                        keep_alive: true,
                        tokens: tokens.transferred(
                            swap.token_id,
                            swap.account,
                            recipient,
                            tokens_bought,
                        ),
                        event: Event::TokenPurchase(
                            swap_id,
                            buyer,
                            currency,
                            tokens_bought,
                            recipient,
                        ),
                    },
                )
            }
        }
    }

    /// The decision on buying exactly `tokens_bought` tokens, which go to
    /// `recipient`, for currency.
    pub open spec fn currency_to_tokens_output(
        self,
        tokens: LedgerState,
        balances: Map<AccountId, Balance>,
        now: BlockNumber,
        buyer: AccountId,
        swap_id: SwapId,
        tokens_bought: TokenBalance,
        max_currency: Balance,
        deadline: BlockNumber,
        recipient: AccountId,
    ) -> Result<Settlement, Error> {
        if now > deadline {
            Err(Error::Expired)
        } else if tokens_bought == 0 {
            Err(Error::NoTokensSwapped)
        } else if max_currency == 0 {
            Err(Error::NoCurrencySwapped)
        } else if !self.swaps.contains_key(swap_id) {
            Err(Error::NoSwapExists)
        } else {
            let swap = self.swaps[swap_id];
            let token_reserve = tokens.balance_of(swap.token_id, swap.account);
            let price = output_price(
                tokens_bought as int,
                convert(balances[swap.account]) as int,
                token_reserve as int,
            );
            let currency_sold = unconvert(price as TokenBalance);
            if tokens_bought >= token_reserve {
                Err(Error::PoolDrained)
            } else if price > u64::MAX {
                Err(Error::Overflow)
            } else if currency_sold > max_currency {
                Err(Error::TooExpensiveCurrency)
            } else {
                Ok(
                    Settlement {
                        from: buyer,
                        to: swap.account,
                        currency: currency_sold,
                        keep_alive: true,
                        tokens: tokens.transferred(
                            swap.token_id,
                            swap.account,
                            recipient,
                            tokens_bought,
                        ),
                        event: Event::TokenPurchase(
                            swap_id,
                            buyer,
                            currency_sold,
                            tokens_bought,
                            recipient,
                        ),
                    },
                )
            }
        }
    }

    /// The decision on selling exactly `tokens_sold` tokens for currency,
    /// which goes to `recipient`.
    pub open spec fn tokens_to_currency_input(
        self,
        tokens: LedgerState,
        balances: Map<AccountId, Balance>,
        now: BlockNumber,
        buyer: AccountId,
        swap_id: SwapId,
        tokens_sold: TokenBalance,
        min_currency: Balance,
        deadline: BlockNumber,
        recipient: AccountId,
    ) -> Result<Settlement, Error> {
        if now > deadline {
            Err(Error::Expired)
        } else if tokens_sold == 0 {
            Err(Error::NoTokensSwapped)
        } else if min_currency == 0 {
            Err(Error::NoCurrencySwapped)
        } else if !self.swaps.contains_key(swap_id) {
            Err(Error::NoSwapExists)
        } else {
            let swap = self.swaps[swap_id];
            let currency_bought = input_price(
                tokens_sold as int,
                tokens.balance_of(swap.token_id, swap.account) as int,
                convert(balances[swap.account]) as int,
            ) as TokenBalance;
            if currency_bought < convert(min_currency) {
                Err(Error::NotEnoughCurrency)
            } else if tokens.balance_of(swap.token_id, buyer) < tokens_sold {
                Err(Error::Token(crate::fungible::state::Error::InsufficientFunds))
            } else {
                Ok(
                    Settlement {
                        from: swap.account,
                        to: recipient,
                        currency: unconvert(currency_bought),
                        keep_alive: false,
                        tokens: tokens.transferred(
                            swap.token_id,
                            buyer,
                            swap.account,
                            tokens_sold,
                        ),
                        event: Event::CurrencyPurchase(
                            swap_id,
                            buyer,
                            unconvert(currency_bought),
                            tokens_sold,
                            recipient,
                        ),
                    },
                )
            }
        }
    }

    /// The decision on buying exactly `currency_bought` currency, which
    /// goes to `recipient`, for tokens.
    pub open spec fn tokens_to_currency_output(
        self,
        tokens: LedgerState,
        balances: Map<AccountId, Balance>,
        now: BlockNumber,
        buyer: AccountId,
        swap_id: SwapId,
        currency_bought: Balance,
        max_tokens: TokenBalance,
        deadline: BlockNumber,
        recipient: AccountId,
    ) -> Result<Settlement, Error> {
        if now > deadline {
            Err(Error::Expired)
        } else if max_tokens == 0 {
            Err(Error::NoTokensSwapped)
        } else if currency_bought == 0 {
            Err(Error::NoCurrencySwapped)
        } else if !self.swaps.contains_key(swap_id) {
            Err(Error::NoSwapExists)
        } else {
            let swap = self.swaps[swap_id];
            let swap_balance = convert(balances[swap.account]);
            let price = output_price(
                convert(currency_bought) as int,
                tokens.balance_of(swap.token_id, swap.account) as int,
                swap_balance as int,
            );
            if convert(currency_bought) >= swap_balance {
                Err(Error::PoolDrained)
            } else if price > max_tokens {
                Err(Error::TooExpensiveTokens)
            } else if tokens.balance_of(swap.token_id, buyer) < price {
                Err(Error::Token(crate::fungible::state::Error::InsufficientFunds))
            } else {
                Ok(
                    Settlement {
                        from: swap.account,
                        to: recipient,
                        currency: currency_bought,
                        keep_alive: false,
                        tokens: tokens.transferred(
                            swap.token_id,
                            buyer,
                            swap.account,
                            price as TokenBalance,
                        ),
                        event: Event::CurrencyPurchase(
                            swap_id,
                            buyer,
                            currency_bought,
                            price as TokenBalance,
                            recipient,
                        ),
                    },
                )
            }
        }
    }

    /// A valid registry has at most one pool per asset.
    pub proof fn lemma_one_pool_per_token(self, first: SwapId, second: SwapId)
        requires
            self.wf(),
            self.swaps.contains_key(first),
            self.swaps.contains_key(second),
            self.swaps[first].token_id == self.swaps[second].token_id,
        ensures
            first == second,
    {
    }

    /// In a valid registry no two pools share a reserve account.
    pub proof fn lemma_reserve_accounts_distinct(self, first: SwapId, second: SwapId)
        requires
            self.wf(),
            self.swaps.contains_key(first),
            self.swaps.contains_key(second),
            self.swaps[first].account == self.swaps[second].account,
        ensures
            first == second,
    {
    }

    /// The first deposit seeds the pool: once the currency has accepted
    /// the transfer, the pool has liquidity.
    pub proof fn lemma_first_deposit_seeds(
        self,
        tokens: LedgerState,
        balances: Map<AccountId, Balance>,
        now: BlockNumber,
        who: AccountId,
        swap_id: SwapId,
        currency_amount: Balance,
        min_liquidity: TokenBalance,
        max_tokens: TokenBalance,
        deadline: BlockNumber,
    )
        requires
            self.add_liquidity(
                tokens,
                balances,
                now,
                who,
                swap_id,
                currency_amount,
                min_liquidity,
                max_tokens,
                deadline,
            ) is Ok,
            tokens.supply(self.swaps[swap_id].swap_token) == 0,
            currency_amount <= balances[who],
            who != self.swaps[swap_id].account ==> balances[self.swaps[swap_id].account]
                + currency_amount <= u128::MAX,
        ensures
            self.add_liquidity(
                tokens,
                balances,
                now,
                who,
                swap_id,
                currency_amount,
                min_liquidity,
                max_tokens,
                deadline,
            )->Ok_0.tokens.supply(self.swaps[swap_id].swap_token) > 0,
    {
    }

    /// Creating a pool that is not refused keeps the registry valid, and
    /// keeps every share asset issued.
    pub proof fn lemma_created_wf(self, tokens: LedgerState, who: AccountId, token_id: TokenId)
        requires
            self.wf(),
            self.shares_issued(tokens),
            self.create_swap_error(tokens, token_id) is None,
        ensures
            self.created(token_id, tokens.token_count).wf(),
            self.created(token_id, tokens.token_count).shares_issued(tokens.created(who, 0)),
    {
        let next = self.created(token_id, tokens.token_count);
        assert(!self.swaps.contains_key(self.swap_count));
        assert forall|id: SwapId| #[trigger] next.swaps.contains_key(id) implies {
            &&& has_reserve_account(id)
            &&& next.swaps[id].account == reserve_account(id)
            &&& next.token_to_swap.contains_key(next.swaps[id].token_id)
            &&& next.token_to_swap[next.swaps[id].token_id] == id
        } by {
            if id != self.swap_count {
                assert(self.swaps.contains_key(id));
            }
        }
        assert forall|token: TokenId| #[trigger] next.token_to_swap.contains_key(token) implies {
            &&& next.swaps.contains_key(next.token_to_swap[token])
            &&& next.swaps[next.token_to_swap[token]].token_id == token
        } by {
            if token != token_id {
                assert(self.token_to_swap.contains_key(token));
            }
        }
        assert forall|id: SwapId| #[trigger] next.swaps.contains_key(id) implies next.swaps[id].swap_token
            < tokens.created(who, 0).token_count by {
            if id != self.swap_count {
                assert(self.swaps.contains_key(id));
            }
        }
    }
}

} // verus!
