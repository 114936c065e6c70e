//! Providing and withdrawing liquidity.

use vstd::prelude::*;
use crate::currency::Currency;
use crate::fungible::ledger::Module as Ledger;
use crate::math::mul_div;
use crate::math::mul_div_fraction;
use crate::swap::pool::settled;
use crate::swap::pool::Module;
use crate::swap::state::Error;
use crate::swap::state::Event;
use crate::types::AccountId;
use crate::types::Balance;
use crate::types::BlockNumber;
use crate::types::SwapId;
use crate::types::TokenBalance;

verus! {

impl Module {
    /// Deposits `currency_amount` of the base currency, and tokens to
    /// match, into pool `swap_id`, and pays `who` in shares of the pool.
    ///
    /// A pool without liquidity takes the currency together with exactly
    /// `max_tokens` tokens, and pays as many shares as its currency
    /// reserve holds after the deposit. A pool with liquidity takes
    /// `floor(currency * token_reserve / currency_reserve)` tokens and pays
    /// `floor(currency * liquidity / currency_reserve)` shares, where the
    /// currency amounts are taken in the ledger's numeric domain.
    ///
    /// The call is refused, and nothing is moved, for the first of these
    /// reasons: `Expired` if `now` is past `deadline`; `ZeroTokens` if
    /// `max_tokens` is zero; `ZeroAmount` if `currency_amount` is zero;
    /// `NoSwapExists`; then, for a pool with liquidity,
    /// `RequestedZeroLiquidity` if `min_liquidity` is zero,
    /// `DivisionByZero` if the currency reserve is zero, `TooManyTokens`
    /// if more than `max_tokens` tokens are due, `TooLowLiquidity` if
    /// fewer than `min_liquidity` shares would be paid, `Overflow` if the
    /// share supply would leave the numeric range; `InsufficientFunds` of
    /// the ledger if `who` holds fewer tokens than are due; and last
    /// whatever reason the currency gives for refusing the transfer.
    pub fn add_liquidity<C: Currency>(
        &mut self,
        tokens: &mut Ledger,
        currency: &mut C,
        now: BlockNumber,
        who: AccountId,
        swap_id: SwapId,
        currency_amount: Balance,
        min_liquidity: TokenBalance,
        max_tokens: TokenBalance,
        deadline: BlockNumber,
    ) -> (result: Result<(), Error>)
        requires
            old(self).serves(old(tokens)),
        ensures
            final(self).serves(final(tokens)),
            settled(
                old(self)@.add_liquidity(
                    old(tokens)@,
                    old(currency).balances(),
                    now,
                    who,
                    swap_id,
                    currency_amount,
                    min_liquidity,
                    max_tokens,
                    deadline,
                ),
                result,
                old(self)@,
                final(self)@,
                old(tokens)@,
                final(tokens)@,
                old(currency),
                final(currency),
            ),
    {
        if now > deadline {
            return Err(Error::Expired);
        }
        if max_tokens == 0 {
            return Err(Error::ZeroTokens);
        }
        if currency_amount == 0 {
            return Err(Error::ZeroAmount);
        }
        let swap = match self.swaps(swap_id) {
            Some(found) => found,
            None => {
                return Err(Error::NoSwapExists);
            },
        };
        let total_liquidity = tokens.total_supply(swap.swap_token);
        let provided = tokens.balance_of((swap.token_id, who));
        if total_liquidity > 0 {
            if min_liquidity == 0 {
                return Err(Error::RequestedZeroLiquidity);
            }
            let swap_balance = Self::convert(Self::get_swap_balance(currency, &swap));
            if swap_balance == 0 {
                return Err(Error::DivisionByZero);
            }
            let token_reserve = Self::get_token_reserve(tokens, &swap);
            let paid = Self::convert(currency_amount);
            let token_amount = match mul_div(paid as u128, token_reserve, swap_balance as u128) {
                Some(amount) => amount,
                None => {
                    return Err(Error::TooManyTokens);
                },
            };
            if token_amount > max_tokens {
                return Err(Error::TooManyTokens);
            }
            let liquidity_minted = match mul_div(
                paid as u128,
                total_liquidity,
                swap_balance as u128,
            ) {
                Some(amount) => amount,
                None => {
                    return Err(Error::Overflow);
                },
            };
            if liquidity_minted < min_liquidity {
                return Err(Error::TooLowLiquidity);
            }
            if liquidity_minted > u64::MAX - total_liquidity {
                return Err(Error::Overflow);
            }
            if provided < token_amount {
                return Err(Error::Token(crate::fungible::state::Error::InsufficientFunds));
            }
            match currency.transfer(who, swap.account, currency_amount, true) {
                Ok(()) => {},
                Err(e) => {
                    return Err(Error::Currency(e));
                },
            }
            proof {
                tokens@.lemma_balance_within_supply(swap.swap_token, who);
            }
            match tokens.mint(swap.swap_token, who, liquidity_minted) {
                Ok(()) => {},
                Err(e) => {
                    return Err(Error::Token(e));
                },
            }
            match tokens.do_transfer(swap.token_id, who, swap.account, token_amount) {
                Ok(()) => {},
                Err(e) => {
                    return Err(Error::Token(e));
                },
            }
            self.deposit_event(Event::LiquidityAdded(swap_id, who, currency_amount, token_amount));
            Ok(())
        } else {
            if provided < max_tokens {
                return Err(Error::Token(crate::fungible::state::Error::InsufficientFunds));
            }
            match currency.transfer(who, swap.account, currency_amount, true) {
                Ok(()) => {},
                Err(e) => {
                    return Err(Error::Currency(e));
                },
            }
            let initial_liquidity = Self::convert(Self::get_swap_balance(currency, &swap));
            proof {
                tokens@.lemma_balance_within_supply(swap.swap_token, who);
            }
            match tokens.mint(swap.swap_token, who, initial_liquidity) {
                Ok(()) => {},
                Err(e) => {
                    return Err(Error::Token(e));
                },
            }
            match tokens.do_transfer(swap.token_id, who, swap.account, max_tokens) {
                Ok(()) => {},
                Err(e) => {
                    return Err(Error::Token(e));
                },
            }
            self.deposit_event(Event::LiquidityAdded(swap_id, who, currency_amount, max_tokens));
            Ok(())
        }
    }

    /// Burns `shares_to_burn` shares of pool `swap_id` held by `who` and
    /// pays out the same fraction of both reserves:
    /// `floor(shares * currency_reserve / liquidity)` of the base currency,
    /// taken in the ledger's numeric domain, and
    /// `floor(shares * token_reserve / liquidity)` tokens.
    ///
    /// The call is refused, and nothing is moved, for the first of these
    /// reasons: `Expired` if `now` is past `deadline`; `BurnZeroShares`;
    /// `NoSwapExists`; `NoLiquidity` if the pool has no shares;
    /// `InsufficientFunds` of the ledger if `who` holds fewer shares;
    /// `NotEnoughCurrency` if less than `min_currency` would be paid;
    /// `NotEnoughTokens` if fewer than `min_tokens` would be paid; and
    /// last whatever reason the currency gives for refusing the transfer.
    pub fn remove_liquidity<C: Currency>(
        &mut self,
        tokens: &mut Ledger,
        currency: &mut C,
        now: BlockNumber,
        who: AccountId,
        swap_id: SwapId,
        shares_to_burn: TokenBalance,
        min_currency: Balance,
        min_tokens: TokenBalance,
        deadline: BlockNumber,
    ) -> (result: Result<(), Error>)
        requires
            old(self).serves(old(tokens)),
        ensures
            final(self).serves(final(tokens)),
            settled(
                old(self)@.remove_liquidity(
                    old(tokens)@,
                    old(currency).balances(),
                    now,
                    who,
                    swap_id,
                    shares_to_burn,
                    min_currency,
                    min_tokens,
                    deadline,
                ),
                result,
                old(self)@,
                final(self)@,
                old(tokens)@,
                final(tokens)@,
                old(currency),
                final(currency),
            ),
    {
        if now > deadline {
            return Err(Error::Expired);
        }
        if shares_to_burn == 0 {
            return Err(Error::BurnZeroShares);
        }
        let swap = match self.swaps(swap_id) {
            Some(found) => found,
            None => {
                return Err(Error::NoSwapExists);
            },
        };
        let total_liquidity = tokens.total_supply(swap.swap_token);
        if total_liquidity == 0 {
            return Err(Error::NoLiquidity);
        }
        if tokens.balance_of((swap.swap_token, who)) < shares_to_burn {
            return Err(Error::Token(crate::fungible::state::Error::InsufficientFunds));
        }
        proof {
            tokens@.lemma_balance_within_supply(swap.swap_token, who);
        }
        let token_reserve = Self::get_token_reserve(tokens, &swap);
        let swap_balance = Self::convert(Self::get_swap_balance(currency, &swap));
        let currency_amount = Self::unconvert(
            mul_div_fraction(shares_to_burn as u128, swap_balance, total_liquidity as u128),
        );
        let token_amount = mul_div_fraction(
            shares_to_burn as u128,
            token_reserve,
            total_liquidity as u128,
        );
        if currency_amount < min_currency {
            return Err(Error::NotEnoughCurrency);
        }
        if token_amount < min_tokens {
            return Err(Error::NotEnoughTokens);
        }
        match currency.transfer(swap.account, who, currency_amount, false) {
            Ok(()) => {},
            Err(e) => {
                return Err(Error::Currency(e));
            },
        }
        proof {
            tokens@.lemma_transferred_wf(swap.token_id, swap.account, who, token_amount);
        }
        match tokens.do_transfer(swap.token_id, swap.account, who, token_amount) {
            Ok(()) => {},
            Err(e) => {
                return Err(Error::Token(e));
            },
        }
        match tokens.burn(swap.swap_token, who, shares_to_burn) {
            Ok(()) => {},
            Err(e) => {
                return Err(Error::Token(e));
            },
        }
        self.deposit_event(Event::LiquidityRemoved(swap_id, who, currency_amount, token_amount));
        Ok(())
    }
}

} // verus!
