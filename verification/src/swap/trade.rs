//! Trading the base currency against a pooled asset.
//!
//! Each trade fixes one side: either exactly what the trader gives, priced
//! by the input formula, or exactly what the trader gets, priced by the
//! output formula. Currency amounts enter the formulas in the ledger's
//! numeric domain.

use vstd::prelude::*;
use crate::currency::Currency;
use crate::fungible::ledger::Module as Ledger;
use crate::swap::pool::settled;
use crate::swap::pool::Module;
use crate::swap::state::Error;
use crate::swap::state::Event;
use crate::types::AccountId;
use crate::types::Balance;
use crate::types::BlockNumber;
use crate::types::SwapId;
use crate::types::TokenBalance;

verus! {

impl Module {
    /// Sells exactly `currency` of the base currency to pool `swap_id` for
    /// tokens, which go to `recipient`.
    ///
    /// The call is refused, and nothing is moved, for the first of these
    /// reasons: `Expired` if `now` is past `deadline`; `NoCurrencySwapped`
    /// if `currency` is zero; `NoTokensSwapped` if `min_tokens` is zero;
    /// `NoSwapExists`; `NotEnoughTokens` if the input price is below
    /// `min_tokens`; and last whatever reason the currency gives for
    /// refusing the transfer.
    pub fn currency_to_tokens_input<C: Currency>(
        &mut self,
        tokens: &mut Ledger,
        currency_ledger: &mut C,
        now: BlockNumber,
        buyer: AccountId,
        swap_id: SwapId,
        currency: Balance,
        min_tokens: TokenBalance,
        deadline: BlockNumber,
        recipient: AccountId,
    ) -> (result: Result<(), Error>)
        requires
            old(self).serves(old(tokens)),
        ensures
            final(self).serves(final(tokens)),
            settled(
                old(self)@.currency_to_tokens_input(
                    old(tokens)@,
                    old(currency_ledger).balances(),
                    now,
                    buyer,
                    swap_id,
                    currency,
                    min_tokens,
                    deadline,
                    recipient,
                ),
                result,
                old(self)@,
                final(self)@,
                old(tokens)@,
                final(tokens)@,
                old(currency_ledger),
                final(currency_ledger),
            ),
    {
        if now > deadline {
            return Err(Error::Expired);
        }
        if currency == 0 {
            return Err(Error::NoCurrencySwapped);
        }
        if min_tokens == 0 {
            return Err(Error::NoTokensSwapped);
        }
        let swap = match self.swaps(swap_id) {
            Some(found) => found,
            None => {
                return Err(Error::NoSwapExists);
            },
        };
        let token_reserve = Self::get_token_reserve(tokens, &swap);
        let swap_balance = Self::get_swap_balance(currency_ledger, &swap);
        let tokens_bought = Self::input_price_of(
            Self::convert(currency),
            Self::convert(swap_balance),
            token_reserve,
        );
        if tokens_bought < min_tokens {
            return Err(Error::NotEnoughTokens);
        }
        match currency_ledger.transfer(buyer, swap.account, currency, true) {
            Ok(()) => {},
            Err(e) => {
                return Err(Error::Currency(e));
            },
        }
        match tokens.do_transfer(swap.token_id, swap.account, recipient, tokens_bought) {
            Ok(()) => {},
            Err(e) => {
                return Err(Error::Token(e));
            },
        }
        self.deposit_event(Event::TokenPurchase(swap_id, buyer, currency, tokens_bought, recipient));
        Ok(())
    }

    /// Buys exactly `tokens_bought` tokens from pool `swap_id`, which go
    /// to `recipient`, for the base currency.
    ///
    /// The call is refused, and nothing is moved, for the first of these
    /// reasons: `Expired` if `now` is past `deadline`; `NoTokensSwapped`
    /// if `tokens_bought` is zero; `NoCurrencySwapped` if `max_currency`
    /// is zero; `NoSwapExists`; `PoolDrained` unless `tokens_bought` is
    /// less than the token reserve; `Overflow` if the output price does
    /// not fit the ledger's numeric range; `TooExpensiveCurrency` if the
    /// price is above `max_currency`; and last whatever reason the
    /// currency gives for refusing the transfer.
    pub fn currency_to_tokens_output<C: Currency>(
        &mut self,
        tokens: &mut Ledger,
        currency_ledger: &mut C,
        now: BlockNumber,
        buyer: AccountId,
        swap_id: SwapId,
        tokens_bought: TokenBalance,
        max_currency: Balance,
        deadline: BlockNumber,
        recipient: AccountId,
    ) -> (result: Result<(), Error>)
        requires
            old(self).serves(old(tokens)),
        ensures
            final(self).serves(final(tokens)),
            settled(
                old(self)@.currency_to_tokens_output(
                    old(tokens)@,
                    old(currency_ledger).balances(),
                    now,
                    buyer,
                    swap_id,
                    tokens_bought,
                    max_currency,
                    deadline,
                    recipient,
                ),
                result,
                old(self)@,
                final(self)@,
                old(tokens)@,
                final(tokens)@,
                old(currency_ledger),
                final(currency_ledger),
            ),
    {
        if now > deadline {
            return Err(Error::Expired);
        }
        if tokens_bought == 0 {
            return Err(Error::NoTokensSwapped);
        }
        if max_currency == 0 {
            return Err(Error::NoCurrencySwapped);
        }
        let swap = match self.swaps(swap_id) {
            Some(found) => found,
            None => {
                return Err(Error::NoSwapExists);
            },
        };
        let token_reserve = Self::get_token_reserve(tokens, &swap);
        let swap_balance = Self::get_swap_balance(currency_ledger, &swap);
        let currency_sold = match Self::get_output_price(
            tokens_bought,
            Self::convert(swap_balance),
            token_reserve,
        ) {
            Ok(price) => Self::unconvert(price),
            Err(e) => {
                return Err(e);
            },
        };
        if currency_sold > max_currency {
            return Err(Error::TooExpensiveCurrency);
        }
        match currency_ledger.transfer(buyer, swap.account, currency_sold, true) {
            Ok(()) => {},
            Err(e) => {
                return Err(Error::Currency(e));
            },
        }
        match tokens.do_transfer(swap.token_id, swap.account, recipient, tokens_bought) {
            Ok(()) => {},
            Err(e) => {
                return Err(Error::Token(e));
            },
        }
        self.deposit_event(
            Event::TokenPurchase(swap_id, buyer, currency_sold, tokens_bought, recipient),
        );
        Ok(())
    }

    /// Sells exactly `tokens_sold` tokens of `buyer` to pool `swap_id` for
    /// the base currency, which goes to `recipient`.
    ///
    /// The call is refused, and nothing is moved, for the first of these
    /// reasons: `Expired` if `now` is past `deadline`; `NoTokensSwapped`
    /// if `tokens_sold` is zero; `NoCurrencySwapped` if `min_currency` is
    /// zero; `NoSwapExists`; `NotEnoughCurrency` if the input price is
    /// below `min_currency`; `InsufficientFunds` of the ledger if `buyer`
    /// holds fewer tokens than are sold; and last whatever reason the
    /// currency gives for refusing the transfer.
    pub fn tokens_to_currency_input<C: Currency>(
        &mut self,
        tokens: &mut Ledger,
        currency_ledger: &mut C,
        now: BlockNumber,
        buyer: AccountId,
        swap_id: SwapId,
        tokens_sold: TokenBalance,
        min_currency: Balance,
        deadline: BlockNumber,
        recipient: AccountId,
    ) -> (result: Result<(), Error>)
        requires
            old(self).serves(old(tokens)),
        ensures
            final(self).serves(final(tokens)),
            settled(
                old(self)@.tokens_to_currency_input(
                    old(tokens)@,
                    old(currency_ledger).balances(),
                    now,
                    buyer,
                    swap_id,
                    tokens_sold,
                    min_currency,
                    deadline,
                    recipient,
                ),
                result,
                old(self)@,
                final(self)@,
                old(tokens)@,
                final(tokens)@,
                old(currency_ledger),
                final(currency_ledger),
            ),
    {
        if now > deadline {
            return Err(Error::Expired);
        }
        if tokens_sold == 0 {
            return Err(Error::NoTokensSwapped);
        }
        if min_currency == 0 {
            return Err(Error::NoCurrencySwapped);
        }
        let swap = match self.swaps(swap_id) {
            Some(found) => found,
            None => {
                return Err(Error::NoSwapExists);
            },
        };
        let token_reserve = Self::get_token_reserve(tokens, &swap);
        let swap_balance = Self::get_swap_balance(currency_ledger, &swap);
        let currency_bought = Self::input_price_of(
            tokens_sold,
            token_reserve,
            Self::convert(swap_balance),
        );
        if currency_bought < Self::convert(min_currency) {
            return Err(Error::NotEnoughCurrency);
        }
        if tokens.balance_of((swap.token_id, buyer)) < tokens_sold {
            return Err(Error::Token(crate::fungible::state::Error::InsufficientFunds));
        }
        match currency_ledger.transfer(
            swap.account,
            recipient,
            Self::unconvert(currency_bought),
            false,
        ) {
            Ok(()) => {},
            Err(e) => {
                return Err(Error::Currency(e));
            },
        }
        match tokens.do_transfer(swap.token_id, buyer, swap.account, tokens_sold) {
            Ok(()) => {},
            Err(e) => {
                return Err(Error::Token(e));
            },
        }
        self.deposit_event(
            Event::CurrencyPurchase(
                swap_id,
                buyer,
                Self::unconvert(currency_bought),
                tokens_sold,
                recipient,
            ),
        );
        Ok(())
    }

    /// Buys exactly `currency_bought` of the base currency from pool
    /// `swap_id`, which goes to `recipient`, for tokens of `buyer`.
    ///
    /// The call is refused, and nothing is moved, for the first of these
    /// reasons: `Expired` if `now` is past `deadline`; `NoTokensSwapped`
    /// if `max_tokens` is zero; `NoCurrencySwapped` if `currency_bought`
    /// is zero; `NoSwapExists`; `PoolDrained` unless `currency_bought` is
    /// less than the currency reserve; `TooExpensiveTokens` if the output
    /// price is above `max_tokens`; `InsufficientFunds` of the ledger if
    /// `buyer` holds fewer tokens than the price; and last whatever reason
    /// the currency gives for refusing the transfer.
    pub fn tokens_to_currency_output<C: Currency>(
        &mut self,
        tokens: &mut Ledger,
        currency_ledger: &mut C,
        now: BlockNumber,
        buyer: AccountId,
        swap_id: SwapId,
        currency_bought: Balance,
        max_tokens: TokenBalance,
        deadline: BlockNumber,
        recipient: AccountId,
    ) -> (result: Result<(), Error>)
        requires
            old(self).serves(old(tokens)),
        ensures
            final(self).serves(final(tokens)),
            settled(
                old(self)@.tokens_to_currency_output(
                    old(tokens)@,
                    old(currency_ledger).balances(),
                    now,
                    buyer,
                    swap_id,
                    currency_bought,
                    max_tokens,
                    deadline,
                    recipient,
                ),
                result,
                old(self)@,
                final(self)@,
                old(tokens)@,
                final(tokens)@,
                old(currency_ledger),
                final(currency_ledger),
            ),
    {
        if now > deadline {
            return Err(Error::Expired);
        }
        if max_tokens == 0 {
            return Err(Error::NoTokensSwapped);
        }
        if currency_bought == 0 {
            return Err(Error::NoCurrencySwapped);
        }
        let swap = match self.swaps(swap_id) {
            Some(found) => found,
            None => {
                return Err(Error::NoSwapExists);
            },
        };
        let token_reserve = Self::get_token_reserve(tokens, &swap);
        let swap_balance = Self::get_swap_balance(currency_ledger, &swap);
        let tokens_sold = match Self::get_output_price(
            Self::convert(currency_bought),
            token_reserve,
            Self::convert(swap_balance),
        ) {
            Ok(price) => price,
            Err(Error::PoolDrained) => {
                return Err(Error::PoolDrained);
            },
            Err(_) => {
                return Err(Error::TooExpensiveTokens);
            },
        };
        if tokens_sold > max_tokens {
            return Err(Error::TooExpensiveTokens);
        }
        if tokens.balance_of((swap.token_id, buyer)) < tokens_sold {
            return Err(Error::Token(crate::fungible::state::Error::InsufficientFunds));
        }
        match currency_ledger.transfer(swap.account, recipient, currency_bought, false) {
            Ok(()) => {},
            Err(e) => {
                return Err(Error::Currency(e));
            },
        }
        match tokens.do_transfer(swap.token_id, buyer, swap.account, tokens_sold) {
            Ok(()) => {},
            Err(e) => {
                return Err(Error::Token(e));
            },
        }
        self.deposit_event(
            Event::CurrencyPurchase(swap_id, buyer, currency_bought, tokens_sold, recipient),
        );
        Ok(())
    }
}

} // verus!
