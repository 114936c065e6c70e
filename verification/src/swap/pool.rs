//! The executable pool registry.

use vstd::prelude::*;
use std::collections::HashMap;
use crate::currency::moved;
use crate::currency::Currency;
use crate::fungible::ledger::Module as Ledger;
use crate::fungible::state::LedgerState;
use crate::math::mul_div;
use crate::math::mul_div_fraction;
use crate::pricing::input_price;
use crate::pricing::input_price_divisor;
use crate::pricing::output_price;
use crate::pricing::output_price_divisor;
use crate::swap::state::convert;
use crate::swap::state::unconvert;
use crate::swap::state::Error;
use crate::swap::state::Event;
use crate::swap::state::Settlement;
use crate::swap::state::Swap;
use crate::swap::state::SwapState;
use crate::swap::state::RESERVE_BASE;
use crate::types::AccountId;
use crate::types::Balance;
use crate::types::SwapId;
use crate::types::TokenBalance;
use crate::types::TokenId;

verus! {

/// Whether `after` states and `result` are what becomes of the `before`
/// states and of the call once `decision` is made.
///
/// A refusal is returned as it is and moves nothing. A settlement is put to
/// the currency: if the currency refuses the transfer, that is the error,
/// and nothing is moved; if it accepts, the currency has moved exactly the
/// settled amount, the ledger is the settled ledger, and the registry has
/// emitted the settled notification.
pub open spec fn settled<C: Currency>(
    decision: Result<Settlement, Error>,
    result: Result<(), Error>,
    swaps_before: SwapState,
    swaps_after: SwapState,
    tokens_before: LedgerState,
    tokens_after: LedgerState,
    currency_before: &C,
    currency_after: &C,
) -> bool {
    let untouched = {
        &&& swaps_after == swaps_before
        &&& tokens_after == tokens_before
        &&& currency_after == currency_before
    };
    match decision {
        Err(e) => result == Err::<(), Error>(e) && untouched,
        Ok(s) => match currency_before.transfer_outcome(s.from, s.to, s.currency, s.keep_alive) {
            Err(e) => result == Err::<(), Error>(Error::Currency(e)) && untouched,
            Ok(()) => {
                &&& result == Ok::<(), Error>(())
                &&& currency_after.balances() == moved(
                    currency_before.balances(),
                    s.from,
                    s.to,
                    s.currency,
                )
                &&& tokens_after == s.tokens
                &&& swaps_after == swaps_before.emit(s.event)
            },
        },
    }
}

/// The registry of swap pools.
///
/// A pool stores no reserves of its own: its currency reserve is the free
/// balance of its account in the base currency, its token reserve is what
/// that account holds of the pooled asset in the token ledger, and its
/// liquidity is the supply of its share asset. Every operation is handed
/// the two ledgers it moves value in.
pub struct Module {
    swap_count: SwapId,
    swaps: HashMap<SwapId, Swap>,
    token_to_swap: HashMap<TokenId, SwapId>,
    events: Vec<Event>,
}

impl View for Module {
    type V = SwapState;

    closed spec fn view(&self) -> SwapState {
        SwapState {
            swap_count: self.swap_count,
            swaps: self.swaps@,
            token_to_swap: self.token_to_swap@,
            events: self.events@,
        }
    }
}

impl Module {
    /// Validity of the registry.
    pub open spec fn wf(&self) -> bool {
        self@.wf()
    }

    /// Whether the registry can work on `tokens`: the ledger is valid and
    /// has issued every pool's share asset.
    pub open spec fn serves(&self, tokens: &Ledger) -> bool {
        &&& self.wf()
        &&& tokens.wf()
        &&& self@.shares_issued(tokens@)
    }

    /// A registry without pools.
    pub fn new() -> (pools: Self)
        ensures
            pools.wf(),
            pools@ == SwapState::empty(),
    {
        let pools = Module {
            swap_count: 0,
            swaps: HashMap::new(),
            token_to_swap: HashMap::new(),
            events: Vec::new(),
        };
        proof {
            assert(pools@ =~= SwapState::empty());
        }
        pools
    }

    /// Number of pools created so far, which is the identifier that the
    /// next pool will get.
    pub fn swap_count(&self) -> (count: SwapId)
        ensures
            count == self@.swap_count,
    {
        self.swap_count
    }

    /// The pool with identifier `id`, if there is one.
    pub fn swaps(&self, id: SwapId) -> (swap: Option<Swap>)
        ensures
            match swap {
                Some(found) => self@.swaps.contains_key(id) && found == self@.swaps[id],
                None => !self@.swaps.contains_key(id),
            },
    {
        match self.swaps.get(&id) {
            Some(found) => Some(*found),
            None => None,
        }
    }

    /// The pool of asset `token_id`; pool zero where the asset has none.
    pub fn token_to_swap(&self, token_id: TokenId) -> (id: SwapId)
        ensures
            id == self@.swap_of(token_id),
    {
        match self.token_to_swap.get(&token_id) {
            Some(found) => *found,
            None => 0,
        }
    }

    /// The notifications emitted since the host last collected them, oldest
    /// first.
    pub fn events(&self) -> (events: &Vec<Event>)
        ensures
            events@ == self@.events,
    {
        &self.events
    }

    /// Hands the pending notifications to the host and forgets them.
    pub fn take_events(&mut self) -> (events: Vec<Event>)
        ensures
            events@ == old(self)@.events,
            final(self)@ == (SwapState { events: Seq::empty(), ..old(self)@ }),
            old(self).wf() ==> final(self).wf(),
    {
        let mut events: Vec<Event> = Vec::new();
        std::mem::swap(&mut self.events, &mut events);
        proof {
            assert(self@ =~= (SwapState { events: Seq::empty(), ..old(self)@ }));
        }
        events
    }

    pub(crate) fn deposit_event(&mut self, event: Event)
        ensures
            final(self)@ == old(self)@.emit(event),
    {
        self.events.push(event);
        proof {
            assert(self@ =~= old(self)@.emit(event));
        }
    }

    /// Creates the pool of asset `token_id`: issues its share asset, with
    /// no supply, on behalf of `who`, and gives the pool the next
    /// identifier and the reserve account derived from it.
    ///
    /// Fails, changing nothing, with the first of: `SwapAlreadyExists` if
    /// the asset has a pool, `Overflow` if the range of reserve accounts
    /// is used up, `IdSpaceExhausted` of the ledger if it can issue no
    /// share asset.
    pub fn create_swap(&mut self, tokens: &mut Ledger, who: AccountId, token_id: TokenId) -> (result:
        Result<(), Error>)
        requires
            old(self).serves(old(tokens)),
        ensures
            final(self).serves(final(tokens)),
            match result {
                Ok(()) => {
                    &&& old(self)@.create_swap_error(old(tokens)@, token_id) is None
                    &&& final(tokens)@ == old(tokens)@.created(who, 0)
                    &&& final(self)@ == old(self)@.created(token_id, old(tokens)@.token_count)
                },
                Err(e) => {
                    &&& old(self)@.create_swap_error(old(tokens)@, token_id) == Some(e)
                    &&& final(tokens)@ == old(tokens)@
                    &&& final(self)@ == old(self)@
                },
            },
    {
        if self.token_to_swap.contains_key(&token_id) {
            return Err(Error::SwapAlreadyExists);
        }
        let swap_id = self.swap_count;
        let account = match RESERVE_BASE.checked_add(swap_id) {
            Some(account) => account,
            None => {
                return Err(Error::Overflow);
            },
        };
        let swap_token = match tokens.create_token(who, 0) {
            Ok(id) => id,
            Err(e) => {
                return Err(Error::Token(e));
            },
        };
        proof {
            old(self)@.lemma_created_wf(old(tokens)@, who, token_id);
        }
        let new_swap = Swap { token_id, swap_token, account };
        self.token_to_swap.insert(token_id, swap_id);
        self.swaps.insert(swap_id, new_swap);
        self.swap_count = swap_id + 1;
        self.deposit_event(Event::PoolCreated(swap_id, account));
        proof {
            assert(self@ =~= old(self)@.created(token_id, old(tokens)@.token_count));
        }
        Ok(())
    }

    /// A currency amount in the ledger's numeric domain, clamped to the
    /// largest ledger amount.
    pub fn convert(balance_of: Balance) -> (amount: TokenBalance)
        ensures
            amount == convert(balance_of),
    {
        if balance_of > u64::MAX as u128 {
            u64::MAX
        } else {
            balance_of as u64
        }
    }

    /// A ledger amount in the currency's numeric domain.
    pub fn unconvert(token_balance: TokenBalance) -> (amount: Balance)
        ensures
            amount == unconvert(token_balance),
    {
        token_balance as Balance
    }

    /// The token reserve of `swap`: what its account holds of the pooled
    /// asset.
    pub fn get_token_reserve(tokens: &Ledger, swap: &Swap) -> (reserve: TokenBalance)
        ensures
            reserve == tokens@.balance_of(swap.token_id, swap.account),
    {
        tokens.balance_of((swap.token_id, swap.account))
    }

    /// The currency reserve of `swap`: the free balance of its account.
    pub fn get_swap_balance<C: Currency>(currency: &C, swap: &Swap) -> (reserve: Balance)
        ensures
            reserve == currency.balances()[swap.account],
    {
        currency.free_balance(swap.account)
    }

    pub(crate) fn input_price_of(
        input_amount: TokenBalance,
        input_reserve: TokenBalance,
        output_reserve: TokenBalance,
    ) -> (price: TokenBalance)
        requires
            0 < input_price_divisor(input_amount as int, input_reserve as int),
        ensures
            price == input_price(input_amount as int, input_reserve as int, output_reserve as int),
            price <= output_reserve,
    {
        let input_amount_with_fee: u128 = input_amount as u128 * 997;
        let denominator: u128 = input_reserve as u128 * 1000 + input_amount_with_fee;
        mul_div_fraction(input_amount_with_fee, output_reserve, denominator)
    }

    /// What selling exactly `input_amount` pays out of `output_reserve`:
    /// `floor(input_amount * 997 * output_reserve / (input_reserve * 1000 +
    /// input_amount * 997))`.
    ///
    /// Fails with `DivisionByZero` if both the amount and the input reserve
    /// are zero, which leaves the formula without a divisor.
    pub fn get_input_price(
        input_amount: TokenBalance,
        input_reserve: TokenBalance,
        output_reserve: TokenBalance,
    ) -> (result: Result<TokenBalance, Error>)
        ensures
            match result {
                Ok(price) => {
                    &&& 0 < input_price_divisor(input_amount as int, input_reserve as int)
                    &&& price == input_price(
                        input_amount as int,
                        input_reserve as int,
                        output_reserve as int,
                    )
                },
                Err(e) => e == Error::DivisionByZero && input_amount == 0 && input_reserve == 0,
            },
    {
        if input_amount == 0 && input_reserve == 0 {
            return Err(Error::DivisionByZero);
        }
        Ok(Self::input_price_of(input_amount, input_reserve, output_reserve))
    }

    /// What buying exactly `output_amount` out of `output_reserve` costs:
    /// `floor(input_reserve * output_amount * 1000 / ((output_reserve -
    /// output_amount) * 997)) + 1`.
    ///
    /// Fails with `PoolDrained` unless `output_amount` is less than the
    /// reserve, else with `Overflow` if the price does not fit the numeric
    /// range.
    pub fn get_output_price(
        output_amount: TokenBalance,
        input_reserve: TokenBalance,
        output_reserve: TokenBalance,
    ) -> (result: Result<TokenBalance, Error>)
        ensures
            match result {
                Ok(price) => {
                    &&& output_amount < output_reserve
                    &&& price == output_price(
                        output_amount as int,
                        input_reserve as int,
                        output_reserve as int,
                    )
                },
                Err(e) => if output_amount >= output_reserve {
                    e == Error::PoolDrained
                } else {
                    &&& e == Error::Overflow
                    &&& output_price(
                        output_amount as int,
                        input_reserve as int,
                        output_reserve as int,
                    ) > u64::MAX
                },
            },
    {
        if output_amount >= output_reserve {
            return Err(Error::PoolDrained);
        }
        let scaled_reserve: u128 = input_reserve as u128 * 1000;
        let denominator: u128 = (output_reserve - output_amount) as u128 * 997;
        proof {
            assert(scaled_reserve as int * output_amount as int == input_reserve as int
                * output_amount as int * 1000) by (nonlinear_arith)
                requires
                    scaled_reserve as int == input_reserve as int * 1000,
            ;
            assert(denominator as int == output_price_divisor(
                output_amount as int,
                output_reserve as int,
            ));
        }
        match mul_div(scaled_reserve, output_amount, denominator) {
            Some(quotient) => match quotient.checked_add(1) {
                Some(price) => Ok(price),
                None => Err(Error::Overflow),
            },
            None => Err(Error::Overflow),
        }
    }

    /// How many tokens `swap` pays for `currency_sold`, and zero for
    /// nothing.
    pub fn get_currency_to_token_input_price<C: Currency>(
        tokens: &Ledger,
        currency: &C,
        swap: &Swap,
        currency_sold: Balance,
    ) -> (price: TokenBalance)
        ensures
            price == (if currency_sold == 0 {
                0
            } else {
                input_price(
                    convert(currency_sold) as int,
                    convert(currency.balances()[swap.account]) as int,
                    tokens@.balance_of(swap.token_id, swap.account) as int,
                )
            }),
    {
        if currency_sold == 0 {
            return 0;
        }
        let token_reserve = Self::get_token_reserve(tokens, swap);
        let swap_balance = Self::get_swap_balance(currency, swap);
        Self::input_price_of(
            Self::convert(currency_sold),
            Self::convert(swap_balance),
            token_reserve,
        )
    }
}

} // verus!
