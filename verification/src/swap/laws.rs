//! What trading and providing liquidity do to a pool: no trade lowers the
//! product of the two reserves, and no deposit or withdrawal moves their
//! ratio by more than rounding.
//!
//! The laws speak of the reserves as the ledgers hold them after the
//! settlement. They hold while the currency amounts fit the ledger's
//! numeric domain and the caller is not the reserve account itself; past
//! that range the formulas work on clamped amounts and protect neither
//! the product nor the ratio.

use vstd::prelude::*;
use vstd::arithmetic::div_mod::lemma_fundamental_div_mod;
use crate::currency::moved;
use crate::fungible::state::LedgerState;
use crate::pricing::lemma_input_price_bounded;
use crate::pricing::lemma_input_trade_keeps_product;
use crate::pricing::lemma_output_trade_keeps_product;
use crate::swap::state::Swap;
use crate::swap::state::SwapState;
use crate::types::AccountId;
use crate::types::Balance;
use crate::types::BlockNumber;
use crate::types::SwapId;
use crate::types::TokenBalance;

verus! {

/// The product of the currency reserve and the token reserve of `swap`.
pub open spec fn reserve_product(
    tokens: LedgerState,
    balances: Map<AccountId, Balance>,
    swap: Swap,
) -> int {
    balances[swap.account] * tokens.balance_of(swap.token_id, swap.account)
}

impl SwapState {
    /// Selling currency for tokens at the input price never lowers the
    /// product of the reserves.
    pub proof fn lemma_currency_to_tokens_input_keeps_product(
        self,
        tokens: LedgerState,
        balances: Map<AccountId, Balance>,
        now: BlockNumber,
        buyer: AccountId,
        swap_id: SwapId,
        currency: Balance,
        min_tokens: TokenBalance,
        deadline: BlockNumber,
        recipient: AccountId,
    )
        requires
            tokens.wf(),
            self.currency_to_tokens_input(
                tokens,
                balances,
                now,
                buyer,
                swap_id,
                currency,
                min_tokens,
                deadline,
                recipient,
            ) is Ok,
            balances[self.swaps[swap_id].account] <= u64::MAX,
            currency <= u64::MAX,
            buyer != self.swaps[swap_id].account,
            recipient != self.swaps[swap_id].account,
        ensures
            ({
                let swap = self.swaps[swap_id];
                let s = self.currency_to_tokens_input(
                    tokens,
                    balances,
                    now,
                    buyer,
                    swap_id,
                    currency,
                    min_tokens,
                    deadline,
                    recipient,
                )->Ok_0;
                reserve_product(tokens, balances, swap) <= reserve_product(
                    s.tokens,
                    moved(balances, s.from, s.to, s.currency),
                    swap,
                )
            }),
    {
        let swap = self.swaps[swap_id];
        let reserve = tokens.balance_of(swap.token_id, swap.account);
        let bought = crate::pricing::input_price(
            currency as int,
            balances[swap.account] as int,
            reserve as int,
        );
        lemma_input_price_bounded(currency as int, balances[swap.account] as int, reserve as int);
        lemma_input_trade_keeps_product(
            currency as int,
            balances[swap.account] as int,
            reserve as int,
        );
        tokens.lemma_transferred_wf(swap.token_id, swap.account, recipient, bought as TokenBalance);
    }

    /// Buying tokens for currency at the output price never lowers the
    /// product of the reserves.
    pub proof fn lemma_currency_to_tokens_output_keeps_product(
        self,
        tokens: LedgerState,
        balances: Map<AccountId, Balance>,
        now: BlockNumber,
        buyer: AccountId,
        swap_id: SwapId,
        tokens_bought: TokenBalance,
        max_currency: Balance,
        deadline: BlockNumber,
        recipient: AccountId,
    )
        requires
            tokens.wf(),
            self.currency_to_tokens_output(
                tokens,
                balances,
                now,
                buyer,
                swap_id,
                tokens_bought,
                max_currency,
                deadline,
                recipient,
            ) is Ok,
            balances[self.swaps[swap_id].account] <= u64::MAX,
            buyer != self.swaps[swap_id].account,
            recipient != self.swaps[swap_id].account,
        ensures
            ({
                let swap = self.swaps[swap_id];
                let s = self.currency_to_tokens_output(
                    tokens,
                    balances,
                    now,
                    buyer,
                    swap_id,
                    tokens_bought,
                    max_currency,
                    deadline,
                    recipient,
                )->Ok_0;
                reserve_product(tokens, balances, swap) <= reserve_product(
                    s.tokens,
                    moved(balances, s.from, s.to, s.currency),
                    swap,
                )
            }),
    {
        let swap = self.swaps[swap_id];
        let reserve = tokens.balance_of(swap.token_id, swap.account);
        lemma_output_trade_keeps_product(
            tokens_bought as int,
            balances[swap.account] as int,
            reserve as int,
        );
        tokens.lemma_transferred_wf(swap.token_id, swap.account, recipient, tokens_bought);
    }

    /// Selling tokens for currency at the input price never lowers the
    /// product of the reserves.
    pub proof fn lemma_tokens_to_currency_input_keeps_product(
        self,
        tokens: LedgerState,
        balances: Map<AccountId, Balance>,
        now: BlockNumber,
        buyer: AccountId,
        swap_id: SwapId,
        tokens_sold: TokenBalance,
        min_currency: Balance,
        deadline: BlockNumber,
        recipient: AccountId,
    )
        requires
            tokens.wf(),
            self.tokens_to_currency_input(
                tokens,
                balances,
                now,
                buyer,
                swap_id,
                tokens_sold,
                min_currency,
                deadline,
                recipient,
            ) is Ok,
            balances[self.swaps[swap_id].account] <= u64::MAX,
            buyer != self.swaps[swap_id].account,
            recipient != self.swaps[swap_id].account,
        ensures
            ({
                let swap = self.swaps[swap_id];
                let s = self.tokens_to_currency_input(
                    tokens,
                    balances,
                    now,
                    buyer,
                    swap_id,
                    tokens_sold,
                    min_currency,
                    deadline,
                    recipient,
                )->Ok_0;
                reserve_product(tokens, balances, swap) <= reserve_product(
                    s.tokens,
                    moved(balances, s.from, s.to, s.currency),
                    swap,
                )
            }),
    {
        let swap = self.swaps[swap_id];
        let reserve = tokens.balance_of(swap.token_id, swap.account);
        let held = balances[swap.account] as int;
        let bought = crate::pricing::input_price(tokens_sold as int, reserve as int, held);
        lemma_input_price_bounded(tokens_sold as int, reserve as int, held);
        lemma_input_trade_keeps_product(tokens_sold as int, reserve as int, held);
        tokens.lemma_transferred_wf(swap.token_id, buyer, swap.account, tokens_sold);
        assert(held * reserve == reserve * held) by (nonlinear_arith);
        assert((held - bought) * (reserve + tokens_sold) == (reserve + tokens_sold) * (held
            - bought)) by (nonlinear_arith);
    }

    /// Buying currency for tokens at the output price never lowers the
    /// product of the reserves.
    pub proof fn lemma_tokens_to_currency_output_keeps_product(
        self,
        tokens: LedgerState,
        balances: Map<AccountId, Balance>,
        now: BlockNumber,
        buyer: AccountId,
        swap_id: SwapId,
        currency_bought: Balance,
        max_tokens: TokenBalance,
        deadline: BlockNumber,
        recipient: AccountId,
    )
        requires
            tokens.wf(),
            self.tokens_to_currency_output(
                tokens,
                balances,
                now,
                buyer,
                swap_id,
                currency_bought,
                max_tokens,
                deadline,
                recipient,
            ) is Ok,
            balances[self.swaps[swap_id].account] <= u64::MAX,
            buyer != self.swaps[swap_id].account,
            recipient != self.swaps[swap_id].account,
        ensures
            ({
                let swap = self.swaps[swap_id];
                let s = self.tokens_to_currency_output(
                    tokens,
                    balances,
                    now,
                    buyer,
                    swap_id,
                    currency_bought,
                    max_tokens,
                    deadline,
                    recipient,
                )->Ok_0;
                reserve_product(tokens, balances, swap) <= reserve_product(
                    s.tokens,
                    moved(balances, s.from, s.to, s.currency),
                    swap,
                )
            }),
    {
        let swap = self.swaps[swap_id];
        let reserve = tokens.balance_of(swap.token_id, swap.account);
        let held = balances[swap.account] as int;
        let paid = crate::pricing::output_price(currency_bought as int, reserve as int, held);
        lemma_output_trade_keeps_product(currency_bought as int, reserve as int, held);
        tokens.lemma_transferred_wf(swap.token_id, buyer, swap.account, paid as TokenBalance);
        assert(held * reserve == reserve * held) by (nonlinear_arith);
        assert((held - currency_bought) * (reserve + paid) == (reserve + paid) * (held
            - currency_bought)) by (nonlinear_arith);
    }

    /// A deposit into a pool with liquidity keeps the ratio of the
    /// reserves: cross-multiplied, the reserves before and after differ by
    /// less than the currency reserve, which is what rounding the tokens
    /// due down to a whole number costs.
    pub proof fn lemma_add_liquidity_keeps_ratio(
        self,
        tokens: LedgerState,
        balances: Map<AccountId, Balance>,
        now: BlockNumber,
        who: AccountId,
        swap_id: SwapId,
        currency_amount: Balance,
        min_liquidity: TokenBalance,
        max_tokens: TokenBalance,
        deadline: BlockNumber,
    )
        requires
            self.wf(),
            tokens.wf(),
            self.shares_issued(tokens),
            self.add_liquidity(
                tokens,
                balances,
                now,
                who,
                swap_id,
                currency_amount,
                min_liquidity,
                max_tokens,
                deadline,
            ) is Ok,
            tokens.supply(self.swaps[swap_id].swap_token) > 0,
            balances[self.swaps[swap_id].account] <= u64::MAX,
            currency_amount <= u64::MAX,
            who != self.swaps[swap_id].account,
        ensures
            ({
                let swap = self.swaps[swap_id];
                let s = self.add_liquidity(
                    tokens,
                    balances,
                    now,
                    who,
                    swap_id,
                    currency_amount,
                    min_liquidity,
                    max_tokens,
                    deadline,
                )->Ok_0;
                let held = balances[swap.account] as int;
                let reserve = tokens.balance_of(swap.token_id, swap.account) as int;
                let held_after = moved(balances, s.from, s.to, s.currency)[swap.account] as int;
                let reserve_after = s.tokens.balance_of(swap.token_id, swap.account) as int;
                0 <= held_after * reserve - held * reserve_after < held
            }),
    {
        let swap = self.swaps[swap_id];
        let held = balances[swap.account] as int;
        let reserve = tokens.balance_of(swap.token_id, swap.account) as int;
        let total = tokens.supply(swap.swap_token);
        let due = currency_amount * reserve / held;
        let minted = (currency_amount * total / held) as TokenBalance;
        let with_shares = tokens.minted(swap.swap_token, who, minted);
        tokens.lemma_balance_within_supply(swap.swap_token, who);
        tokens.lemma_minted_wf(swap.swap_token, who, minted);
        with_shares.lemma_transferred_wf(swap.token_id, who, swap.account, due as TokenBalance);
        lemma_fundamental_div_mod(currency_amount * reserve, held);
        assert((held + currency_amount) * reserve - held * (reserve + due) == currency_amount
            * reserve - held * due) by (nonlinear_arith);
    }

    /// A withdrawal keeps the ratio of the reserves: cross-multiplied, the
    /// reserves before and after differ by less than one reserve, which is
    /// what rounding both payouts down to whole numbers costs.
    pub proof fn lemma_remove_liquidity_keeps_ratio(
        self,
        tokens: LedgerState,
        balances: Map<AccountId, Balance>,
        now: BlockNumber,
        who: AccountId,
        swap_id: SwapId,
        shares_to_burn: TokenBalance,
        min_currency: Balance,
        min_tokens: TokenBalance,
        deadline: BlockNumber,
    )
        requires
            tokens.wf(),
            self.remove_liquidity(
                tokens,
                balances,
                now,
                who,
                swap_id,
                shares_to_burn,
                min_currency,
                min_tokens,
                deadline,
            ) is Ok,
            balances[self.swaps[swap_id].account] <= u64::MAX,
            who != self.swaps[swap_id].account,
        ensures
            ({
                let swap = self.swaps[swap_id];
                let s = self.remove_liquidity(
                    tokens,
                    balances,
                    now,
                    who,
                    swap_id,
                    shares_to_burn,
                    min_currency,
                    min_tokens,
                    deadline,
                )->Ok_0;
                let held = balances[swap.account] as int;
                let reserve = tokens.balance_of(swap.token_id, swap.account) as int;
                let held_after = moved(balances, s.from, s.to, s.currency)[swap.account] as int;
                let reserve_after = s.tokens.balance_of(swap.token_id, swap.account) as int;
                &&& held_after <= held
                &&& reserve_after <= reserve
                &&& -held < held_after * reserve - held * reserve_after < reserve || held_after
                    * reserve == held * reserve_after
            }),
    {
        let swap = self.swaps[swap_id];
        let held = balances[swap.account] as int;
        let reserve = tokens.balance_of(swap.token_id, swap.account) as int;
        let total = tokens.supply(swap.swap_token) as int;
        let shares = shares_to_burn as int;
        let paid = shares * held / total;
        let returned = shares * reserve / total;
        tokens.lemma_balance_within_supply(swap.swap_token, who);
        lemma_fundamental_div_mod(shares * held, total);
        lemma_fundamental_div_mod(shares * reserve, total);
        assert(paid <= held && returned <= reserve) by (nonlinear_arith)
            requires
                shares * held == total * paid + (shares * held) % total,
                shares * reserve == total * returned + (shares * reserve) % total,
                0 <= (shares * held) % total,
                0 <= (shares * reserve) % total,
                0 < shares <= total,
                0 <= held,
                0 <= reserve,
        ;
        tokens.lemma_transferred_wf(swap.token_id, swap.account, who, returned as TokenBalance);
        assert((held - paid) * reserve - held * (reserve - returned) == held * returned - paid
            * reserve) by (nonlinear_arith);
        let skew = held * returned - paid * reserve;
        let lost_currency = (shares * held) % total;
        let lost_tokens = (shares * reserve) % total;
        assert(skew * total == reserve * lost_currency - held * lost_tokens) by (nonlinear_arith)
            requires
                skew == held * returned - paid * reserve,
                shares * held == total * paid + lost_currency,
                shares * reserve == total * returned + lost_tokens,
        ;
        if held == 0 || reserve == 0 {
            assert(paid * reserve == 0 && held * returned == 0) by (nonlinear_arith)
                requires
                    held == 0 || reserve == 0,
                    0 <= paid <= held,
                    0 <= returned <= reserve,
            ;
        } else {
            assert(-held * total < skew * total < reserve * total) by (nonlinear_arith)
                requires
                    skew * total == reserve * lost_currency - held * lost_tokens,
                    0 <= lost_currency < total,
                    0 <= lost_tokens < total,
                    0 < held,
                    0 < reserve,
            ;
            assert(-held < skew < reserve) by (nonlinear_arith)
                requires
                    -held * total < skew * total < reserve * total,
                    0 < total,
            ;
        }
    }
}

} // verus!
