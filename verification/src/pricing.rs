//! The constant-product curve with a 0.3% fee.
//!
//! Of every amount that enters a pool, 997 thousandths take part in the
//! exchange. Both price formulas are stated over mathematical integers,
//! together with the laws that make the curve safe to trade against: every
//! rounding step favours the pool.

use vstd::prelude::*;
use vstd::arithmetic::div_mod::lemma_fundamental_div_mod;
use vstd::arithmetic::div_mod::lemma_div_is_ordered;
use vstd::arithmetic::div_mod::lemma_div_is_ordered_by_denominator;
use crate::math::lemma_div_lower;
use crate::math::lemma_div_upper;

verus! {

/// Divisor of the input price formula.
pub open spec fn input_price_divisor(input_amount: int, input_reserve: int) -> int {
    input_reserve * 1000 + input_amount * 997
}

/// Amount of the output asset received for selling exactly `input_amount`,
/// rounded down.
pub open spec fn input_price(input_amount: int, input_reserve: int, output_reserve: int) -> int {
    (input_amount * 997 * output_reserve) / input_price_divisor(input_amount, input_reserve)
}

/// Divisor of the output price formula.
pub open spec fn output_price_divisor(output_amount: int, output_reserve: int) -> int {
    (output_reserve - output_amount) * 997
}

/// Amount of the input asset owed for buying exactly `output_amount`,
/// rounded up by one unit.
pub open spec fn output_price(output_amount: int, input_reserve: int, output_reserve: int) -> int {
    (input_reserve * output_amount * 1000) / output_price_divisor(output_amount, output_reserve)
        + 1
}

/// The floor of the input price never exceeds the exact curve:
/// `price * divisor <= amount * 997 * output_reserve`.
pub proof fn lemma_input_price_floor(input_amount: int, input_reserve: int, output_reserve: int)
    requires
        0 <= input_amount,
        0 <= input_reserve,
        0 <= output_reserve,
        0 < input_price_divisor(input_amount, input_reserve),
    ensures
        0 <= input_price(input_amount, input_reserve, output_reserve),
        input_price(input_amount, input_reserve, output_reserve) * input_price_divisor(
            input_amount,
            input_reserve,
        ) <= input_amount * 997 * output_reserve,
{
    let n = input_amount * 997 * output_reserve;
    let d = input_price_divisor(input_amount, input_reserve);
    assert(0 <= n) by (nonlinear_arith)
        requires
            n == input_amount * 997 * output_reserve,
            0 <= input_amount,
            0 <= output_reserve,
    ;
    lemma_fundamental_div_mod(n, d);
    assert(0 * d <= n);
    lemma_div_lower(n, d, 0);
    assert((n / d) * d == d * (n / d)) by (nonlinear_arith);
}

/// A sale never pays out more than the pool holds, and strictly less while
/// the input side of the pool is funded.
pub proof fn lemma_input_price_bounded(input_amount: int, input_reserve: int, output_reserve: int)
    requires
        0 <= input_amount,
        0 <= input_reserve,
        0 <= output_reserve,
        0 < input_price_divisor(input_amount, input_reserve),
    ensures
        0 <= input_price(input_amount, input_reserve, output_reserve) <= output_reserve,
        0 < input_reserve && 0 < output_reserve ==> input_price(
            input_amount,
            input_reserve,
            output_reserve,
        ) < output_reserve,
{
    let n = input_amount * 997 * output_reserve;
    let d = input_price_divisor(input_amount, input_reserve);
    lemma_input_price_floor(input_amount, input_reserve, output_reserve);
    assert(n <= output_reserve * d) by (nonlinear_arith)
        requires
            n == input_amount * 997 * output_reserve,
            d == input_reserve * 1000 + input_amount * 997,
            0 <= input_amount,
            0 <= input_reserve,
            0 <= output_reserve,
    ;
    assert((output_reserve + 1) * d == output_reserve * d + d) by (nonlinear_arith);
    lemma_div_upper(n, d, output_reserve);
    if 0 < input_reserve && 0 < output_reserve {
        assert(n < output_reserve * d) by (nonlinear_arith)
            requires
                n == input_amount * 997 * output_reserve,
                d == input_reserve * 1000 + input_amount * 997,
                0 <= input_amount,
                0 < input_reserve,
                0 < output_reserve,
        ;
        assert((output_reserve - 1 + 1) * d == output_reserve * d);
        lemma_div_upper(n, d, output_reserve - 1);
    }
}

/// Selling more never yields less: the input price is non-decreasing in the
/// amount sold, for fixed reserves.
pub proof fn lemma_input_price_monotonic(
    smaller: int,
    larger: int,
    input_reserve: int,
    output_reserve: int,
)
    requires
        0 <= smaller <= larger,
        0 <= input_reserve,
        0 <= output_reserve,
        0 < input_price_divisor(smaller, input_reserve),
    ensures
        input_price(smaller, input_reserve, output_reserve) <= input_price(
            larger,
            input_reserve,
            output_reserve,
        ),
{
    let n1 = smaller * 997 * output_reserve;
    let d1 = input_price_divisor(smaller, input_reserve);
    let n2 = larger * 997 * output_reserve;
    let d2 = input_price_divisor(larger, input_reserve);
    let q = input_price(smaller, input_reserve, output_reserve);
    lemma_input_price_floor(smaller, input_reserve, output_reserve);
    // Cross-multiplying the two exact fractions.
    assert(n1 * d2 <= n2 * d1) by (nonlinear_arith)
        requires
            n1 == smaller * 997 * output_reserve,
            n2 == larger * 997 * output_reserve,
            d1 == input_reserve * 1000 + smaller * 997,
            d2 == input_reserve * 1000 + larger * 997,
            0 <= smaller <= larger,
            0 <= input_reserve,
            0 <= output_reserve,
    ;
    assert(q * d2 <= n2) by (nonlinear_arith)
        requires
            q * d1 <= n1,
            n1 * d2 <= n2 * d1,
            0 <= q,
            0 < d1,
            0 < d2,
    ;
    lemma_div_lower(n2, d2, q);
}

/// Buying more never costs less: the output price is non-decreasing in the
/// amount bought, as long as the pool is not drained.
pub proof fn lemma_output_price_monotonic(
    smaller: int,
    larger: int,
    input_reserve: int,
    output_reserve: int,
)
    requires
        0 <= smaller <= larger < output_reserve,
        0 <= input_reserve,
    ensures
        output_price(smaller, input_reserve, output_reserve) <= output_price(
            larger,
            input_reserve,
            output_reserve,
        ),
{
    let n1 = input_reserve * smaller * 1000;
    let n2 = input_reserve * larger * 1000;
    let d1 = output_price_divisor(smaller, output_reserve);
    let d2 = output_price_divisor(larger, output_reserve);
    assert(0 <= n1 <= n2) by (nonlinear_arith)
        requires
            n1 == input_reserve * smaller * 1000,
            n2 == input_reserve * larger * 1000,
            0 <= smaller <= larger,
            0 <= input_reserve,
    ;
    lemma_div_is_ordered(n1, n2, d1);
    lemma_div_is_ordered_by_denominator(n2, d2, d1);
}

/// The fee makes a round trip a loss: selling `amount` and selling the
/// proceeds straight back returns at most `amount`, and strictly less while
/// both sides of the pool are funded.
pub proof fn lemma_round_trip(amount: int, input_reserve: int, output_reserve: int)
    requires
        0 <= amount,
        0 <= input_reserve,
        0 < output_reserve,
        0 < input_price_divisor(amount, input_reserve),
    ensures
        ({
            let bought = input_price(amount, input_reserve, output_reserve);
            let back = input_price(bought, output_reserve - bought, input_reserve + amount);
            &&& 0 < input_price_divisor(bought, output_reserve - bought)
            &&& back <= amount
            &&& 0 < amount && 0 < input_reserve ==> back < amount
        }),
{
    let bought = input_price(amount, input_reserve, output_reserve);
    let d = input_price_divisor(amount, input_reserve);
    lemma_input_price_floor(amount, input_reserve, output_reserve);
    lemma_input_price_bounded(amount, input_reserve, output_reserve);
    let n_back = bought * 997 * (input_reserve + amount);
    let d_back = input_price_divisor(bought, output_reserve - bought);
    assert(d_back == 1000 * output_reserve - 3 * bought);
    // What the floor of the first leg gives away ...
    assert(n_back + 3 * bought * input_reserve <= 997 * amount * output_reserve)
        by (nonlinear_arith)
        requires
            bought * d <= amount * 997 * output_reserve,
            d == input_reserve * 1000 + amount * 997,
            n_back == bought * 997 * (input_reserve + amount),
    ;
    // ... and what the fee of the second leg keeps.
    assert(amount * d_back == 997 * amount * output_reserve + 3 * amount * (output_reserve
        - bought)) by (nonlinear_arith)
        requires
            d_back == 1000 * output_reserve - 3 * bought,
    ;
    assert(0 <= 3 * amount * (output_reserve - bought)) by (nonlinear_arith)
        requires
            0 <= amount,
            bought <= output_reserve,
    ;
    assert(0 <= 3 * bought * input_reserve) by (nonlinear_arith)
        requires
            0 <= bought,
            0 <= input_reserve,
    ;
    assert((amount + 1) * d_back == amount * d_back + d_back) by (nonlinear_arith);
    lemma_div_upper(n_back, d_back, amount);
    if 0 < amount && 0 < input_reserve {
        assert(3 <= 3 * amount * (output_reserve - bought)) by (nonlinear_arith)
            requires
                1 <= amount,
                bought < output_reserve,
        ;
        assert((amount - 1 + 1) * d_back == amount * d_back);
        lemma_div_upper(n_back, d_back, amount - 1);
    }
}

/// The same loss seen from the other side: after selling `amount`, buying
/// exactly `amount` back costs more than the sale paid.
pub proof fn lemma_buy_back_costs_more(amount: int, input_reserve: int, output_reserve: int)
    requires
        0 <= amount,
        0 < input_reserve,
        0 <= output_reserve,
    ensures
        ({
            let bought = input_price(amount, input_reserve, output_reserve);
            let cost = output_price(amount, output_reserve - bought, input_reserve + amount);
            &&& 0 < output_price_divisor(amount, input_reserve + amount)
            &&& bought < cost
        }),
{
    let bought = input_price(amount, input_reserve, output_reserve);
    let d = input_price_divisor(amount, input_reserve);
    lemma_input_price_floor(amount, input_reserve, output_reserve);
    lemma_input_price_bounded(amount, input_reserve, output_reserve);
    let n_back = (output_reserve - bought) * amount * 1000;
    let d_back = output_price_divisor(amount, input_reserve + amount);
    assert(d_back == input_reserve * 997);
    assert(bought * d_back <= n_back) by (nonlinear_arith)
        requires
            bought * d <= amount * 997 * output_reserve,
            d == input_reserve * 1000 + amount * 997,
            n_back == (output_reserve - bought) * amount * 1000,
            d_back == input_reserve * 997,
            0 <= bought <= output_reserve,
            0 <= amount,
            0 < input_reserve,
    ;
    lemma_div_lower(n_back, d_back, bought);
}

/// A sale at the input price never lowers the product of the reserves.
pub proof fn lemma_input_trade_keeps_product(amount: int, input_reserve: int, output_reserve: int)
    requires
        0 <= amount,
        0 <= input_reserve,
        0 <= output_reserve,
        0 < input_price_divisor(amount, input_reserve),
    ensures
        input_reserve * output_reserve <= (input_reserve + amount) * (output_reserve - input_price(
            amount,
            input_reserve,
            output_reserve,
        )),
{
    let bought = input_price(amount, input_reserve, output_reserve);
    let d = input_price_divisor(amount, input_reserve);
    lemma_input_price_floor(amount, input_reserve, output_reserve);
    assert(bought * (input_reserve + amount) * 997 <= amount * output_reserve * 997)
        by (nonlinear_arith)
        requires
            bought * d <= amount * 997 * output_reserve,
            d == input_reserve * 1000 + amount * 997,
            0 <= bought,
            0 <= input_reserve,
    ;
    assert(input_reserve * output_reserve <= (input_reserve + amount) * (output_reserve - bought))
        by (nonlinear_arith)
        requires
            bought * (input_reserve + amount) * 997 <= amount * output_reserve * 997,
    ;
}

/// A purchase at the output price never lowers the product of the reserves.
pub proof fn lemma_output_trade_keeps_product(amount: int, input_reserve: int, output_reserve: int)
    requires
        0 <= amount < output_reserve,
        0 <= input_reserve,
    ensures
        input_reserve * output_reserve <= (input_reserve + output_price(
            amount,
            input_reserve,
            output_reserve,
        )) * (output_reserve - amount),
{
    let n = input_reserve * amount * 1000;
    let d = output_price_divisor(amount, output_reserve);
    let paid = output_price(amount, input_reserve, output_reserve);
    lemma_fundamental_div_mod(n, d);
    assert(n < paid * d) by (nonlinear_arith)
        requires
            n == d * (n / d) + n % d,
            n % d < d,
            paid == n / d + 1,
    ;
    assert(input_reserve * output_reserve <= (input_reserve + paid) * (output_reserve - amount))
        by (nonlinear_arith)
        requires
            input_reserve * amount * 1000 < paid * ((output_reserve - amount) * 997),
            0 <= amount < output_reserve,
            0 <= input_reserve,
            0 <= paid,
    ;
}

} // verus!
