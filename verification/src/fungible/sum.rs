//! The sum of all balances of one asset.
//!
//! Accounts are 64-bit identifiers, so the sum over every owner is a finite
//! sum over the account space, taken here in order of the account number.

use vstd::prelude::*;
use crate::types::AccountId;
use crate::types::TokenBalance;
use crate::types::TokenId;

verus! {

/// Number of distinct account identifiers.
pub open spec fn account_space() -> nat {
    0x1_0000_0000_0000_0000
}

/// Sum of the balances that the accounts below `n` hold of asset `id`.
pub open spec fn sum_below(
    balances: Map<(TokenId, AccountId), TokenBalance>,
    id: TokenId,
    n: nat,
) -> nat
    decreases n,
{
    if n == 0 {
        0
    } else {
        balances[(id, (n - 1) as AccountId)] as nat + sum_below(balances, id, (n - 1) as nat)
    }
}

/// Sum of the balances that all accounts hold of asset `id`.
pub open spec fn supply_sum(balances: Map<(TokenId, AccountId), TokenBalance>, id: TokenId) -> nat {
    sum_below(balances, id, account_space())
}

/// Writing one balance of asset `id` moves the sum by the difference
/// between the new and the old value.
pub proof fn lemma_sum_insert(
    balances: Map<(TokenId, AccountId), TokenBalance>,
    id: TokenId,
    who: AccountId,
    value: TokenBalance,
    n: nat,
)
    requires
        n <= account_space(),
    ensures
        sum_below(balances.insert((id, who), value), id, n) == sum_below(balances, id, n) + (if who
            < n {
            value - balances[(id, who)]
        } else {
            0
        }),
    decreases n,
{
    if n > 0 {
        lemma_sum_insert(balances, id, who, value, (n - 1) as nat);
    }
}

/// Writing a balance of another asset leaves the sum of asset `id` alone.
pub proof fn lemma_sum_insert_other(
    balances: Map<(TokenId, AccountId), TokenBalance>,
    id: TokenId,
    other: TokenId,
    who: AccountId,
    value: TokenBalance,
    n: nat,
)
    requires
        other != id,
    ensures
        sum_below(balances.insert((other, who), value), id, n) == sum_below(balances, id, n),
    decreases n,
{
    if n > 0 {
        lemma_sum_insert_other(balances, id, other, who, value, (n - 1) as nat);
    }
}

/// No single balance exceeds the sum it is part of.
pub proof fn lemma_sum_bounds_one(
    balances: Map<(TokenId, AccountId), TokenBalance>,
    id: TokenId,
    who: AccountId,
    n: nat,
)
    requires
        who < n <= account_space(),
    ensures
        balances[(id, who)] <= sum_below(balances, id, n),
    decreases n,
{
    if who < n - 1 {
        lemma_sum_bounds_one(balances, id, who, (n - 1) as nat);
    }
}

/// Two distinct balances together do not exceed the sum they are part of.
pub proof fn lemma_sum_bounds_two(
    balances: Map<(TokenId, AccountId), TokenBalance>,
    id: TokenId,
    first: AccountId,
    second: AccountId,
    n: nat,
)
    requires
        first != second,
        first < n <= account_space(),
        second < n,
    ensures
        balances[(id, first)] + balances[(id, second)] <= sum_below(balances, id, n),
    decreases n,
{
    if first == n - 1 {
        lemma_sum_bounds_one(balances, id, second, (n - 1) as nat);
    } else if second == n - 1 {
        lemma_sum_bounds_one(balances, id, first, (n - 1) as nat);
    } else {
        lemma_sum_bounds_two(balances, id, first, second, (n - 1) as nat);
    }
}

/// Where nobody holds anything, the sum is zero.
pub proof fn lemma_sum_of_nothing(
    balances: Map<(TokenId, AccountId), TokenBalance>,
    id: TokenId,
    n: nat,
)
    requires
        forall|who: AccountId| #[trigger] balances[(id, who)] == 0,
    ensures
        sum_below(balances, id, n) == 0,
    decreases n,
{
    if n > 0 {
        lemma_sum_of_nothing(balances, id, (n - 1) as nat);
    }
}

} // verus!
