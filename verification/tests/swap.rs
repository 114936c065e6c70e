use swaps::currency::Balances;
use swaps::currency::Currency;
use swaps::currency::CurrencyError;
use swaps::fungible::Error as TokenError;
use swaps::fungible::Module as Fungible;
use swaps::swap::Error;
use swaps::swap::Event;
use swaps::swap::Module;
use swaps::swap::Swap;

/// The block at which every call of these tests is made.
const NOW: u64 = 0;

struct TestExt {
    balances: Balances,
    fungible: Fungible,
    swaps: Module,
}

// Builds the state that every test starts from: five funded accounts, no
// asset and no pool.
fn new_test_ext() -> TestExt {
    let mut balances = Balances::new();
    for who in 1..=5u64 {
        balances.make_free_balance_be(who, 10000);
    }
    TestExt { balances, fungible: Fungible::new(), swaps: Module::new() }
}

// A pool on asset 0, seeded by account 1 with 420 currency and 42 tokens.
fn seeded_pool() -> (TestExt, Swap) {
    let mut t = new_test_ext();
    assert_eq!(t.fungible.create_token(1, 42), Ok(0u64));
    assert_eq!(t.swaps.create_swap(&mut t.fungible, 1, 0), Ok(()));
    assert_eq!(
        t.swaps.add_liquidity(&mut t.fungible, &mut t.balances, NOW, 1, 0, 420, 0, 42, 100),
        Ok(())
    );
    let swap = t.swaps.swaps(0).unwrap();
    (t, swap)
}

#[test]
fn creates_a_new_swap() {
    let mut t = new_test_ext();
    assert!(t.fungible.create_token(1, 42).is_ok());
    assert_eq!(t.fungible.token_count(), 1);

    assert_eq!(t.swaps.swap_count(), 0);
    assert_eq!(t.swaps.create_swap(&mut t.fungible, 1, 0), Ok(()));
    assert_eq!(t.swaps.swap_count(), 1);
    assert_eq!(t.fungible.token_count(), 2);
    let swap_id = t.swaps.token_to_swap(0);
    assert_eq!(swap_id, 0);
    let swap = t.swaps.swaps(0).unwrap();
    assert_eq!(swap.token_id, 0);
    assert_eq!(swap.swap_token, 1);
    assert_eq!(swap.account, 3415826855702589293);
}

#[test]
fn cannot_create_a_second_swap_for_identical_token() {
    let mut t = new_test_ext();
    // Create TokenId 0.
    assert!(t.fungible.create_token(1, 42).is_ok());

    // Create SwapId 0 for TokenId 0.
    assert_eq!(t.swaps.create_swap(&mut t.fungible, 1, 0), Ok(()));

    // Fails creating a second swap for TokenId 0.
    assert_eq!(t.swaps.create_swap(&mut t.fungible, 1, 0), Err(Error::SwapAlreadyExists));
    assert_eq!(t.swaps.swap_count(), 1);
    assert_eq!(t.fungible.token_count(), 2);
}

#[test]
fn can_add_liquidity_when_total_liquidity_is_zero() {
    let mut t = new_test_ext();
    // Create TokenId 0.
    assert!(t.fungible.create_token(1, 42).is_ok());

    // Create SwapId 0 for TokenId 0, creating TokenId 1 as shares.
    assert_eq!(t.swaps.create_swap(&mut t.fungible, 1, 0), Ok(()));

    // Adds liquidity to SwapId 0.
    assert_eq!(
        t.swaps.add_liquidity(&mut t.fungible, &mut t.balances, NOW, 1, 0, 420, 0, 42, 100),
        Ok(())
    );

    let swap = t.swaps.swaps(0).unwrap();

    // Balance left the sender...
    let sender_bal = t.balances.free_balance(1);
    assert_eq!(sender_bal, 10000 - 420);
    // ... and went into the swap account.
    let swap_bal = t.balances.free_balance(swap.account);
    assert_eq!(swap_bal, 420);

    // TokenId 0 left the sender...
    let sender_tokens = t.fungible.balance_of((0, 1));
    assert_eq!(sender_tokens, 0);
    // .. and went into the swap account.
    let swap_tokens = t.fungible.balance_of((0, swap.account));
    assert_eq!(swap_tokens, 42);

    // TokenId exists in sender's account.
    let sender_token_ones = t.fungible.balance_of((1, 1));
    assert_eq!(sender_token_ones, 420);
}

#[test]
fn it_errors_when_trying_to_add_liqudity_to_nonexistent_swap() {
    let mut t = new_test_ext();
    // Fails to add liquidity to SwapId 33 (doesn't exist).
    assert_eq!(
        t.swaps.add_liquidity(&mut t.fungible, &mut t.balances, NOW, 1, 33, 420, 0, 42, 100),
        Err(Error::NoSwapExists)
    );
}

#[test]
fn it_adds_liquidity_to_swap_with_liquidity() {
    let mut t = new_test_ext();
    // Create TokenId 0.
    assert!(t.fungible.create_token(1, 42).is_ok());

    // Create SwapId 0 for TokenId 0, creating TokenId 1 as shares.
    assert_eq!(t.swaps.create_swap(&mut t.fungible, 1, 0), Ok(()));

    // Adds liquidity to SwapId 0.
    assert_eq!(
        t.swaps.add_liquidity(&mut t.fungible, &mut t.balances, NOW, 1, 0, 200, 0, 20, 100),
        Ok(())
    );

    // First check when asking for more than enough liqudiity.
    assert_eq!(
        t.swaps.add_liquidity(
            &mut t.fungible,
            &mut t.balances,
            NOW,
            1,
            0,
            100,
            101, // too high
            10,
            100,
        ),
        Err(Error::TooLowLiquidity)
    );

    // Now do it for real.
    assert_eq!(
        t.swaps.add_liquidity(
            &mut t.fungible,
            &mut t.balances,
            NOW,
            1,
            0,
            100,
            100, // just right
            10,
            100,
        ),
        Ok(())
    );

    let swap = t.swaps.swaps(0).unwrap();

    // Balance left the sender...
    let sender_bal = t.balances.free_balance(1);
    assert_eq!(sender_bal, 10000 - 300);
    // ... and went into the swap account.
    let swap_bal = t.balances.free_balance(swap.account);
    assert_eq!(swap_bal, 300);

    // TokenId 0 left the sender...
    let sender_tokens = t.fungible.balance_of((0, 1));
    assert_eq!(sender_tokens, 12);
    // .. and went into the swap account.
    let swap_tokens = t.fungible.balance_of((0, swap.account));
    assert_eq!(swap_tokens, 30);

    // TokenId exists in sender's account.
    let sender_token_ones = t.fungible.balance_of((1, 1));
    assert_eq!(sender_token_ones, 300);
}

#[test]
fn remove_liquidity_fails_on_swap_with_no_liquidity() {
    let mut t = new_test_ext();
    // Create TokenId 0.
    assert!(t.fungible.create_token(1, 42).is_ok());

    // Create SwapId 0 for TokenId 0, creating TokenId 1 as shares.
    assert_eq!(t.swaps.create_swap(&mut t.fungible, 1, 0), Ok(()));

    // Cannot remove liquidity from a swap with no liquidity.
    assert_eq!(
        t.swaps.remove_liquidity(
            &mut t.fungible,
            &mut t.balances,
            NOW,
            1,
            0,
            200, // shares to burn
            200, // min currency (exact)
            20,  // min tokens (exact)
            100,
        ),
        Err(Error::NoLiquidity)
    );
}

#[test]
fn it_removes_liquidity_from_swap() {
    let mut t = new_test_ext();
    // Create TokenId 0.
    assert!(t.fungible.create_token(1, 42).is_ok());

    // Create SwapId 0 for TokenId 0, creating TokenId 1 as shares.
    assert_eq!(t.swaps.create_swap(&mut t.fungible, 1, 0), Ok(()));

    // Adds liquidity to SwapId 0.
    assert_eq!(
        t.swaps.add_liquidity(
            &mut t.fungible,
            &mut t.balances,
            NOW,
            1,
            0,
            200, // Currency
            0,   // min swap shares
            20,  // max tokens
            100,
        ),
        Ok(())
    );

    // First cause some no-ops
    // 0) NoSwapExists
    assert_eq!(
        t.swaps.remove_liquidity(
            &mut t.fungible,
            &mut t.balances,
            NOW,
            1,
            12, // this swap doesn't exist
            200,
            0,
            0,
            100,
        ),
        Err(Error::NoSwapExists)
    );
    // 1) BurnZeroShares
    assert_eq!(
        t.swaps.remove_liquidity(
            &mut t.fungible,
            &mut t.balances,
            NOW,
            1,
            0,
            0, // shares to burn
            0,
            0,
            100,
        ),
        Err(Error::BurnZeroShares)
    );
    // 2) NotEnoughCurrency
    assert_eq!(
        t.swaps.remove_liquidity(
            &mut t.fungible,
            &mut t.balances,
            NOW,
            1,
            0,
            200,
            2000, // min currency
            0,
            100,
        ),
        Err(Error::NotEnoughCurrency)
    );
    // 3) NotEnoughTokens
    assert_eq!(
        t.swaps.remove_liquidity(
            &mut t.fungible,
            &mut t.balances,
            NOW,
            1,
            0,
            200,
            0,
            2000, // min tokens
            100,
        ),
        Err(Error::NotEnoughTokens)
    );

    // Now successfully remove liquidity.
    assert_eq!(
        t.swaps.remove_liquidity(
            &mut t.fungible,
            &mut t.balances,
            NOW,
            1,
            0,
            200, // shares to burn
            200, // min currency (exact)
            20,  // min tokens (exact)
            100,
        ),
        Ok(())
    );

    // And make the requisite checks.
    let swap = t.swaps.swaps(0).unwrap();

    // Sender has the same balance as the start.
    let sender_bal = t.balances.free_balance(1);
    assert_eq!(sender_bal, 10000);

    // Swap account has no balance.
    let swap_bal = t.balances.free_balance(swap.account);
    assert_eq!(swap_bal, 0);

    // Sender has the same amount of TokenId 0.
    let sender_tokens = t.fungible.balance_of((0, 1));
    assert_eq!(sender_tokens, 42);

    // Swap account has no tokens.
    let swap_tokens = t.fungible.balance_of((0, swap.account));
    assert_eq!(swap_tokens, 0);

    // No shares exist.
    let shares_total_supply = t.fungible.total_supply(1);
    assert_eq!(shares_total_supply, 0);
}

#[test]
fn it_allows_swap_currency_to_tokens_input() {
    let mut t = new_test_ext();
    // Create TokenId 0.
    assert!(t.fungible.create_token(1, 42).is_ok());

    // Create SwapId 0 for TokenId 0, creating TokenId 1 as shares.
    assert_eq!(t.swaps.create_swap(&mut t.fungible, 1, 0), Ok(()));

    // Adds liquidity to SwapId 0.
    assert_eq!(
        t.swaps.add_liquidity(&mut t.fungible, &mut t.balances, NOW, 1, 0, 420, 0, 42, 100),
        Ok(())
    );

    assert_eq!(
        t.swaps.currency_to_tokens_input(
            &mut t.fungible,
            &mut t.balances,
            NOW,
            2,
            0,
            300,
            20, // min tokens is set too high
            100,
            2,
        ),
        Err(Error::NotEnoughTokens)
    );

    assert_eq!(
        t.swaps.currency_to_tokens_input(
            &mut t.fungible,
            &mut t.balances,
            NOW,
            2,
            0,
            300,
            1,
            100,
            2,
        ),
        Ok(())
    );

    let swap = t.swaps.swaps(0).unwrap();

    let swapper_bal = t.balances.free_balance(2);
    assert_eq!(swapper_bal, 10000 - 300);

    let swap_bal = t.balances.free_balance(swap.account);
    assert_eq!(swap_bal, 720);

    let swapper_tokens = t.fungible.balance_of((0, 2));
    assert_eq!(swapper_tokens, 17);

    let swap_tokens = t.fungible.balance_of((0, swap.account));
    assert_eq!(swap_tokens, 42 - 17);
}

#[test]
fn it_allows_swap_currency_to_tokens_output() {
    let mut t = new_test_ext();
    // Create TokenId 0.
    assert!(t.fungible.create_token(1, 42).is_ok());

    // Create SwapId 0 for TokenId 0, creating TokenId 1 as shares.
    assert_eq!(t.swaps.create_swap(&mut t.fungible, 1, 0), Ok(()));

    // Adds liquidity to SwapId 0.
    assert_eq!(
        t.swaps.add_liquidity(&mut t.fungible, &mut t.balances, NOW, 1, 0, 420, 0, 42, 100),
        Ok(())
    );

    assert_eq!(
        t.swaps.currency_to_tokens_output(
            &mut t.fungible,
            &mut t.balances,
            NOW,
            2,
            0,
            17,
            200, // max currency is too low for this token amount
            100,
            2,
        ),
        Err(Error::TooExpensiveCurrency)
    );

    assert_eq!(
        t.swaps.currency_to_tokens_output(
            &mut t.fungible,
            &mut t.balances,
            NOW,
            2,
            0,
            17,
            300, // just right
            100,
            2,
        ),
        Ok(())
    );

    let swap = t.swaps.swaps(0).unwrap();

    let swapper_bal = t.balances.free_balance(2);
    assert_eq!(swapper_bal, 10000 - 287);

    let swap_bal = t.balances.free_balance(swap.account);
    assert_eq!(swap_bal, 420 + 287);

    let swapper_tokens = t.fungible.balance_of((0, 2));
    assert_eq!(swapper_tokens, 17);

    let swap_tokens = t.fungible.balance_of((0, swap.account));
    assert_eq!(swap_tokens, 42 - 17);
}

#[test]
fn it_allows_tokens_to_currency_input() {
    let mut t = new_test_ext();
    // Create TokenId 0.
    assert!(t.fungible.create_token(1, 42).is_ok());

    // Create SwapId 0 for TokenId 0, creating TokenId 1 as shares.
    assert_eq!(t.swaps.create_swap(&mut t.fungible, 1, 0), Ok(()));

    // Adds liquidity to SwapId 0.
    assert_eq!(
        t.swaps.add_liquidity(&mut t.fungible, &mut t.balances, NOW, 1, 0, 420, 0, 42, 100),
        Ok(())
    );

    // Give some token to Account 2.
    assert_eq!(t.fungible.mint(0, 2, 42), Ok(()));

    assert_eq!(
        t.swaps.tokens_to_currency_input(
            &mut t.fungible,
            &mut t.balances,
            NOW,
            2,
            0,
            20,   // tokens sold
            1000, // min currency too high
            100,
            2,
        ),
        Err(Error::NotEnoughCurrency)
    );

    assert_eq!(
        t.swaps.tokens_to_currency_input(
            &mut t.fungible,
            &mut t.balances,
            NOW,
            2,
            0,
            20,
            1,
            100,
            2,
        ),
        Ok(())
    );

    let swap = t.swaps.swaps(0).unwrap();

    let swapper_tokens = t.fungible.balance_of((0, 2));
    assert_eq!(swapper_tokens, 42 - 20);

    let swap_tokens = t.fungible.balance_of((0, swap.account));
    assert_eq!(swap_tokens, 42 + 20);

    let swapper_bal = t.balances.free_balance(2);
    assert_eq!(swapper_bal, 10000 + 135);

    let swap_bal = t.balances.free_balance(swap.account);
    assert_eq!(swap_bal, 420 - 135);
}

#[test]
fn it_allows_tokens_to_currency_output() {
    let mut t = new_test_ext();
    // Create TokenId 0.
    assert!(t.fungible.create_token(1, 42).is_ok());

    // Create SwapId 0 for TokenId 0, creating TokenId 1 as shares.
    assert_eq!(t.swaps.create_swap(&mut t.fungible, 1, 0), Ok(()));

    // Adds liquidity to SwapId 0.
    assert_eq!(
        t.swaps.add_liquidity(&mut t.fungible, &mut t.balances, NOW, 1, 0, 420, 0, 42, 100),
        Ok(())
    );

    assert_eq!(t.fungible.mint(0, 2, 42), Ok(()));

    assert_eq!(
        t.swaps.tokens_to_currency_output(
            &mut t.fungible,
            &mut t.balances,
            NOW,
            2,
            0,
            135, // currency bought
            1,   // max_tokens too low
            100,
            2,
        ),
        Err(Error::TooExpensiveTokens)
    );

    assert_eq!(
        t.swaps.tokens_to_currency_output(
            &mut t.fungible,
            &mut t.balances,
            NOW,
            2,
            0,
            135,
            1000,
            100,
            2,
        ),
        Ok(())
    );

    let swap = t.swaps.swaps(0).unwrap();

    let swapper_tokens = t.fungible.balance_of((0, 2));
    assert_eq!(swapper_tokens, 42 - 20);

    let swap_tokens = t.fungible.balance_of((0, swap.account));
    assert_eq!(swap_tokens, 42 + 20);

    let swapper_bal = t.balances.free_balance(2);
    assert_eq!(swapper_bal, 10000 + 135);

    let swap_bal = t.balances.free_balance(swap.account);
    assert_eq!(swap_bal, 420 - 135);
}

#[test]
fn reserve_accounts_follow_the_pool_number() {
    let mut t = new_test_ext();
    assert_eq!(t.fungible.create_token(1, 42), Ok(0u64));
    assert_eq!(t.fungible.create_token(2, 7), Ok(1u64));
    assert_eq!(t.swaps.create_swap(&mut t.fungible, 1, 1), Ok(()));
    assert_eq!(t.swaps.create_swap(&mut t.fungible, 2, 0), Ok(()));
    assert_eq!(
        t.swaps.swaps(0),
        Some(Swap { token_id: 1, swap_token: 2, account: 3415826855702589293 })
    );
    assert_eq!(
        t.swaps.swaps(1),
        Some(Swap { token_id: 0, swap_token: 3, account: 3415826855702589294 })
    );
    assert_eq!(t.swaps.swaps(2), None);
    assert_eq!(t.swaps.token_to_swap(1), 0);
    assert_eq!(t.swaps.token_to_swap(0), 1);
    assert_eq!(t.swaps.token_to_swap(5), 0);
    assert_eq!(t.fungible.total_supply(2), 0);
    assert_eq!(t.fungible.total_supply(3), 0);
    assert_eq!(
        t.swaps.events().clone(),
        vec![
            Event::PoolCreated(0, 3415826855702589293),
            Event::PoolCreated(1, 3415826855702589294)
        ]
    );
}

#[test]
fn add_liquidity_checks_its_arguments_in_order() {
    let (mut t, _swap) = seeded_pool();
    let expired =
        t.swaps.add_liquidity(&mut t.fungible, &mut t.balances, 101, 1, 33, 0, 0, 0, 100);
    assert_eq!(expired, Err(Error::Expired));
    let at_deadline =
        t.swaps.add_liquidity(&mut t.fungible, &mut t.balances, 100, 1, 33, 0, 0, 0, 100);
    assert_eq!(at_deadline, Err(Error::ZeroTokens));
    let no_currency =
        t.swaps.add_liquidity(&mut t.fungible, &mut t.balances, NOW, 1, 33, 0, 0, 1, 100);
    assert_eq!(no_currency, Err(Error::ZeroAmount));
    let no_pool =
        t.swaps.add_liquidity(&mut t.fungible, &mut t.balances, NOW, 1, 33, 1, 0, 1, 100);
    assert_eq!(no_pool, Err(Error::NoSwapExists));
    let no_minimum =
        t.swaps.add_liquidity(&mut t.fungible, &mut t.balances, NOW, 1, 0, 100, 0, 10, 100);
    assert_eq!(no_minimum, Err(Error::RequestedZeroLiquidity));
    let too_many =
        t.swaps.add_liquidity(&mut t.fungible, &mut t.balances, NOW, 1, 0, 100, 1, 9, 100);
    assert_eq!(too_many, Err(Error::TooManyTokens));
}

#[test]
fn add_liquidity_needs_the_tokens() {
    let (mut t, swap) = seeded_pool();
    // Account 1 has no tokens left, so it cannot add the 10 that are due.
    assert_eq!(
        t.swaps.add_liquidity(&mut t.fungible, &mut t.balances, NOW, 1, 0, 100, 1, 10, 100),
        Err(Error::Token(TokenError::InsufficientFunds))
    );
    assert_eq!(t.balances.free_balance(1), 10000 - 420);
    assert_eq!(t.balances.free_balance(swap.account), 420);
    assert_eq!(t.fungible.total_supply(1), 420);
}

#[test]
fn add_liquidity_moves_nothing_when_the_currency_refuses() {
    let mut t = new_test_ext();
    assert_eq!(t.fungible.create_token(1, 42), Ok(0u64));
    assert_eq!(t.swaps.create_swap(&mut t.fungible, 1, 0), Ok(()));
    assert_eq!(
        t.swaps.add_liquidity(&mut t.fungible, &mut t.balances, NOW, 1, 0, 10001, 0, 42, 100),
        Err(Error::Currency(CurrencyError::InsufficientBalance))
    );
    // The whole balance cannot leave an account that must stay alive.
    assert_eq!(
        t.swaps.add_liquidity(&mut t.fungible, &mut t.balances, NOW, 1, 0, 10000, 0, 42, 100),
        Err(Error::Currency(CurrencyError::KeepAlive))
    );
    assert_eq!(t.balances.free_balance(1), 10000);
    assert_eq!(t.fungible.balance_of((0, 1)), 42);
    assert_eq!(t.fungible.total_supply(1), 0);
    assert!(t.fungible.events().len() == 2);
    assert_eq!(t.swaps.events().len(), 1);
}

#[test]
fn add_liquidity_to_a_pool_without_currency_has_no_price() {
    let (mut t, swap) = seeded_pool();
    // The reserve account gives its currency away behind the pool's back.
    assert_eq!(t.balances.transfer(swap.account, 5, 420, false), Ok(()));
    assert_eq!(
        t.swaps.add_liquidity(&mut t.fungible, &mut t.balances, NOW, 1, 0, 100, 1, 10, 100),
        Err(Error::DivisionByZero)
    );
}

#[test]
fn add_liquidity_overflowing_the_share_supply_is_refused() {
    let (mut t, swap) = seeded_pool();
    assert_eq!(t.fungible.mint(1, 3, u64::MAX - 420), Ok(()));
    assert_eq!(t.fungible.mint(0, 1, 100), Ok(()));
    assert_eq!(
        t.swaps.add_liquidity(&mut t.fungible, &mut t.balances, NOW, 1, 0, 100, 1, 10, 100),
        Err(Error::Overflow)
    );
    assert_eq!(t.balances.free_balance(swap.account), 420);
    assert_eq!(t.fungible.balance_of((0, 1)), 100);
}

#[test]
fn emptied_pool_is_seeded_again() {
    let (mut t, swap) = seeded_pool();
    assert_eq!(
        t.swaps.remove_liquidity(&mut t.fungible, &mut t.balances, NOW, 1, 0, 420, 1, 1, 100),
        Ok(())
    );
    assert_eq!(t.fungible.total_supply(1), 0);
    assert_eq!(t.balances.free_balance(swap.account), 0);
    // The next deposit sets the price anew.
    assert_eq!(
        t.swaps.add_liquidity(&mut t.fungible, &mut t.balances, NOW, 1, 0, 50, 0, 5, 100),
        Ok(())
    );
    assert_eq!(t.fungible.balance_of((1, 1)), 50);
    assert_eq!(t.fungible.balance_of((0, swap.account)), 5);
    assert_eq!(t.balances.free_balance(swap.account), 50);
}

#[test]
fn remove_liquidity_pays_a_share_of_both_reserves() {
    let (mut t, swap) = seeded_pool();
    // 100 of 420 shares: floor(100 * 420 / 420) currency, floor(100 * 42 / 420) tokens.
    assert_eq!(
        t.swaps.remove_liquidity(&mut t.fungible, &mut t.balances, NOW, 1, 0, 100, 100, 10, 100),
        Ok(())
    );
    assert_eq!(t.balances.free_balance(1), 10000 - 320);
    assert_eq!(t.balances.free_balance(swap.account), 320);
    assert_eq!(t.fungible.balance_of((0, 1)), 10);
    assert_eq!(t.fungible.balance_of((0, swap.account)), 32);
    assert_eq!(t.fungible.balance_of((1, 1)), 320);
    assert_eq!(t.fungible.total_supply(1), 320);
    // 33 of 320 shares: floor(33 * 320 / 320) = 33 currency, floor(33 * 32 / 320) = 3 tokens.
    assert_eq!(
        t.swaps.remove_liquidity(&mut t.fungible, &mut t.balances, NOW, 1, 0, 33, 33, 4, 100),
        Err(Error::NotEnoughTokens)
    );
    assert_eq!(
        t.swaps.remove_liquidity(&mut t.fungible, &mut t.balances, NOW, 1, 0, 33, 33, 3, 100),
        Ok(())
    );
    assert_eq!(t.fungible.balance_of((0, 1)), 13);
    assert_eq!(t.balances.free_balance(swap.account), 287);
    assert_eq!(
        t.swaps.events().clone(),
        vec![
            Event::PoolCreated(0, 3415826855702589293),
            Event::LiquidityAdded(0, 1, 420, 42),
            Event::LiquidityRemoved(0, 1, 100, 10),
            Event::LiquidityRemoved(0, 1, 33, 3)
        ]
    );
}

#[test]
fn remove_liquidity_needs_the_shares() {
    let (mut t, swap) = seeded_pool();
    assert_eq!(
        t.swaps.remove_liquidity(&mut t.fungible, &mut t.balances, NOW, 2, 0, 1, 0, 0, 100),
        Err(Error::Token(TokenError::InsufficientFunds))
    );
    assert_eq!(
        t.swaps.remove_liquidity(&mut t.fungible, &mut t.balances, NOW, 1, 0, 421, 0, 0, 100),
        Err(Error::Token(TokenError::InsufficientFunds))
    );
    assert_eq!(
        t.swaps.remove_liquidity(&mut t.fungible, &mut t.balances, 101, 1, 0, 420, 0, 0, 100),
        Err(Error::Expired)
    );
    assert_eq!(t.fungible.total_supply(1), 420);
    assert_eq!(t.balances.free_balance(swap.account), 420);
    assert_eq!(t.fungible.balance_of((0, swap.account)), 42);
}

#[test]
fn trades_check_their_arguments_in_order() {
    let (mut t, _swap) = seeded_pool();
    assert_eq!(
        t.swaps.currency_to_tokens_input(&mut t.fungible, &mut t.balances, 101, 2, 9, 0, 0, 100, 2),
        Err(Error::Expired)
    );
    assert_eq!(
        t.swaps.currency_to_tokens_input(&mut t.fungible, &mut t.balances, 100, 2, 9, 0, 0, 100, 2),
        Err(Error::NoCurrencySwapped)
    );
    assert_eq!(
        t.swaps.currency_to_tokens_input(&mut t.fungible, &mut t.balances, NOW, 2, 9, 1, 0, 100, 2),
        Err(Error::NoTokensSwapped)
    );
    assert_eq!(
        t.swaps.currency_to_tokens_input(&mut t.fungible, &mut t.balances, NOW, 2, 9, 1, 1, 100, 2),
        Err(Error::NoSwapExists)
    );
    assert_eq!(
        t.swaps.currency_to_tokens_output(&mut t.fungible, &mut t.balances, 101, 2, 9, 0, 0, 100, 2),
        Err(Error::Expired)
    );
    assert_eq!(
        t.swaps.currency_to_tokens_output(&mut t.fungible, &mut t.balances, NOW, 2, 9, 0, 0, 100, 2),
        Err(Error::NoTokensSwapped)
    );
    assert_eq!(
        t.swaps.currency_to_tokens_output(&mut t.fungible, &mut t.balances, NOW, 2, 9, 1, 0, 100, 2),
        Err(Error::NoCurrencySwapped)
    );
    assert_eq!(
        t.swaps.currency_to_tokens_output(&mut t.fungible, &mut t.balances, NOW, 2, 9, 1, 1, 100, 2),
        Err(Error::NoSwapExists)
    );
    assert_eq!(
        t.swaps.tokens_to_currency_input(&mut t.fungible, &mut t.balances, 101, 2, 9, 0, 0, 100, 2),
        Err(Error::Expired)
    );
    assert_eq!(
        t.swaps.tokens_to_currency_input(&mut t.fungible, &mut t.balances, NOW, 2, 9, 0, 0, 100, 2),
        Err(Error::NoTokensSwapped)
    );
    assert_eq!(
        t.swaps.tokens_to_currency_input(&mut t.fungible, &mut t.balances, NOW, 2, 9, 1, 0, 100, 2),
        Err(Error::NoCurrencySwapped)
    );
    assert_eq!(
        t.swaps.tokens_to_currency_input(&mut t.fungible, &mut t.balances, NOW, 2, 9, 1, 1, 100, 2),
        Err(Error::NoSwapExists)
    );
    assert_eq!(
        t.swaps.tokens_to_currency_output(&mut t.fungible, &mut t.balances, 101, 2, 9, 0, 0, 100, 2),
        Err(Error::Expired)
    );
    assert_eq!(
        t.swaps.tokens_to_currency_output(&mut t.fungible, &mut t.balances, NOW, 2, 9, 0, 0, 100, 2),
        Err(Error::NoTokensSwapped)
    );
    assert_eq!(
        t.swaps.tokens_to_currency_output(&mut t.fungible, &mut t.balances, NOW, 2, 9, 0, 1, 100, 2),
        Err(Error::NoCurrencySwapped)
    );
    assert_eq!(
        t.swaps.tokens_to_currency_output(&mut t.fungible, &mut t.balances, NOW, 2, 9, 1, 1, 100, 2),
        Err(Error::NoSwapExists)
    );
}

#[test]
fn purchase_cannot_drain_a_reserve() {
    let (mut t, swap) = seeded_pool();
    assert_eq!(t.fungible.mint(0, 2, 42), Ok(()));
    assert_eq!(
        t.swaps.currency_to_tokens_output(
            &mut t.fungible,
            &mut t.balances,
            NOW,
            2,
            0,
            42,
            10000,
            100,
            2
        ),
        Err(Error::PoolDrained)
    );
    assert_eq!(
        t.swaps.tokens_to_currency_output(
            &mut t.fungible,
            &mut t.balances,
            NOW,
            2,
            0,
            420,
            10000,
            100,
            2
        ),
        Err(Error::PoolDrained)
    );
    assert_eq!(t.balances.free_balance(swap.account), 420);
    assert_eq!(t.fungible.balance_of((0, swap.account)), 42);
}

#[test]
fn sale_of_tokens_needs_the_tokens() {
    let (mut t, swap) = seeded_pool();
    assert_eq!(
        t.swaps.tokens_to_currency_input(&mut t.fungible, &mut t.balances, NOW, 2, 0, 20, 1, 100, 2),
        Err(Error::Token(TokenError::InsufficientFunds))
    );
    assert_eq!(
        t.swaps.tokens_to_currency_output(
            &mut t.fungible,
            &mut t.balances,
            NOW,
            2,
            0,
            135,
            1000,
            100,
            2
        ),
        Err(Error::Token(TokenError::InsufficientFunds))
    );
    assert_eq!(t.balances.free_balance(2), 10000);
    assert_eq!(t.balances.free_balance(swap.account), 420);
}

#[test]
fn output_goes_to_the_recipient() {
    let (mut t, swap) = seeded_pool();
    assert_eq!(t.fungible.mint(0, 2, 42), Ok(()));
    // Account 2 pays 300 currency, account 3 gets the 17 tokens.
    assert_eq!(
        t.swaps.currency_to_tokens_input(&mut t.fungible, &mut t.balances, NOW, 2, 0, 300, 1, 100, 3),
        Ok(())
    );
    assert_eq!(t.balances.free_balance(2), 10000 - 300);
    assert_eq!(t.fungible.balance_of((0, 3)), 17);
    assert_eq!(t.fungible.balance_of((0, 2)), 42);
    assert_eq!(t.balances.free_balance(swap.account), 720);
    assert_eq!(t.fungible.balance_of((0, swap.account)), 25);
    // Account 2 pays tokens for exactly 100 currency, which account 4 gets:
    // floor(25 * 100 * 1000 / ((720 - 100) * 997)) + 1 = 5 tokens.
    assert_eq!(
        t.swaps.tokens_to_currency_output(
            &mut t.fungible,
            &mut t.balances,
            NOW,
            2,
            0,
            100,
            5,
            100,
            4
        ),
        Ok(())
    );
    assert_eq!(t.fungible.balance_of((0, 2)), 37);
    assert_eq!(t.balances.free_balance(4), 10100);
    assert_eq!(t.balances.free_balance(2), 10000 - 300);
    assert_eq!(t.fungible.balance_of((0, swap.account)), 30);
    assert_eq!(t.balances.free_balance(swap.account), 620);
    let events = t.swaps.take_events();
    assert_eq!(events[2], Event::TokenPurchase(0, 2, 300, 17, 3));
    assert_eq!(events[3], Event::CurrencyPurchase(0, 2, 100, 5, 4));
    assert!(t.swaps.events().is_empty());
}

#[test]
fn selling_and_buying_back_loses_the_fee() {
    let (mut t, swap) = seeded_pool();
    // 300 currency buys 17 tokens; selling the 17 tokens back returns 290.
    assert_eq!(
        t.swaps.currency_to_tokens_input(&mut t.fungible, &mut t.balances, NOW, 2, 0, 300, 1, 100, 2),
        Ok(())
    );
    assert_eq!(
        t.swaps.tokens_to_currency_input(&mut t.fungible, &mut t.balances, NOW, 2, 0, 17, 1, 100, 2),
        Ok(())
    );
    assert_eq!(t.balances.free_balance(2), 10000 - 300 + 290);
    assert_eq!(t.fungible.balance_of((0, 2)), 0);
    assert_eq!(t.balances.free_balance(swap.account), 430);
    assert_eq!(t.fungible.balance_of((0, swap.account)), 42);
}

#[test]
fn quoted_price_is_the_traded_price() {
    let (t, swap) = seeded_pool();
    assert_eq!(Module::get_currency_to_token_input_price(&t.fungible, &t.balances, &swap, 300), 17);
    assert_eq!(Module::get_currency_to_token_input_price(&t.fungible, &t.balances, &swap, 0), 0);
    assert_eq!(Module::get_token_reserve(&t.fungible, &swap), 42);
    assert_eq!(Module::get_swap_balance(&t.balances, &swap), 420);
}

#[test]
fn currency_beyond_the_ledger_range_is_priced_as_the_largest_amount() {
    let mut t = new_test_ext();
    t.balances.make_free_balance_be(1, u128::MAX);
    assert_eq!(t.fungible.create_token(1, 42), Ok(0u64));
    assert_eq!(t.swaps.create_swap(&mut t.fungible, 1, 0), Ok(()));
    let deposit: u128 = (u64::MAX as u128) + 5;
    assert_eq!(
        t.swaps.add_liquidity(&mut t.fungible, &mut t.balances, NOW, 1, 0, deposit, 0, 42, 100),
        Ok(())
    );
    let swap = t.swaps.swaps(0).unwrap();
    // The whole deposit moved, but shares exist only up to the ledger's range.
    assert_eq!(t.balances.free_balance(swap.account), deposit);
    assert_eq!(t.fungible.balance_of((1, 1)), u64::MAX);
}

#[test]
fn refusal_of_the_currency_leaves_everything_alone() {
    let (mut t, swap) = seeded_pool();
    assert_eq!(t.fungible.mint(0, 2, 42), Ok(()));
    let ledger_events = t.fungible.events().len();
    let pool_events = t.swaps.events().len();

    // Account 6 has no currency to sell.
    assert_eq!(
        t.swaps.currency_to_tokens_input(&mut t.fungible, &mut t.balances, NOW, 6, 0, 300, 1, 100, 6),
        Err(Error::Currency(CurrencyError::InsufficientBalance))
    );
    assert_eq!(
        t.swaps.currency_to_tokens_output(
            &mut t.fungible,
            &mut t.balances,
            NOW,
            6,
            0,
            17,
            300,
            100,
            6
        ),
        Err(Error::Currency(CurrencyError::InsufficientBalance))
    );
    // Account 7 cannot hold any more currency.
    t.balances.make_free_balance_be(7, u128::MAX);
    assert_eq!(
        t.swaps.tokens_to_currency_input(&mut t.fungible, &mut t.balances, NOW, 2, 0, 20, 1, 100, 7),
        Err(Error::Currency(CurrencyError::Overflow))
    );
    assert_eq!(
        t.swaps.tokens_to_currency_output(
            &mut t.fungible,
            &mut t.balances,
            NOW,
            2,
            0,
            135,
            1000,
            100,
            7
        ),
        Err(Error::Currency(CurrencyError::Overflow))
    );
    assert_eq!(t.fungible.transfer(1, 1, 7, 100), Ok(()));
    assert_eq!(
        t.swaps.remove_liquidity(&mut t.fungible, &mut t.balances, NOW, 7, 0, 100, 1, 1, 100),
        Err(Error::Currency(CurrencyError::Overflow))
    );

    assert_eq!(t.fungible.balance_of((0, 2)), 42);
    assert_eq!(t.fungible.balance_of((0, 6)), 0);
    assert_eq!(t.fungible.balance_of((0, 7)), 0);
    assert_eq!(t.fungible.balance_of((1, 7)), 100);
    assert_eq!(t.fungible.balance_of((0, swap.account)), 42);
    assert_eq!(t.fungible.total_supply(1), 420);
    assert_eq!(t.balances.free_balance(swap.account), 420);
    assert_eq!(t.balances.free_balance(7), u128::MAX);
    assert_eq!(t.fungible.events().len(), ledger_events + 1);
    assert_eq!(t.swaps.events().len(), pool_events);
}
