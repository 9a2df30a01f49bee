use pallet_dex::dex_math::{get_lp_tokens_for_existing_pool, get_lp_tokens_for_new_pool,
    get_redeemed_token_balance, get_swap_return, get_token_b_amount};
use pallet_dex::Error;

#[test]
fn test_get_lp_tokens_for_new_pool() {
    let expected_return = get_lp_tokens_for_new_pool(50, 50).unwrap();
    assert_eq!(expected_return, 50);

    let expected_return = get_lp_tokens_for_new_pool(25, 4).unwrap();
    assert_eq!(expected_return, 10);
}

#[test]
fn test_get_lp_tokens_for_existing_pool() {
    let expected_return = get_lp_tokens_for_existing_pool(50, 50, 50).unwrap();
    assert_eq!(expected_return, 50);

    let expected_return = get_lp_tokens_for_existing_pool(50, 100, 50).unwrap();
    assert_eq!(expected_return, 25);
}

#[test]
fn test_get_token_b_amount() {
    let expected_return = get_token_b_amount(50, (100, 50)).unwrap();
    assert_eq!(expected_return, 25);

    let expected_return = get_token_b_amount(50, (50, 100)).unwrap();
    assert_eq!(expected_return, 100);
}

#[test]
fn test_get_swap_return() {
    let expected_return = get_swap_return(50, (50, 100)).unwrap();
    assert_eq!(expected_return, 45);

    let expected_return = get_swap_return(50, (100, 50)).unwrap();
    assert_eq!(expected_return, 15);
}

#[test]
fn test_get_redeemed_token_balance() {
    let expected_return = get_redeemed_token_balance(50, 100, (100, 50)).unwrap();
    assert_eq!(expected_return, (50, 25));

    let expected_return = get_redeemed_token_balance(50, 50, (100, 50)).unwrap();
    assert_eq!(expected_return, (100, 50));

    let expected_return = get_redeemed_token_balance(0, 50, (100, 50)).unwrap();
    assert_eq!(expected_return, (0, 0));
}

#[test]
fn initial_lp_mint_is_floor_sqrt_of_product() {
    // floor(sqrt(2 * 4)) = 2; floor(sqrt(7 * 7)) = 7; floor(sqrt(8 * 6)) = 6
    assert_eq!(get_lp_tokens_for_new_pool(2, 4).unwrap(), 2);
    assert_eq!(get_lp_tokens_for_new_pool(7, 7).unwrap(), 7);
    assert_eq!(get_lp_tokens_for_new_pool(8, 6).unwrap(), 6);
    assert_eq!(get_lp_tokens_for_new_pool(0, 123).unwrap(), 0);
    // the product of the two largest amounts does not fit in 128 bits
    assert_eq!(get_lp_tokens_for_new_pool(u128::MAX, 2), None);
}

#[test]
fn swap_return_strictly_grows_reserve_product() {
    // the monotonic-k property on concrete reserves: the realized product
    // after a fee-bearing swap strictly exceeds the one before
    let reserve_in: u128 = 50;
    let reserve_out: u128 = 100;
    let amount_in: u128 = 50;
    let out = get_swap_return(amount_in, (reserve_in, reserve_out)).unwrap();
    assert_eq!(out, 45);
    assert!((reserve_in + amount_in) * (reserve_out - out) > reserve_in * reserve_out);

    let reserve_in: u128 = 1_000_000;
    let reserve_out: u128 = 3_000_000;
    let amount_in: u128 = 777;
    let out = get_swap_return(amount_in, (reserve_in, reserve_out)).unwrap();
    assert!((reserve_in + amount_in) * (reserve_out - out) > reserve_in * reserve_out);
}

#[test]
fn swap_return_overflows_on_huge_reserves() {
    assert_eq!(
        get_swap_return(1, (u128::MAX, u128::MAX)),
        Err(Error::MathOverflow)
    );
}

#[test]
fn full_redemption_returns_full_reserves() {
    // redeeming the entire LP supply of a pool that saw no swaps returns
    // exactly the deposited reserves
    let expected_return = get_redeemed_token_balance(1_000_000, 1_000_000, (1_000_000, 1_000_000));
    assert_eq!(expected_return.unwrap(), (1_000_000, 1_000_000));

    let expected_return = get_redeemed_token_balance(25, 25, (7, 13));
    assert_eq!(expected_return.unwrap(), (7, 13));
}

#[test]
fn redemption_on_empty_pool_degrades_to_zero() {
    // zero supply and zero reserves are guarded as divisor 1, so the
    // redemption degrades to zero output instead of failing
    let expected_return = get_redeemed_token_balance(0, 0, (0, 0));
    assert_eq!(expected_return.unwrap(), (0, 0));
}
