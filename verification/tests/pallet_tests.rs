use pallet_dex::dex_math::{get_lp_tokens_for_existing_pool, get_lp_tokens_for_new_pool,
    get_swap_return};
use pallet_dex::ledger::Ledger;
use pallet_dex::{DispatchError, Error, Pallet};

const USER: u64 = 1;
const USER_2: u64 = 2;
const ASSET_A: u32 = 1;
const ASSET_B: u32 = 2;
const ASSET_A_AMOUNT: u128 = 1_000_000;
const ASSET_B_AMOUNT: u128 = 1_000_000;
const MINTED_AMOUNT: u128 = 1_000_000_000;

fn create_and_give_user_asset(ledger: &mut Ledger, user: u64, asset: u32, amount: u128) {
    ledger.create_asset(asset, user, 1).expect("Asset creation failed");
    ledger.mint(asset, user, amount).expect("Minting failed");
}

fn give_user_asset(ledger: &mut Ledger, user: u64, asset: u32, amount: u128) {
    ledger.mint(asset, user, amount).expect("Minting failed");
}

fn create_and_give_user_two_assets(
    ledger: &mut Ledger,
    user: u64,
    asset_pair: (u32, u32),
    amount: u128,
) {
    create_and_give_user_asset(ledger, user, asset_pair.0, amount);
    create_and_give_user_asset(ledger, user, asset_pair.1, amount);
}

fn give_user_two_assets(ledger: &mut Ledger, user: u64, asset_pair: (u32, u32), amount: u128) {
    give_user_asset(ledger, user, asset_pair.0, amount);
    give_user_asset(ledger, user, asset_pair.1, amount);
}

fn check_users_balance(ledger: &Ledger, user: u64, asset: u32, amount: u128) {
    let asset_balance = ledger.balance(asset, user);
    assert!(asset_balance == amount);
}

fn check_liquidity_taken(
    ledger: &Ledger,
    user: u64,
    asset_pair: (u32, u32),
    starting_balances: (u128, u128),
    asset_amounts: (u128, u128),
    starting_liquidity: (u128, u128),
) {
    check_users_balance(ledger, user, asset_pair.0, starting_balances.0 - asset_amounts.0);
    check_users_balance(ledger, user, asset_pair.1, starting_balances.1 - asset_amounts.1);
    let pool_id = Pallet::get_pool_id(asset_pair);
    check_users_balance(ledger, pool_id, asset_pair.0, starting_liquidity.0 + asset_amounts.0);
    check_users_balance(ledger, pool_id, asset_pair.1, starting_liquidity.1 + asset_amounts.1);
}

fn check_lp_tokens_sent_to_pool_creator(
    ledger: &Ledger,
    user: u64,
    asset_pair: (u32, u32),
    asset_amounts: (u128, u128),
) {
    let pool_id = Pallet::get_pool_id(asset_pair);
    let lp_token_id = Pallet::get_lp_token_id(&pool_id);
    let amount = get_lp_tokens_for_new_pool(asset_amounts.0, asset_amounts.1).unwrap();
    check_users_balance(ledger, user, lp_token_id, amount);
}

fn check_lp_tokens_sent_to_provider(
    ledger: &Ledger,
    user: u64,
    asset_pair: (u32, u32),
    new_token_amount: u128,
    current_token_amount: u128,
    total_lp_token_supply: u128,
) {
    let pool_id = Pallet::get_pool_id(asset_pair);
    let lp_token_id = Pallet::get_lp_token_id(&pool_id);
    let amount = get_lp_tokens_for_existing_pool(
        new_token_amount,
        current_token_amount,
        total_lp_token_supply,
    )
    .unwrap();
    check_users_balance(ledger, user, lp_token_id, amount);
}

fn create_liquidity_pool(
    ledger: &mut Ledger,
    user: u64,
    asset_pair: (u32, u32),
    asset_amounts: (u128, u128),
    user_initial_balance: u128,
) {
    create_and_give_user_two_assets(ledger, user, asset_pair, user_initial_balance);

    let result = Pallet::create_pool(
        ledger,
        user,
        asset_pair.0,
        asset_pair.1,
        asset_amounts.0,
        asset_amounts.0,
    );
    assert!(result.is_ok());
}

fn check_user_swap_executed(
    ledger: &Ledger,
    user: u64,
    asset_pair: (u32, u32),
    asset_a_amount: u128,
    liquidity_amounts: (u128, u128),
    user_original_balance: u128,
) {
    let expected_return = get_swap_return(asset_a_amount, liquidity_amounts).unwrap();

    check_users_balance(ledger, user, asset_pair.0, user_original_balance - asset_a_amount);
    check_users_balance(ledger, user, asset_pair.1, expected_return);
    let pool_id = Pallet::get_pool_id(asset_pair);
    check_users_balance(ledger, pool_id, asset_pair.0, liquidity_amounts.0 + asset_a_amount);
    check_users_balance(ledger, pool_id, asset_pair.1, liquidity_amounts.1 - expected_return);
}

fn check_lp_tokens_redeemed(
    ledger: &Ledger,
    user: u64,
    asset_pair: (u32, u32),
    lp_tokens_amount: u128,
) {
    check_users_balance(ledger, user, asset_pair.0, lp_tokens_amount);
    check_users_balance(ledger, user, asset_pair.1, lp_tokens_amount);

    let pool_id = Pallet::get_pool_id(asset_pair);
    let lp_token_id = Pallet::get_lp_token_id(&pool_id);

    check_users_balance(ledger, user, lp_token_id, 0);
    check_users_balance(ledger, pool_id, asset_pair.0, 0);
    check_users_balance(ledger, pool_id, asset_pair.1, 0);
    check_users_balance(ledger, pool_id, lp_token_id, 0);
}

#[test]
fn can_transfer_assets() {
    let mut ledger = Ledger::new();
    create_and_give_user_two_assets(&mut ledger, USER, (ASSET_A, ASSET_B), MINTED_AMOUNT);
    assert!(ledger.transfer(ASSET_A, USER, USER_2, ASSET_A_AMOUNT).is_ok());
}

#[test]
fn create_pool_without_any_tokens() {
    let mut ledger = Ledger::new();
    assert_eq!(
        Pallet::create_pool(&mut ledger, USER, ASSET_A, ASSET_B, ASSET_A_AMOUNT, ASSET_B_AMOUNT),
        Err(DispatchError::Module(Error::NotEnoughTokensForTransaction))
    );
}

#[test]
fn create_pool_without_first_token() {
    let mut ledger = Ledger::new();
    create_and_give_user_asset(&mut ledger, USER, ASSET_B, MINTED_AMOUNT);

    assert_eq!(
        Pallet::create_pool(&mut ledger, USER, ASSET_A, ASSET_B, ASSET_A_AMOUNT, ASSET_B_AMOUNT),
        Err(DispatchError::Module(Error::NotEnoughTokensForTransaction))
    );
}

#[test]
fn create_pool_without_second_token() {
    let mut ledger = Ledger::new();
    create_and_give_user_asset(&mut ledger, USER, ASSET_A, MINTED_AMOUNT);

    assert_eq!(
        Pallet::create_pool(&mut ledger, USER, ASSET_A, ASSET_B, ASSET_A_AMOUNT, ASSET_B_AMOUNT),
        Err(DispatchError::Module(Error::NotEnoughTokensForTransaction))
    );
}

#[test]
fn create_pool_same_asset_ids() {
    let mut ledger = Ledger::new();
    create_and_give_user_two_assets(&mut ledger, USER, (ASSET_A, ASSET_B), MINTED_AMOUNT);

    assert_eq!(
        Pallet::create_pool(&mut ledger, USER, ASSET_A, ASSET_A, ASSET_A_AMOUNT, ASSET_B_AMOUNT),
        Err(DispatchError::Module(Error::ProvidedInvalidAssetIds))
    );
}

#[test]
fn create_pool_with_enough_assets() {
    let mut ledger = Ledger::new();
    create_liquidity_pool(
        &mut ledger,
        USER,
        (ASSET_A, ASSET_B),
        (ASSET_A_AMOUNT, ASSET_B_AMOUNT),
        MINTED_AMOUNT,
    );
}

#[test]
fn create_pool_transfers_tokens() {
    let mut ledger = Ledger::new();
    create_liquidity_pool(
        &mut ledger,
        USER,
        (ASSET_A, ASSET_B),
        (ASSET_A_AMOUNT, ASSET_B_AMOUNT),
        MINTED_AMOUNT,
    );

    check_liquidity_taken(
        &ledger,
        USER,
        (ASSET_A, ASSET_B),
        (MINTED_AMOUNT, MINTED_AMOUNT),
        (ASSET_A_AMOUNT, ASSET_B_AMOUNT),
        (0, 0),
    );

    check_lp_tokens_sent_to_pool_creator(
        &ledger,
        USER,
        (ASSET_A, ASSET_B),
        (ASSET_A_AMOUNT, ASSET_B_AMOUNT),
    );
}

#[test]
fn provide_liquidity_without_any_token() {
    let mut ledger = Ledger::new();
    create_liquidity_pool(
        &mut ledger,
        USER,
        (ASSET_A, ASSET_B),
        (ASSET_A_AMOUNT, ASSET_B_AMOUNT),
        MINTED_AMOUNT,
    );

    assert_eq!(
        Pallet::provide_liquidity(&mut ledger, USER_2, ASSET_A, ASSET_B, ASSET_A_AMOUNT),
        Err(DispatchError::Module(Error::NotEnoughTokensForTransaction))
    );
}

#[test]
fn provide_liquidity_without_first_token() {
    let mut ledger = Ledger::new();
    create_liquidity_pool(
        &mut ledger,
        USER,
        (ASSET_A, ASSET_B),
        (ASSET_A_AMOUNT, ASSET_B_AMOUNT),
        MINTED_AMOUNT,
    );
    give_user_asset(&mut ledger, USER_2, ASSET_B, MINTED_AMOUNT);

    assert_eq!(
        Pallet::provide_liquidity(&mut ledger, USER_2, ASSET_A, ASSET_B, ASSET_A_AMOUNT),
        Err(DispatchError::Module(Error::NotEnoughTokensForTransaction))
    );
}

#[test]
fn provide_liquidity_without_second_token() {
    let mut ledger = Ledger::new();
    create_liquidity_pool(
        &mut ledger,
        USER,
        (ASSET_A, ASSET_B),
        (ASSET_A_AMOUNT, ASSET_B_AMOUNT),
        MINTED_AMOUNT,
    );
    give_user_asset(&mut ledger, USER_2, ASSET_A, MINTED_AMOUNT);

    assert_eq!(
        Pallet::provide_liquidity(&mut ledger, USER_2, ASSET_A, ASSET_B, ASSET_A_AMOUNT),
        Err(DispatchError::Module(Error::NotEnoughTokensForTransaction))
    );
}

#[test]
fn provide_liquidity_same_asset_ids() {
    let mut ledger = Ledger::new();
    create_liquidity_pool(
        &mut ledger,
        USER,
        (ASSET_A, ASSET_B),
        (ASSET_A_AMOUNT, ASSET_B_AMOUNT),
        MINTED_AMOUNT,
    );
    give_user_two_assets(&mut ledger, USER_2, (ASSET_A, ASSET_B), MINTED_AMOUNT);

    assert_eq!(
        Pallet::provide_liquidity(&mut ledger, USER_2, ASSET_A, ASSET_A, ASSET_A_AMOUNT),
        Err(DispatchError::Module(Error::ProvidedInvalidAssetIds))
    );
}

#[test]
fn provide_liquidity() {
    let mut ledger = Ledger::new();
    create_liquidity_pool(
        &mut ledger,
        USER,
        (ASSET_A, ASSET_B),
        (ASSET_A_AMOUNT, ASSET_B_AMOUNT),
        MINTED_AMOUNT,
    );
    give_user_two_assets(&mut ledger, USER_2, (ASSET_A, ASSET_B), MINTED_AMOUNT);

    assert!(
        Pallet::provide_liquidity(&mut ledger, USER_2, ASSET_A, ASSET_B, ASSET_A_AMOUNT).is_ok()
    );

    check_liquidity_taken(
        &ledger,
        USER_2,
        (ASSET_A, ASSET_B),
        (MINTED_AMOUNT, MINTED_AMOUNT),
        (ASSET_A_AMOUNT, ASSET_B_AMOUNT),
        (ASSET_A_AMOUNT, ASSET_B_AMOUNT),
    );

    check_lp_tokens_sent_to_provider(
        &ledger,
        USER_2,
        (ASSET_A, ASSET_B),
        ASSET_A_AMOUNT,
        ASSET_A_AMOUNT,
        ASSET_A_AMOUNT,
    );
}

#[test]
fn test_swap() {
    let mut ledger = Ledger::new();
    create_liquidity_pool(
        &mut ledger,
        USER,
        (ASSET_A, ASSET_B),
        (ASSET_A_AMOUNT, ASSET_B_AMOUNT),
        MINTED_AMOUNT,
    );
    give_user_asset(&mut ledger, USER_2, ASSET_A, MINTED_AMOUNT);

    assert!(Pallet::swap(&mut ledger, USER_2, ASSET_A, ASSET_B, ASSET_A_AMOUNT).is_ok());

    check_user_swap_executed(
        &ledger,
        USER_2,
        (ASSET_A, ASSET_B),
        ASSET_A_AMOUNT,
        (ASSET_A_AMOUNT, ASSET_B_AMOUNT),
        MINTED_AMOUNT,
    );
}

#[test]
fn test_redeem_lp_tokens_with_no_tokens() {
    let mut ledger = Ledger::new();
    create_liquidity_pool(
        &mut ledger,
        USER,
        (ASSET_A, ASSET_B),
        (ASSET_A_AMOUNT, ASSET_B_AMOUNT),
        MINTED_AMOUNT,
    );

    assert_eq!(
        Pallet::redeem_lp_tokens(&mut ledger, USER_2, ASSET_A, ASSET_B, ASSET_A_AMOUNT),
        Err(DispatchError::Module(Error::NotEnoughLPTokens))
    );
}

#[test]
fn test_redeem_lp_tokens() {
    let mut ledger = Ledger::new();
    create_liquidity_pool(
        &mut ledger,
        USER,
        (ASSET_A, ASSET_B),
        (ASSET_A_AMOUNT, ASSET_B_AMOUNT),
        ASSET_A_AMOUNT,
    );
    check_users_balance(&ledger, USER, ASSET_A, 0);

    assert!(Pallet::redeem_lp_tokens(&mut ledger, USER, ASSET_A, ASSET_B, ASSET_A_AMOUNT).is_ok());

    check_lp_tokens_redeemed(&ledger, USER, (ASSET_A, ASSET_B), ASSET_A_AMOUNT);
}
