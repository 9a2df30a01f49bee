use pallet_dex::dex_math::{get_lp_tokens_for_existing_pool, get_lp_tokens_for_new_pool};
use pallet_dex::ledger::Ledger;
use pallet_dex::{DispatchError, Error, Pallet};

const USER: u64 = 1;
const USER_2: u64 = 2;
const ASSET_A: u32 = 1;
const ASSET_B: u32 = 2;
const ASSET_A_AMOUNT: u128 = 1_000_000;
const ASSET_B_AMOUNT: u128 = 1_000_000;
const MINTED_AMOUNT: u128 = 1_000_000_000;

fn give_user_asset(ledger: &mut Ledger, user: u64, asset: u32, amount: u128) {
    ledger.create_asset(asset, user, 1).expect("Asset creation failed");
    ledger.mint(asset, user, amount).expect("Minting failed");
}

fn give_user_two_assets(ledger: &mut Ledger, user: u64, asset_pair: (u32, u32), amount: u128) {
    give_user_asset(ledger, user, asset_pair.0, amount);
    give_user_asset(ledger, user, asset_pair.1, amount);
}

fn check_users_balance(ledger: &Ledger, user: u64, asset: u32, amount: u128) {
    let asset_balance = ledger.balance(asset, user);
    assert!(asset_balance == amount);
}

fn check_liquidity_taken(
    ledger: &Ledger,
    user: u64,
    asset_pair: (u32, u32),
    starting_balances: (u128, u128),
    asset_amounts: (u128, u128),
) {
    check_users_balance(ledger, user, asset_pair.0, starting_balances.0 - asset_amounts.0);
    check_users_balance(ledger, user, asset_pair.1, starting_balances.1 - asset_amounts.1);
}

fn check_lp_tokens_sent_to_pool_creator(
    ledger: &Ledger,
    user: u64,
    asset_pair: (u32, u32),
    asset_amounts: (u128, u128),
) {
    let pool_id = Pallet::get_pool_id(asset_pair);
    let lp_token_id = Pallet::get_lp_token_id(&pool_id);
    let amount = get_lp_tokens_for_new_pool(asset_amounts.0, asset_amounts.1).unwrap();
    check_users_balance(ledger, user, lp_token_id, amount);
}

fn check_lp_tokens_sent_to_provider(
    ledger: &Ledger,
    user: u64,
    asset_pair: (u32, u32),
    new_token_amount: u128,
    current_token_amount: u128,
    total_lp_token_supply: u128,
) {
    let pool_id = Pallet::get_pool_id(asset_pair);
    let lp_token_id = Pallet::get_lp_token_id(&pool_id);
    let amount = get_lp_tokens_for_existing_pool(
        new_token_amount,
        current_token_amount,
        total_lp_token_supply,
    )
    .unwrap();
    check_users_balance(ledger, user, lp_token_id, amount);
}

#[test]
fn tests_create_pool_without_any_tokens() {
    let mut ledger = Ledger::new();
    assert_eq!(
        Pallet::create_pool(&mut ledger, USER, ASSET_A, ASSET_B, ASSET_A_AMOUNT, ASSET_B_AMOUNT),
        Err(DispatchError::Module(Error::NotEnoughTokensForTransaction))
    );
}

#[test]
fn tests_create_pool_without_first_token() {
    let mut ledger = Ledger::new();
    give_user_asset(&mut ledger, USER, ASSET_B, MINTED_AMOUNT);

    assert_eq!(
        Pallet::create_pool(&mut ledger, USER, ASSET_A, ASSET_B, ASSET_A_AMOUNT, ASSET_B_AMOUNT),
        Err(DispatchError::Module(Error::NotEnoughTokensForTransaction))
    );
}

#[test]
fn tests_create_pool_without_second_token() {
    let mut ledger = Ledger::new();
    give_user_asset(&mut ledger, USER, ASSET_A, MINTED_AMOUNT);

    assert_eq!(
        Pallet::create_pool(&mut ledger, USER, ASSET_A, ASSET_B, ASSET_A_AMOUNT, ASSET_B_AMOUNT),
        Err(DispatchError::Module(Error::NotEnoughTokensForTransaction))
    );
}

#[test]
fn tests_create_pool_same_asset_ids() {
    let mut ledger = Ledger::new();
    give_user_two_assets(&mut ledger, USER, (ASSET_A, ASSET_B), MINTED_AMOUNT);

    assert_eq!(
        Pallet::create_pool(&mut ledger, USER, ASSET_A, ASSET_A, ASSET_A_AMOUNT, ASSET_B_AMOUNT),
        Err(DispatchError::Module(Error::ProvidedInvalidAssetIds))
    );
}

#[test]
fn tests_create_pool_with_enough_assets() {
    let mut ledger = Ledger::new();
    give_user_two_assets(&mut ledger, USER, (ASSET_A, ASSET_B), MINTED_AMOUNT);

    assert!(
        Pallet::create_pool(&mut ledger, USER, ASSET_A, ASSET_B, ASSET_A_AMOUNT, ASSET_B_AMOUNT)
            .is_ok()
    );
}

#[test]
fn tests_can_transfer_assets() {
    let mut ledger = Ledger::new();
    give_user_two_assets(&mut ledger, USER, (ASSET_A, ASSET_B), MINTED_AMOUNT);
    assert!(ledger.transfer(ASSET_A, USER, USER_2, ASSET_A_AMOUNT).is_ok());
}

#[test]
fn tests_create_pool_transfers_tokens() {
    let mut ledger = Ledger::new();
    give_user_two_assets(&mut ledger, USER, (ASSET_A, ASSET_B), MINTED_AMOUNT);

    assert!(
        Pallet::create_pool(&mut ledger, USER, ASSET_A, ASSET_B, ASSET_A_AMOUNT, ASSET_B_AMOUNT)
            .is_ok()
    );

    check_liquidity_taken(
        &ledger,
        USER,
        (ASSET_A, ASSET_B),
        (MINTED_AMOUNT, MINTED_AMOUNT),
        (ASSET_A_AMOUNT, ASSET_B_AMOUNT),
    );

    check_lp_tokens_sent_to_pool_creator(
        &ledger,
        USER,
        (ASSET_A, ASSET_B),
        (ASSET_A_AMOUNT, ASSET_B_AMOUNT),
    );
}

#[test]
fn tests_provide_liquidity() {
    let mut ledger = Ledger::new();
    give_user_two_assets(&mut ledger, USER, (ASSET_A, ASSET_B), MINTED_AMOUNT);

    assert!(
        Pallet::create_pool(&mut ledger, USER, ASSET_A, ASSET_B, ASSET_A_AMOUNT, ASSET_B_AMOUNT)
            .is_ok()
    );

    // the engine validates the contributor's balances, so the second
    // provider is funded before contributing
    ledger.mint(ASSET_A, USER_2, MINTED_AMOUNT).expect("Minting failed");
    ledger.mint(ASSET_B, USER_2, MINTED_AMOUNT).expect("Minting failed");

    assert!(
        Pallet::provide_liquidity(&mut ledger, USER_2, ASSET_A, ASSET_B, ASSET_A_AMOUNT).is_ok()
    );

    check_liquidity_taken(
        &ledger,
        USER_2,
        (ASSET_A, ASSET_B),
        (MINTED_AMOUNT, MINTED_AMOUNT),
        (ASSET_A_AMOUNT, ASSET_B_AMOUNT),
    );

    check_lp_tokens_sent_to_provider(
        &ledger,
        USER_2,
        (ASSET_A, ASSET_B),
        ASSET_A_AMOUNT,
        ASSET_A_AMOUNT,
        ASSET_A_AMOUNT,
    );
}
