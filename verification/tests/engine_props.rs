use pallet_dex::dex_math::{get_swap_return, get_token_b_amount};
use pallet_dex::ledger::{Ledger, LedgerError};
use pallet_dex::{DispatchError, Error, Event, Pallet};

const USER: u64 = 1;
const USER_2: u64 = 2;
const ASSET_A: u32 = 1;
const ASSET_B: u32 = 2;

fn funded_ledger(user: u64, amount: u128) -> Ledger {
    let mut ledger = Ledger::new();
    ledger.create_asset(ASSET_A, user, 1).expect("Asset creation failed");
    ledger.create_asset(ASSET_B, user, 1).expect("Asset creation failed");
    ledger.mint(ASSET_A, user, amount).expect("Minting failed");
    ledger.mint(ASSET_B, user, amount).expect("Minting failed");
    ledger
}

#[test]
fn pool_id_is_symmetric_in_the_pair() {
    // both orders of the same two assets resolve to the same pool
    assert_eq!(Pallet::get_pool_id((ASSET_A, ASSET_B)), Pallet::get_pool_id((ASSET_B, ASSET_A)));
    assert_eq!(Pallet::get_pool_id((7, 99)), Pallet::get_pool_id((99, 7)));
    assert_eq!(
        Pallet::get_pool_id((0, u32::MAX)),
        Pallet::get_pool_id((u32::MAX, 0))
    );
}

#[test]
fn pool_id_is_deterministic_and_hashed() {
    let first = Pallet::get_pool_id((ASSET_A, ASSET_B));
    let second = Pallet::get_pool_id((ASSET_A, ASSET_B));
    assert_eq!(first, second);

    // the id is a digest of the canonical pair's bytes, not the bytes
    // themselves read back as an integer
    let undigested: u64 = (ASSET_A as u64) | ((ASSET_B as u64) << 32);
    assert_ne!(first, undigested);

    // distinct pairs land on distinct pools
    assert_ne!(first, Pallet::get_pool_id((ASSET_A, 3)));
}

#[test]
fn lp_token_id_is_hashed_from_the_pool_id() {
    let pool_id = Pallet::get_pool_id((ASSET_A, ASSET_B));
    let lp_token = Pallet::get_lp_token_id(&pool_id);
    assert_eq!(lp_token, Pallet::get_lp_token_id(&pool_id));

    // a truncation of the pool id itself would not be a digest
    assert_ne!(lp_token, (pool_id & 0xffff_ffff) as u32);
}

#[test]
fn create_pool_returns_pool_created_event() {
    let mut ledger = funded_ledger(USER, 1_000_000);
    let event = Pallet::create_pool(&mut ledger, USER, ASSET_A, ASSET_B, 50_000, 20_000).unwrap();
    assert_eq!(
        event,
        Event::NewPoolCreated { pool_id: Pallet::get_pool_id((ASSET_A, ASSET_B)) }
    );
}

#[test]
fn create_pool_twice_fails_with_existing_lp_asset() {
    let mut ledger = funded_ledger(USER, 1_000_000);
    assert!(Pallet::create_pool(&mut ledger, USER, ASSET_A, ASSET_B, 1_000, 1_000).is_ok());
    let balance_before = ledger.balance(ASSET_A, USER);
    assert_eq!(
        Pallet::create_pool(&mut ledger, USER, ASSET_A, ASSET_B, 1_000, 1_000),
        Err(DispatchError::Ledger(LedgerError::AssetAlreadyExists))
    );
    // the failed second call moved nothing
    assert_eq!(ledger.balance(ASSET_A, USER), balance_before);
}

#[test]
fn create_pool_same_ids_fails_for_any_amounts() {
    // the invalid-pair error does not depend on the amounts
    let mut ledger = funded_ledger(USER, u128::MAX);
    for amounts in [(0u128, 0u128), (1, 1), (u128::MAX, u128::MAX)] {
        assert_eq!(
            Pallet::create_pool(&mut ledger, USER, ASSET_A, ASSET_A, amounts.0, amounts.1),
            Err(DispatchError::Module(Error::ProvidedInvalidAssetIds))
        );
    }
}

#[test]
fn create_pool_overflowing_mint_fails_and_moves_nothing() {
    let mut ledger = funded_ledger(USER, u128::MAX);
    assert_eq!(
        Pallet::create_pool(&mut ledger, USER, ASSET_A, ASSET_B, u128::MAX, u128::MAX),
        Err(DispatchError::Module(Error::MathOverflow))
    );
    assert_eq!(ledger.balance(ASSET_A, USER), u128::MAX);
    assert_eq!(ledger.balance(ASSET_B, USER), u128::MAX);
}

#[test]
fn swap_returns_event_with_priced_output() {
    let mut ledger = funded_ledger(USER, 10_000_000);
    assert!(Pallet::create_pool(&mut ledger, USER, ASSET_A, ASSET_B, 50, 100).is_ok());
    let event = Pallet::swap(&mut ledger, USER, ASSET_A, ASSET_B, 50).unwrap();
    assert_eq!(
        event,
        Event::TokensSwapped {
            pool_id: Pallet::get_pool_id((ASSET_A, ASSET_B)),
            asset_received: ASSET_B,
            swap_return: 45,
        }
    );
}

#[test]
fn full_lifecycle_round_trip_restores_creator_balances() {
    // create a pool, redeem the entire LP supply: the creator ends where
    // they started, and the pool is empty but still usable
    let mut ledger = funded_ledger(USER, 1_000_000);
    assert!(Pallet::create_pool(&mut ledger, USER, ASSET_A, ASSET_B, 7_000, 13_000).is_ok());

    let pool_id = Pallet::get_pool_id((ASSET_A, ASSET_B));
    let lp_token = Pallet::get_lp_token_id(&pool_id);
    let lp_supply = ledger.total_supply(lp_token);
    // floor(sqrt(7_000 * 13_000))
    assert_eq!(lp_supply, 9_539);

    let event = Pallet::redeem_lp_tokens(&mut ledger, USER, ASSET_A, ASSET_B, lp_supply).unwrap();
    assert_eq!(
        event,
        Event::LiquidityRedeemed {
            pool_id,
            asset_pair: (ASSET_A, ASSET_B),
            redeemed_token_amounts: (7_000, 13_000),
        }
    );
    assert_eq!(ledger.balance(ASSET_A, USER), 1_000_000);
    assert_eq!(ledger.balance(ASSET_B, USER), 1_000_000);
    assert_eq!(ledger.balance(lp_token, USER), 0);
    assert_eq!(ledger.total_supply(lp_token), 0);
}

#[test]
fn provide_liquidity_returns_event_with_earned_tokens() {
    let mut ledger = funded_ledger(USER, 1_000_000);
    assert!(Pallet::create_pool(&mut ledger, USER, ASSET_A, ASSET_B, 100_000, 100_000).is_ok());

    ledger.mint(ASSET_A, USER_2, 1_000_000).expect("Minting failed");
    ledger.mint(ASSET_B, USER_2, 1_000_000).expect("Minting failed");

    let event =
        Pallet::provide_liquidity(&mut ledger, USER_2, ASSET_A, ASSET_B, 50_000).unwrap();
    // deposit of half the first reserve earns half the LP supply
    assert_eq!(
        event,
        Event::LiquidityProvided {
            pool_id: Pallet::get_pool_id((ASSET_A, ASSET_B)),
            lp_token_id: Pallet::get_lp_token_id(&Pallet::get_pool_id((ASSET_A, ASSET_B))),
            earned_lp_tokens: 50_000,
        }
    );
}

#[test]
fn swap_with_insufficient_balance_moves_nothing() {
    let mut ledger = funded_ledger(USER, 1_000_000);
    assert!(Pallet::create_pool(&mut ledger, USER, ASSET_A, ASSET_B, 500_000, 500_000).is_ok());

    let pool_id = Pallet::get_pool_id((ASSET_A, ASSET_B));
    assert_eq!(
        Pallet::swap(&mut ledger, USER_2, ASSET_A, ASSET_B, 1_000),
        Err(DispatchError::Module(Error::NotEnoughTokensForTransaction))
    );
    assert_eq!(ledger.balance(ASSET_A, pool_id), 500_000);
    assert_eq!(ledger.balance(ASSET_B, pool_id), 500_000);
    assert_eq!(ledger.balance(ASSET_B, USER_2), 0);
}

#[test]
fn derive_second_amount_keeps_reserve_ratio() {
    // a deposit against a 2:1 pool owes half of itself in the second asset
    assert_eq!(get_token_b_amount(50, (100, 50)).unwrap(), 25);
    // an empty pool is zero-guarded: the ratio degrades to one-to-one
    assert_eq!(get_token_b_amount(5, (0, 0)).unwrap(), 5);
}

#[test]
fn swap_pricing_applies_retained_fee() {
    // ideal decrease 50, of which 10% stays in the pool
    assert_eq!(get_swap_return(50, (50, 100)).unwrap(), 45);
    // an empty output reserve pays nothing
    assert_eq!(get_swap_return(10, (0, 0)).unwrap(), 0);
}

#[test]
fn provide_liquidity_to_missing_pool_moves_nothing() {
    // the pair's LP token asset was never created, so the deposit is
    // rejected before any transfer happens
    let mut ledger = funded_ledger(USER, 1_000_000);
    assert_eq!(
        Pallet::provide_liquidity(&mut ledger, USER, ASSET_A, ASSET_B, 1_000),
        Err(DispatchError::Ledger(LedgerError::UnknownAsset))
    );
    assert_eq!(ledger.balance(ASSET_A, USER), 1_000_000);
    assert_eq!(ledger.balance(ASSET_B, USER), 1_000_000);
}

#[test]
fn ledger_mint_and_burn_track_supply() {
    let mut ledger = Ledger::new();
    assert_eq!(ledger.mint(ASSET_A, USER, 10), Err(LedgerError::UnknownAsset));

    ledger.create_asset(ASSET_A, USER, 1).expect("Asset creation failed");
    assert_eq!(ledger.create_asset(ASSET_A, USER, 1), Err(LedgerError::AssetAlreadyExists));

    ledger.mint(ASSET_A, USER, 10).expect("Minting failed");
    assert_eq!(ledger.total_supply(ASSET_A), 10);
    assert_eq!(ledger.mint(ASSET_A, USER, u128::MAX), Err(LedgerError::Overflow));

    assert_eq!(ledger.burn(ASSET_A, USER, 11), Err(LedgerError::InsufficientBalance));
    ledger.burn(ASSET_A, USER, 4).expect("Burning failed");
    assert_eq!(ledger.total_supply(ASSET_A), 6);
    assert_eq!(ledger.balance(ASSET_A, USER), 6);
}

#[test]
fn ledger_transfer_requires_funds() {
    let mut ledger = Ledger::new();
    ledger.create_asset(ASSET_A, USER, 1).expect("Asset creation failed");
    ledger.mint(ASSET_A, USER, 100).expect("Minting failed");

    assert_eq!(
        ledger.transfer(ASSET_A, USER_2, USER, 1),
        Err(LedgerError::InsufficientBalance)
    );
    assert!(ledger.transfer(ASSET_A, USER, USER_2, 60).is_ok());
    assert_eq!(ledger.balance(ASSET_A, USER), 40);
    assert_eq!(ledger.balance(ASSET_A, USER_2), 60);
}
