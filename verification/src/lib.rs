//! An automated-market-maker accounting engine for two-asset liquidity
//! pools: constant-product swap pricing, proportional liquidity-provider
//! token accounting, and deterministic pool identity derivation, over
//! checked 128-bit integer arithmetic.

pub mod dex_math;
pub mod impl_create_pool;
pub mod impl_liquidity;
pub mod impl_lp_redemption;
pub mod impl_provide_liquidity;
pub mod impl_swap;
pub mod ledger;

use vstd::prelude::*;

verus! {

/// The engine itself. It holds no state of its own: pool reserves and LP
/// token supplies are a view over ledger balances, read on demand.
pub struct Pallet;

/// Domain events returned by the four public operations on success, for
/// an outside notification layer to consume.
#[derive(Clone, Copy, Debug, PartialEq, Eq)]
pub enum Event {
    /// A new liquidity pool has been successfully created
    NewPoolCreated { pool_id: u64 },
    /// Liquidity has been successfully added to the pool
    LiquidityProvided { pool_id: u64, lp_token_id: u32, earned_lp_tokens: u128 },
    /// Tokens have been successfully swapped
    TokensSwapped { pool_id: u64, asset_received: u32, swap_return: u128 },
    /// LP tokens have been successfully redeemed
    /// to acquire assets back from the pool
    LiquidityRedeemed {
        pool_id: u64,
        asset_pair: (u32, u32),
        redeemed_token_amounts: (u128, u128),
    },
}

/// A failure of a whole operation: either one of the engine's own typed
/// errors, or an error the ledger reported, propagated unchanged.
#[derive(Clone, Copy, Debug, PartialEq, Eq, Structural)]
pub enum DispatchError {
    Module(Error),
    Ledger(ledger::LedgerError),
}

impl Pallet {
    /// Create a new DEX pool for a given asset pair: validates the pair
    /// and the sender's balances, moves both deposits to the pool
    /// account, creates the pool's LP token asset, and mints the initial
    /// LP claim - the floor square root of the deposits' product - to the
    /// sender. On any failure the ledger is left unchanged and the first
    /// failing step's error is returned.
    pub fn create_pool(
        ledger: &mut ledger::Ledger,
        sender: u64,
        asset_a: u32,
        asset_b: u32,
        asset_a_amount: u128,
        asset_b_amount: u128,
    ) -> (r: Result<Event, DispatchError>)
        requires
            old(ledger).well_formed(),
        ensures
            final(ledger).well_formed(),
            r is Err ==> *final(ledger) == *old(ledger),
            asset_a == asset_b ==> r == Err::<Event, DispatchError>(
                DispatchError::Module(Error::ProvidedInvalidAssetIds),
            ),
            asset_a != asset_b && (old(ledger).balance_of(asset_a, sender) < asset_a_amount || old(ledger).balance_of(asset_b, sender) < asset_b_amount) ==> r == Err::<Event, DispatchError>(
                DispatchError::Module(Error::NotEnoughTokensForTransaction),
            ),
            r is Ok <==> (asset_a != asset_b && !impl_create_pool::lp_token_collides(
                (asset_a, asset_b),
            ) && impl_create_pool::create_pool_ledger_ok(
                *old(ledger),
                sender,
                (asset_a, asset_b),
                (asset_a_amount, asset_b_amount),
            )),
            asset_a != asset_b && old(ledger).balance_of(asset_a, sender) >= asset_a_amount && old(
                ledger,
            ).balance_of(asset_b, sender) >= asset_b_amount && impl_create_pool::lp_token_collides(
                (asset_a, asset_b),
            ) ==> r == Err::<Event, DispatchError>(
                DispatchError::Module(Error::ProvidedInvalidAssetIds),
            ),
            asset_a != asset_b && !impl_create_pool::lp_token_collides((asset_a, asset_b)) && old(
                ledger,
            ).balance_of(asset_a, sender) >= asset_a_amount && old(ledger).balance_of(
                asset_b,
                sender,
            ) >= asset_b_amount && !(old(ledger).can_transfer(
                asset_a,
                sender,
                pool_of(asset_a, asset_b),
                asset_a_amount,
            ) && old(ledger).can_transfer(
                asset_b,
                sender,
                pool_of(asset_a, asset_b),
                asset_b_amount,
            )) ==> r == Err::<Event, DispatchError>(
                DispatchError::Ledger(ledger::LedgerError::Overflow),
            ),
            asset_a != asset_b && !impl_create_pool::lp_token_collides((asset_a, asset_b)) && old(
                ledger,
            ).can_transfer(asset_a, sender, pool_of(asset_a, asset_b), asset_a_amount) && old(
                ledger,
            ).can_transfer(asset_b, sender, pool_of(asset_a, asset_b), asset_b_amount)
                && asset_a_amount * asset_b_amount > u128::MAX ==> r == Err::<
                Event,
                DispatchError,
            >(DispatchError::Module(Error::MathOverflow)),
            asset_a != asset_b && !impl_create_pool::lp_token_collides((asset_a, asset_b)) && old(
                ledger,
            ).can_transfer(asset_a, sender, pool_of(asset_a, asset_b), asset_a_amount) && old(
                ledger,
            ).can_transfer(asset_b, sender, pool_of(asset_a, asset_b), asset_b_amount)
                && asset_a_amount * asset_b_amount <= u128::MAX && old(ledger).asset_exists(
                lp_of(asset_a, asset_b),
            ) ==> r == Err::<Event, DispatchError>(
                DispatchError::Ledger(ledger::LedgerError::AssetAlreadyExists),
            ),
            r matches Ok(ev) ==> ev == (Event::NewPoolCreated {
                pool_id: pool_of(asset_a, asset_b),
            }),
            r is Ok && sender != pool_of(asset_a, asset_b) ==> final(ledger).balance_of(asset_a, sender) == old(ledger).balance_of(asset_a, sender)
                - asset_a_amount && final(ledger).balance_of(asset_b, sender) == old(ledger).balance_of(asset_b, sender) - asset_b_amount && final(ledger).balance_of(
                asset_a,
                pool_of(asset_a, asset_b),
            ) == old(ledger).balance_of(asset_a, pool_of(asset_a, asset_b))
                + asset_a_amount && final(ledger).balance_of(
                asset_b,
                pool_of(asset_a, asset_b),
            ) == old(ledger).balance_of(asset_b, pool_of(asset_a, asset_b))
                + asset_b_amount,
            r is Ok ==> final(ledger).asset_exists(
                lp_of(asset_a, asset_b),
            ) && final(ledger).supply_of(
                lp_of(asset_a, asset_b),
            ) == dex_math::floor_sqrt(asset_a_amount * asset_b_amount) && final(ledger).balance_of(
                lp_of(asset_a, asset_b),
                sender,
            ) == dex_math::floor_sqrt(asset_a_amount * asset_b_amount),
            forall|a: u32|
                a != lp_of(asset_a, asset_b) ==> (#[trigger] final(ledger).supply_of(a)) == old(ledger).supply_of(a) && (
                #[trigger] final(ledger).asset_exists(a)) == old(ledger).asset_exists(a),
            forall|a: u32, c: u64|
                !((a == asset_a || a == asset_b) && (c == sender || c
                    == pool_of(asset_a, asset_b))) && !(a
                    == lp_of(asset_a, asset_b) && c == sender) ==> (#[trigger] final(ledger).balance_of(a, c)) == old(ledger).balance_of(a, c),
    {
        // Check the user is able to make the required deposit
        match Self::check_deposit_is_valid(
            ledger,
            &sender,
            (asset_a, asset_b),
            (asset_a_amount, asset_b_amount),
        ) {
            Ok(()) => {},
            Err(e) => { return Err(e) },
        }

        // Create the new liquidity pool
        Self::create_new_pool(ledger, &sender, (asset_a, asset_b), (asset_a_amount, asset_b_amount))
    }

    /// Swap `asset_a_amount` of `asset_a` for `asset_b` against the
    /// pair's pool, at the constant-product price less the protocol fee.
    /// The pool must already exist and have liquidity available. On any
    /// failure the ledger is left unchanged.
    pub fn swap(
        ledger: &mut ledger::Ledger,
        sender: u64,
        asset_a: u32,
        asset_b: u32,
        asset_a_amount: u128,
    ) -> (r: Result<Event, DispatchError>)
        requires
            old(ledger).well_formed(),
        ensures
            final(ledger).well_formed(),
            r is Err ==> *final(ledger) == *old(ledger),
            asset_a == asset_b ==> r == Err::<Event, DispatchError>(
                DispatchError::Module(Error::ProvidedInvalidAssetIds),
            ),
            asset_a != asset_b && old(ledger).balance_of(asset_a, sender) < asset_a_amount ==> r
                == Err::<Event, DispatchError>(
                DispatchError::Module(Error::NotEnoughTokensForTransaction),
            ),
            r is Ok <==> (asset_a != asset_b && (swap_value(
                *old(ledger),
                asset_a,
                asset_b,
                asset_a_amount,
            ) matches Some(v) && old(ledger).can_transfer(
                asset_a,
                sender,
                pool_of(asset_a, asset_b),
                asset_a_amount,
            ) && old(ledger).can_transfer(
                asset_b,
                pool_of(asset_a, asset_b),
                sender,
                v,
            ))),
            asset_a != asset_b && old(ledger).balance_of(asset_a, sender) >= asset_a_amount
                && swap_value(*old(ledger), asset_a, asset_b, asset_a_amount) is None ==> r
                == Err::<Event, DispatchError>(DispatchError::Module(Error::MathOverflow)),
            asset_a != asset_b && old(ledger).balance_of(asset_a, sender) >= asset_a_amount
                && swap_value(*old(ledger), asset_a, asset_b, asset_a_amount) is Some && r is Err
                ==> r == Err::<Event, DispatchError>(
                DispatchError::Ledger(ledger::LedgerError::Overflow),
            ),
            r matches Ok(ev) ==> (swap_value(*old(ledger), asset_a, asset_b, asset_a_amount) matches Some(v)
                && ev == (Event::TokensSwapped {
                pool_id: pool_of(asset_a, asset_b),
                asset_received: asset_b,
                swap_return: v,
            })),
            r is Ok && sender == pool_of(asset_a, asset_b) ==> *final(ledger) == *old(ledger),
            r is Ok && sender != pool_of(asset_a, asset_b) ==> final(ledger).balance_of(asset_a, sender) == old(ledger).balance_of(asset_a, sender)
                - asset_a_amount && final(ledger).balance_of(
                asset_a,
                pool_of(asset_a, asset_b),
            ) == old(ledger).balance_of(asset_a, pool_of(asset_a, asset_b))
                + asset_a_amount && final(ledger).balance_of(
                asset_b,
                pool_of(asset_a, asset_b),
            ) == old(ledger).balance_of(asset_b, pool_of(asset_a, asset_b))
                - swap_value(*old(ledger), asset_a, asset_b, asset_a_amount).unwrap() && final(ledger).balance_of(asset_b, sender) == old(ledger).balance_of(asset_b, sender) + swap_value(
                *old(ledger),
                asset_a,
                asset_b,
                asset_a_amount,
            ).unwrap(),
            forall|a: u32, c: u64|
                !((a == asset_a || a == asset_b) && (c == sender || c
                    == pool_of(asset_a, asset_b))) ==> (#[trigger] final(ledger).balance_of(a, c)) == old(ledger).balance_of(a, c),
            forall|a: u32|
                (#[trigger] final(ledger).asset_exists(a)) == old(ledger).asset_exists(a),
            forall|a: u32| (#[trigger] final(ledger).supply_of(a)) == old(ledger).supply_of(a),
    {
        // Check the user is able to make the swap
        match Self::check_deposit_is_valid(ledger, &sender, (asset_a, asset_b), (asset_a_amount, 0))
        {
            Ok(()) => {},
            Err(e) => { return Err(e) },
        }

        // Handle the swap
        Self::process_swap(ledger, &sender, (asset_a, asset_b), asset_a_amount)
    }

    /// Provide further liquidity to an already existing pool: derives the
    /// matching amount of the second asset from the pool's current
    /// reserve ratio, validates the pair and the sender's balances, moves
    /// both deposits to the pool, and mints the proportional LP claim -
    /// computed against the pre-deposit first reserve and the pre-mint LP
    /// supply - to the sender. On any failure the ledger is left
    /// unchanged.
    pub fn provide_liquidity(
        ledger: &mut ledger::Ledger,
        sender: u64,
        asset_a: u32,
        asset_b: u32,
        asset_a_amount: u128,
    ) -> (r: Result<Event, DispatchError>)
        requires
            old(ledger).well_formed(),
        ensures
            final(ledger).well_formed(),
            r is Err ==> *final(ledger) == *old(ledger),
            derived_second_amount(*old(ledger), asset_a, asset_b, asset_a_amount) is None ==> r
                == Err::<Event, DispatchError>(DispatchError::Module(Error::MathOverflow)),
            derived_second_amount(*old(ledger), asset_a, asset_b, asset_a_amount) is Some
                && asset_a == asset_b ==> r == Err::<Event, DispatchError>(
                DispatchError::Module(Error::ProvidedInvalidAssetIds),
            ),
            (derived_second_amount(*old(ledger), asset_a, asset_b, asset_a_amount) matches Some(
                asset_b_amount,
            ) && asset_a != asset_b && (old(ledger).balance_of(asset_a, sender) < asset_a_amount
                || old(ledger).balance_of(asset_b, sender) < asset_b_amount)) ==> r == Err::<
                Event,
                DispatchError,
            >(DispatchError::Module(Error::NotEnoughTokensForTransaction)),
            r is Ok <==> (asset_a != asset_b && !impl_create_pool::lp_token_collides(
                (asset_a, asset_b),
            ) && (derived_second_amount(*old(ledger), asset_a, asset_b, asset_a_amount)
                matches Some(asset_b_amount) && old(ledger).can_transfer(
                asset_a,
                sender,
                pool_of(asset_a, asset_b),
                asset_a_amount,
            ) && old(ledger).can_transfer(
                asset_b,
                sender,
                pool_of(asset_a, asset_b),
                asset_b_amount,
            ) && (provide_mint_value(*old(ledger), asset_a, asset_b, asset_a_amount) matches Some(
                m,
            ) && old(ledger).can_mint(
                lp_of(asset_a, asset_b),
                sender,
                m,
            )))),
            (derived_second_amount(*old(ledger), asset_a, asset_b, asset_a_amount) matches Some(
                asset_b_amount,
            ) && asset_a != asset_b && old(ledger).balance_of(asset_a, sender) >= asset_a_amount
                && old(ledger).balance_of(asset_b, sender) >= asset_b_amount
                && impl_create_pool::lp_token_collides((asset_a, asset_b))) ==> r == Err::<
                Event,
                DispatchError,
            >(DispatchError::Module(Error::ProvidedInvalidAssetIds)),
            (derived_second_amount(*old(ledger), asset_a, asset_b, asset_a_amount) matches Some(
                asset_b_amount,
            ) && asset_a != asset_b && !impl_create_pool::lp_token_collides((asset_a, asset_b))
                && old(ledger).balance_of(asset_a, sender) >= asset_a_amount && old(
                ledger,
            ).balance_of(asset_b, sender) >= asset_b_amount && !(old(ledger).can_transfer(
                asset_a,
                sender,
                pool_of(asset_a, asset_b),
                asset_a_amount,
            ) && old(ledger).can_transfer(
                asset_b,
                sender,
                pool_of(asset_a, asset_b),
                asset_b_amount,
            ))) ==> r == Err::<Event, DispatchError>(
                DispatchError::Ledger(ledger::LedgerError::Overflow),
            ),
            (derived_second_amount(*old(ledger), asset_a, asset_b, asset_a_amount) matches Some(
                asset_b_amount,
            ) && asset_a != asset_b && !impl_create_pool::lp_token_collides((asset_a, asset_b))
                && old(ledger).can_transfer(
                asset_a,
                sender,
                pool_of(asset_a, asset_b),
                asset_a_amount,
            ) && old(ledger).can_transfer(
                asset_b,
                sender,
                pool_of(asset_a, asset_b),
                asset_b_amount,
            ) && provide_mint_value(*old(ledger), asset_a, asset_b, asset_a_amount) is None) ==> r
                == Err::<Event, DispatchError>(DispatchError::Module(Error::MathOverflow)),
            (derived_second_amount(*old(ledger), asset_a, asset_b, asset_a_amount) matches Some(
                asset_b_amount,
            ) && asset_a != asset_b && !impl_create_pool::lp_token_collides((asset_a, asset_b))
                && old(ledger).can_transfer(
                asset_a,
                sender,
                pool_of(asset_a, asset_b),
                asset_a_amount,
            ) && old(ledger).can_transfer(
                asset_b,
                sender,
                pool_of(asset_a, asset_b),
                asset_b_amount,
            ) && provide_mint_value(*old(ledger), asset_a, asset_b, asset_a_amount) is Some && !old(
                ledger,
            ).asset_exists(lp_of(asset_a, asset_b))) ==> r == Err::<Event, DispatchError>(
                DispatchError::Ledger(ledger::LedgerError::UnknownAsset),
            ),
            (derived_second_amount(*old(ledger), asset_a, asset_b, asset_a_amount) matches Some(
                asset_b_amount,
            ) && asset_a != asset_b && !impl_create_pool::lp_token_collides((asset_a, asset_b))
                && old(ledger).can_transfer(
                asset_a,
                sender,
                pool_of(asset_a, asset_b),
                asset_a_amount,
            ) && old(ledger).can_transfer(
                asset_b,
                sender,
                pool_of(asset_a, asset_b),
                asset_b_amount,
            ) && (provide_mint_value(*old(ledger), asset_a, asset_b, asset_a_amount) matches Some(
                m,
            ) && old(ledger).asset_exists(lp_of(asset_a, asset_b)) && !old(ledger).can_mint(
                lp_of(asset_a, asset_b),
                sender,
                m,
            ))) ==> r == Err::<Event, DispatchError>(
                DispatchError::Ledger(ledger::LedgerError::Overflow),
            ),
            r matches Ok(ev) ==> (provide_mint_value(*old(ledger), asset_a, asset_b, asset_a_amount)
                matches Some(m) && ev == (Event::LiquidityProvided {
                pool_id: pool_of(asset_a, asset_b),
                lp_token_id: lp_of(asset_a, asset_b),
                earned_lp_tokens: m,
            })),
            r is Ok && sender != pool_of(asset_a, asset_b) ==> final(ledger).balance_of(asset_a, sender) == old(ledger).balance_of(asset_a, sender)
                - asset_a_amount && final(ledger).balance_of(asset_b, sender) == old(ledger).balance_of(asset_b, sender) - derived_second_amount(
                *old(ledger),
                asset_a,
                asset_b,
                asset_a_amount,
            ).unwrap() && final(ledger).balance_of(
                asset_a,
                pool_of(asset_a, asset_b),
            ) == old(ledger).balance_of(asset_a, pool_of(asset_a, asset_b))
                + asset_a_amount && final(ledger).balance_of(
                asset_b,
                pool_of(asset_a, asset_b),
            ) == old(ledger).balance_of(asset_b, pool_of(asset_a, asset_b))
                + derived_second_amount(*old(ledger), asset_a, asset_b, asset_a_amount).unwrap(),
            r is Ok ==> final(ledger).supply_of(
                lp_of(asset_a, asset_b),
            ) == old(ledger).supply_of(
                lp_of(asset_a, asset_b),
            ) + provide_mint_value(*old(ledger), asset_a, asset_b, asset_a_amount).unwrap() && final(ledger).balance_of(
                lp_of(asset_a, asset_b),
                sender,
            ) == old(ledger).balance_of(
                lp_of(asset_a, asset_b),
                sender,
            ) + provide_mint_value(*old(ledger), asset_a, asset_b, asset_a_amount).unwrap(),
            forall|a: u32|
                a != lp_of(asset_a, asset_b) ==> (#[trigger] final(ledger).supply_of(a)) == old(ledger).supply_of(a),
            forall|a: u32|
                (#[trigger] final(ledger).asset_exists(a)) == old(ledger).asset_exists(a),
            forall|a: u32, c: u64|
                !((a == asset_a || a == asset_b) && (c == sender || c
                    == pool_of(asset_a, asset_b))) && !(a
                    == lp_of(asset_a, asset_b) && c == sender) ==> (#[trigger] final(ledger).balance_of(a, c)) == old(ledger).balance_of(a, c),
    {
        // Get pool data
        let pool_liquidity: (u128, u128) = match Self::get_pool_liquidity(
            ledger,
            (asset_a, asset_b),
        ) {
            Ok(v) => v,
            Err(e) => { return Err(e) },
        };
        let asset_b_amount: u128 = match Self::derive_second_asset_amount(
            pool_liquidity,
            asset_a_amount,
        ) {
            Ok(v) => v,
            Err(e) => { return Err(e) },
        };

        // Check the user is able to make the required deposit
        match Self::check_deposit_is_valid(
            ledger,
            &sender,
            (asset_a, asset_b),
            (asset_a_amount, asset_b_amount),
        ) {
            Ok(()) => {},
            Err(e) => { return Err(e) },
        }

        // Handle the deposit to the liquidity pool
        Self::process_liquidity_pool_deposit(
            ledger,
            &sender,
            (asset_a, asset_b),
            (asset_a_amount, asset_b_amount),
            pool_liquidity.0,
        )
    }

    /// Redeem LP tokens in exchange for their underlying liquidity in the
    /// pool: validates the pair and the sender's LP holding, pays the
    /// sender the proportional share of both reserves, and burns the
    /// redeemed claim. On any failure the ledger is left unchanged.
    pub fn redeem_lp_tokens(
        ledger: &mut ledger::Ledger,
        sender: u64,
        asset_a: u32,
        asset_b: u32,
        lp_token_amount: u128,
    ) -> (r: Result<Event, DispatchError>)
        requires
            old(ledger).well_formed(),
        ensures
            final(ledger).well_formed(),
            r is Err ==> *final(ledger) == *old(ledger),
            asset_a == asset_b ==> r == Err::<Event, DispatchError>(
                DispatchError::Module(Error::ProvidedInvalidAssetIds),
            ),
            asset_a != asset_b && old(ledger).balance_of(
                lp_of(asset_a, asset_b),
                sender,
            ) < lp_token_amount ==> r == Err::<Event, DispatchError>(
                DispatchError::Module(Error::NotEnoughLPTokens),
            ),
            r is Ok <==> (asset_a != asset_b && !impl_create_pool::lp_token_collides(
                (asset_a, asset_b),
            ) && (redemption_value(*old(ledger), asset_a, asset_b, lp_token_amount) matches Some(
                rr,
            ) && old(ledger).can_transfer(
                asset_a,
                pool_of(asset_a, asset_b),
                sender,
                rr.0,
            ) && old(ledger).can_transfer(
                asset_b,
                pool_of(asset_a, asset_b),
                sender,
                rr.1,
            ) && old(ledger).can_burn(
                lp_of(asset_a, asset_b),
                sender,
                lp_token_amount,
            ))),
            asset_a != asset_b && old(ledger).balance_of(lp_of(asset_a, asset_b), sender)
                >= lp_token_amount && impl_create_pool::lp_token_collides((asset_a, asset_b)) ==> r
                == Err::<Event, DispatchError>(
                DispatchError::Module(Error::ProvidedInvalidAssetIds),
            ),
            asset_a != asset_b && old(ledger).balance_of(lp_of(asset_a, asset_b), sender)
                >= lp_token_amount && !impl_create_pool::lp_token_collides((asset_a, asset_b))
                && redemption_value(*old(ledger), asset_a, asset_b, lp_token_amount) is None ==> r
                == Err::<Event, DispatchError>(DispatchError::Module(Error::MathOverflow)),
            (asset_a != asset_b && old(ledger).balance_of(lp_of(asset_a, asset_b), sender)
                >= lp_token_amount && !impl_create_pool::lp_token_collides((asset_a, asset_b)) && (
            redemption_value(*old(ledger), asset_a, asset_b, lp_token_amount) matches Some(rr) && (
            old(ledger).balance_of(asset_a, pool_of(asset_a, asset_b)) < rr.0 || (old(
                ledger,
            ).can_transfer(asset_a, pool_of(asset_a, asset_b), sender, rr.0) && old(
                ledger,
            ).balance_of(asset_b, pool_of(asset_a, asset_b)) < rr.1)))) ==> r == Err::<
                Event,
                DispatchError,
            >(DispatchError::Ledger(ledger::LedgerError::InsufficientBalance)),
            r matches Ok(ev) ==> (redemption_value(*old(ledger), asset_a, asset_b, lp_token_amount)
                matches Some(rr) && ev == (Event::LiquidityRedeemed {
                pool_id: pool_of(asset_a, asset_b),
                asset_pair: (asset_a, asset_b),
                redeemed_token_amounts: rr,
            })),
            r is Ok && sender != pool_of(asset_a, asset_b) ==> final(ledger).balance_of(asset_a, pool_of(asset_a, asset_b)) == old(ledger).balance_of(asset_a, pool_of(asset_a, asset_b))
                - redemption_value(*old(ledger), asset_a, asset_b, lp_token_amount).unwrap().0
                && final(ledger).balance_of(asset_a, sender) == old(ledger).balance_of(
                asset_a,
                sender,
            ) + redemption_value(*old(ledger), asset_a, asset_b, lp_token_amount).unwrap().0
                && final(ledger).balance_of(
                asset_b,
                pool_of(asset_a, asset_b),
            ) == old(ledger).balance_of(asset_b, pool_of(asset_a, asset_b))
                - redemption_value(*old(ledger), asset_a, asset_b, lp_token_amount).unwrap().1
                && final(ledger).balance_of(asset_b, sender) == old(ledger).balance_of(
                asset_b,
                sender,
            ) + redemption_value(*old(ledger), asset_a, asset_b, lp_token_amount).unwrap().1,
            r is Ok ==> final(ledger).balance_of(
                lp_of(asset_a, asset_b),
                sender,
            ) == old(ledger).balance_of(
                lp_of(asset_a, asset_b),
                sender,
            ) - lp_token_amount && final(ledger).supply_of(
                lp_of(asset_a, asset_b),
            ) == old(ledger).supply_of(
                lp_of(asset_a, asset_b),
            ) - lp_token_amount,
            forall|a: u32|
                a != lp_of(asset_a, asset_b) ==> (#[trigger] final(ledger).supply_of(a)) == old(ledger).supply_of(a),
            forall|a: u32|
                (#[trigger] final(ledger).asset_exists(a)) == old(ledger).asset_exists(a),
            forall|a: u32, c: u64|
                !((a == asset_a || a == asset_b) && (c == sender || c
                    == pool_of(asset_a, asset_b))) && !(a
                    == lp_of(asset_a, asset_b) && c == sender) ==> (#[trigger] final(ledger).balance_of(a, c)) == old(ledger).balance_of(a, c),
    {
        // Get pool data
        let pool_id: u64 = Self::get_pool_id((asset_a, asset_b));
        let lp_token_id: u32 = Self::get_lp_token_id(&pool_id);

        // Check the user is able to make redemption
        match Self::check_lp_redemption_is_valid(
            ledger,
            &sender,
            lp_token_id,
            lp_token_amount,
            (asset_a, asset_b),
        ) {
            Ok(()) => {},
            Err(e) => { return Err(e) },
        }

        // Redeem the users LP tokens
        Self::handle_lp_token_redemption(
            ledger,
            &sender,
            &pool_id,
            lp_token_id,
            lp_token_amount,
            (asset_a, asset_b),
        )
    }
}

/// The pair's pool account; see `impl_liquidity::pool_account_of`.
pub open spec fn pool_of(asset_a: u32, asset_b: u32) -> u64 {
    impl_liquidity::pool_account_of((asset_a, asset_b))
}

/// The pair's pool's LP token id; see `impl_liquidity::lp_token_id_of`.
pub open spec fn lp_of(asset_a: u32, asset_b: u32) -> u32 {
    impl_liquidity::lp_token_id_of(pool_of(asset_a, asset_b))
}

/// What the pair's pool pays out for a deposit of the first asset, priced
/// against the pool's current reserves at the protocol fee.
pub open spec fn swap_value(
    l: ledger::Ledger,
    asset_a: u32,
    asset_b: u32,
    asset_a_amount: u128,
) -> Option<u128> {
    dex_math::swap_output(
        asset_a_amount,
        l.balance_of(asset_a, pool_of(asset_a, asset_b)),
        l.balance_of(asset_b, pool_of(asset_a, asset_b)),
        dex_math::SWAP_FEE_PERCENTAGE,
        dex_math::SWAP_FEE_PERCENTAGE_DIVISOR,
    )
}

/// The second deposit amount that matches a deposit of the first asset at
/// the pair's pool's current reserve ratio.
pub open spec fn derived_second_amount(
    l: ledger::Ledger,
    asset_a: u32,
    asset_b: u32,
    asset_a_amount: u128,
) -> Option<u128> {
    dex_math::second_asset_amount(
        asset_a_amount,
        l.balance_of(asset_a, pool_of(asset_a, asset_b)),
        l.balance_of(asset_b, pool_of(asset_a, asset_b)),
    )
}

/// The LP claim minted for a deposit of the first asset into the pair's
/// pool, against the pool's current first reserve and LP supply.
pub open spec fn provide_mint_value(
    l: ledger::Ledger,
    asset_a: u32,
    asset_b: u32,
    asset_a_amount: u128,
) -> Option<u128> {
    dex_math::proportional_lp_mint(
        asset_a_amount,
        l.balance_of(asset_a, pool_of(asset_a, asset_b)),
        l.supply_of(
            lp_of(asset_a, asset_b),
        ),
    )
}

/// The reserves owed for redeeming an LP amount against the pair's pool's
/// current reserves and LP supply.
pub open spec fn redemption_value(
    l: ledger::Ledger,
    asset_a: u32,
    asset_b: u32,
    lp_token_amount: u128,
) -> Option<(u128, u128)> {
    dex_math::redemption_split(
        lp_token_amount,
        l.supply_of(
            lp_of(asset_a, asset_b),
        ),
        l.balance_of(asset_a, pool_of(asset_a, asset_b)),
        l.balance_of(asset_b, pool_of(asset_a, asset_b)),
    )
}

/// The monotonic-k property at the pool: a swap with a positive input
/// against positive reserves strictly grows the product of the pool's
/// reserves, because the protocol fee's share of the reserve decrease is
/// retained by the pool.
pub proof fn lemma_swap_grows_pool_product(
    l: ledger::Ledger,
    asset_a: u32,
    asset_b: u32,
    asset_a_amount: u128,
    amount_out: u128,
)
    requires
        0 < asset_a_amount,
        0 < l.balance_of(asset_a, pool_of(asset_a, asset_b)),
        0 < l.balance_of(asset_b, pool_of(asset_a, asset_b)),
        swap_value(l, asset_a, asset_b, asset_a_amount) == Some(amount_out),
    ensures
        amount_out < l.balance_of(asset_b, pool_of(asset_a, asset_b)),
        (l.balance_of(asset_a, pool_of(asset_a, asset_b))
            + asset_a_amount) * (l.balance_of(
            asset_b,
            pool_of(asset_a, asset_b),
        ) - amount_out) > l.balance_of(asset_a, pool_of(asset_a, asset_b))
            * l.balance_of(asset_b, pool_of(asset_a, asset_b)),
{
    dex_math::lemma_swap_grows_constant_product(
        asset_a_amount,
        l.balance_of(asset_a, pool_of(asset_a, asset_b)),
        l.balance_of(asset_b, pool_of(asset_a, asset_b)),
        dex_math::SWAP_FEE_PERCENTAGE,
        dex_math::SWAP_FEE_PERCENTAGE_DIVISOR,
        amount_out,
    );
}

/// Round trip: in the state a successful `create_pool` leaves behind - the
/// pool holds exactly the two deposits and the LP supply is the floor
/// square root of their product, as `create_pool` ensures - redeeming the
/// entire LP supply is owed exactly the deposited reserves.
pub proof fn lemma_create_then_redeem_round_trip(
    l: ledger::Ledger,
    asset_a: u32,
    asset_b: u32,
    asset_a_amount: u128,
    asset_b_amount: u128,
)
    requires
        l.balance_of(asset_a, pool_of(asset_a, asset_b))
            == asset_a_amount,
        l.balance_of(asset_b, pool_of(asset_a, asset_b))
            == asset_b_amount,
        l.supply_of(
            lp_of(asset_a, asset_b),
        ) == dex_math::floor_sqrt(asset_a_amount * asset_b_amount),
        0 < asset_a_amount,
        0 < asset_b_amount,
        asset_a_amount * dex_math::MULTIPLIER <= u128::MAX,
        asset_b_amount * dex_math::MULTIPLIER <= u128::MAX,
        dex_math::floor_sqrt(asset_a_amount * asset_b_amount) * dex_math::MULTIPLIER <= u128::MAX,
    ensures
        redemption_value(
            l,
            asset_a,
            asset_b,
            l.supply_of(
                lp_of(asset_a, asset_b),
            ),
        ) == Some((asset_a_amount, asset_b_amount)),
{
    let k = asset_a_amount * asset_b_amount;
    dex_math::lemma_floor_sqrt_exists(k);
    let fs = dex_math::floor_sqrt(k);
    assert(k >= 1) by (nonlinear_arith)
        requires
            asset_a_amount >= 1 && asset_b_amount >= 1 && k == asset_a_amount * asset_b_amount,
    ;
    if fs == 0 {
        assert((0 + 1) * (0 + 1) == 1);
        assert(false);
    }
    let supply = l.supply_of(
        lp_of(asset_a, asset_b),
    );
    assert(supply == fs);
    dex_math::lemma_full_redemption_returns_reserves(supply, asset_a_amount, asset_b_amount);
}

/// The typed failures an operation can report to the caller.
#[derive(Clone, Copy, Debug, PartialEq, Eq, Structural)]
pub enum Error {
    /// There was not enough tokens available to complete the transaction
    NotEnoughTokensForTransaction,
    /// The user did not provide valid asset ids
    ProvidedInvalidAssetIds,
    /// The dex math has had an overflow
    MathOverflow,
    /// The user does not have enough LP tokens for the redemption request
    NotEnoughLPTokens,
}

} // verus!
