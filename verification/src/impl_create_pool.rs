//! Creating a fresh pool: moving the first deposits in, creating the
//! pool's LP token asset, and minting the initial LP claim to the
//! creator.

use crate::dex_math::{floor_sqrt, get_lp_tokens_for_new_pool, lemma_floor_sqrt_exists};
use crate::impl_liquidity::{lp_token_id_of, pool_account_of};
use crate::ledger::{Ledger, LedgerError};
use crate::{DispatchError, Error, Event, Pallet};
use vstd::prelude::*;

verus! {

/// The derived LP token id of the pair's pool coincides with one of the
/// pair's own asset ids. The hash truncation makes such a collision
/// possible; the engine rejects the pair outright rather than mix an LP
/// token with a pool reserve.
pub open spec fn lp_token_collides(asset_pair: (u32, u32)) -> bool {
    let lp_token = lp_token_id_of(pool_account_of(asset_pair));
    lp_token == asset_pair.0 || lp_token == asset_pair.1
}

/// The ledger-side conditions under which creating the pair's pool
/// succeeds: both deposits can move to the pool account, the initial LP
/// mint is computable, and the LP token asset does not exist yet.
pub open spec fn create_pool_ledger_ok(
    l: Ledger,
    sender: u64,
    asset_pair: (u32, u32),
    asset_amounts: (u128, u128),
) -> bool {
    let pool = pool_account_of(asset_pair);
    &&& l.can_transfer(asset_pair.0, sender, pool, asset_amounts.0)
    &&& l.can_transfer(asset_pair.1, sender, pool, asset_amounts.1)
    &&& asset_amounts.0 * asset_amounts.1 <= u128::MAX
    &&& !l.asset_exists(lp_token_id_of(pool))
}

impl Pallet {
    /// Creates the pool's LP token asset, owned by the engine's own
    /// account, and mints the initial LP claim - the floor square root of
    /// the product of the two deposits - to the pool creator.
    pub fn send_lp_tokens_to_pool_creator(
        ledger: &mut Ledger,
        sender: &u64,
        pool_id: &u64,
        asset_amounts: (u128, u128),
    ) -> (r: Result<(), DispatchError>)
        requires
            old(ledger).well_formed(),
        ensures
            final(ledger).well_formed(),
            r is Ok <==> (asset_amounts.0 * asset_amounts.1 <= u128::MAX && !old(ledger).asset_exists(lp_token_id_of(*pool_id))),
            asset_amounts.0 * asset_amounts.1 > u128::MAX ==> r == Err::<(), DispatchError>(
                DispatchError::Module(Error::MathOverflow),
            ),
            asset_amounts.0 * asset_amounts.1 <= u128::MAX && old(ledger).asset_exists(
                lp_token_id_of(*pool_id),
            ) ==> r == Err::<(), DispatchError>(DispatchError::Ledger(
                LedgerError::AssetAlreadyExists,
            )),
            r is Err ==> *final(ledger) == *old(ledger),
            r is Ok ==> final(ledger).asset_exists(lp_token_id_of(*pool_id)) && final(ledger).supply_of(lp_token_id_of(*pool_id)) == floor_sqrt(
                asset_amounts.0 * asset_amounts.1,
            ) && final(ledger).balance_of(lp_token_id_of(*pool_id), *sender) == floor_sqrt(
                asset_amounts.0 * asset_amounts.1,
            ),
            forall|a: u32|
                a != lp_token_id_of(*pool_id) ==> (#[trigger] final(ledger).asset_exists(a)) == old(ledger).asset_exists(a),
            forall|a: u32|
                a != lp_token_id_of(*pool_id) ==> (#[trigger] final(ledger).supply_of(a)) == old(ledger).supply_of(a),
            forall|a: u32, c: u64|
                !(a == lp_token_id_of(*pool_id) && c == *sender) ==> (#[trigger] final(ledger).balance_of(a, c)) == old(ledger).balance_of(a, c),
    {
        let lp_tokens_amount: u128 = match get_lp_tokens_for_new_pool(
            asset_amounts.0,
            asset_amounts.1,
        ) {
            Some(v) => v,
            None => { return Err(DispatchError::Module(Error::MathOverflow)) },
        };
        let asset_id: u32 = Self::get_lp_token_id(pool_id);
        proof {
            let k = asset_amounts.0 * asset_amounts.1;
            lemma_floor_sqrt_exists(k);
            let fs = floor_sqrt(k);
            assert(fs <= k) by (nonlinear_arith)
                requires
                    0 <= fs && fs * fs <= k,
            ;
            assert(lp_tokens_amount == fs);
        }
        match ledger.create_asset(asset_id, Self::account_id(), 1) {
            Ok(()) => {},
            Err(e) => { return Err(DispatchError::Ledger(e)) },
        }
        proof {
            if old(ledger).balance_of(asset_id, *sender) > 0 {
                old(ledger).lemma_positive_balance_means_asset_exists(asset_id, *sender);
            }
        }
        match ledger.mint(asset_id, *sender, lp_tokens_amount) {
            Ok(()) => {},
            Err(e) => {
                proof {
                    assert(false);
                }
                return Err(DispatchError::Ledger(e));
            },
        }
        Ok(())
    }

    /// Creates a new liquidity pool for a distinct asset pair: moves both
    /// deposits from the sender to the pool account, creates the LP token
    /// asset, and mints the initial LP claim to the sender. Either every
    /// ledger effect is applied, or none is and the first failing step's
    /// error is returned.
    pub fn create_new_pool(
        ledger: &mut Ledger,
        sender: &u64,
        asset_pair: (u32, u32),
        asset_amounts: (u128, u128),
    ) -> (r: Result<Event, DispatchError>)
        requires
            old(ledger).well_formed(),
            asset_pair.0 != asset_pair.1,
        ensures
            final(ledger).well_formed(),
            r is Ok <==> (!lp_token_collides(asset_pair) && create_pool_ledger_ok(
                *old(ledger),
                *sender,
                asset_pair,
                asset_amounts,
            )),
            lp_token_collides(asset_pair) ==> r == Err::<Event, DispatchError>(
                DispatchError::Module(Error::ProvidedInvalidAssetIds),
            ),
            !lp_token_collides(asset_pair) && old(ledger).balance_of(asset_pair.0, *sender)
                < asset_amounts.0 ==> r == Err::<Event, DispatchError>(
                DispatchError::Ledger(LedgerError::InsufficientBalance),
            ),
            !lp_token_collides(asset_pair) && old(ledger).balance_of(asset_pair.0, *sender)
                >= asset_amounts.0 && !old(ledger).can_transfer(
                asset_pair.0,
                *sender,
                pool_account_of(asset_pair),
                asset_amounts.0,
            ) ==> r == Err::<Event, DispatchError>(DispatchError::Ledger(LedgerError::Overflow)),
            !lp_token_collides(asset_pair) && old(ledger).can_transfer(
                asset_pair.0,
                *sender,
                pool_account_of(asset_pair),
                asset_amounts.0,
            ) && old(ledger).balance_of(asset_pair.1, *sender) < asset_amounts.1 ==> r == Err::<
                Event,
                DispatchError,
            >(DispatchError::Ledger(LedgerError::InsufficientBalance)),
            !lp_token_collides(asset_pair) && old(ledger).can_transfer(
                asset_pair.0,
                *sender,
                pool_account_of(asset_pair),
                asset_amounts.0,
            ) && old(ledger).balance_of(asset_pair.1, *sender) >= asset_amounts.1 && !old(ledger).can_transfer(
                asset_pair.1,
                *sender,
                pool_account_of(asset_pair),
                asset_amounts.1,
            ) ==> r == Err::<Event, DispatchError>(DispatchError::Ledger(LedgerError::Overflow)),
            !lp_token_collides(asset_pair) && old(ledger).can_transfer(
                asset_pair.0,
                *sender,
                pool_account_of(asset_pair),
                asset_amounts.0,
            ) && old(ledger).can_transfer(
                asset_pair.1,
                *sender,
                pool_account_of(asset_pair),
                asset_amounts.1,
            ) && asset_amounts.0 * asset_amounts.1 > u128::MAX ==> r == Err::<
                Event,
                DispatchError,
            >(DispatchError::Module(Error::MathOverflow)),
            !lp_token_collides(asset_pair) && old(ledger).can_transfer(
                asset_pair.0,
                *sender,
                pool_account_of(asset_pair),
                asset_amounts.0,
            ) && old(ledger).can_transfer(
                asset_pair.1,
                *sender,
                pool_account_of(asset_pair),
                asset_amounts.1,
            ) && asset_amounts.0 * asset_amounts.1 <= u128::MAX && old(ledger).asset_exists(
                lp_token_id_of(pool_account_of(asset_pair)),
            ) ==> r == Err::<Event, DispatchError>(DispatchError::Ledger(
                LedgerError::AssetAlreadyExists,
            )),
            r is Err ==> *final(ledger) == *old(ledger),
            r matches Ok(ev) ==> ev == (Event::NewPoolCreated {
                pool_id: pool_account_of(asset_pair),
            }),
            r is Ok && *sender != pool_account_of(asset_pair) ==> final(ledger).balance_of(
                asset_pair.0,
                *sender,
            ) == old(ledger).balance_of(asset_pair.0, *sender) - asset_amounts.0 && final(ledger).balance_of(asset_pair.1, *sender) == old(ledger).balance_of(asset_pair.1, *sender)
                - asset_amounts.1 && final(ledger).balance_of(
                asset_pair.0,
                pool_account_of(asset_pair),
            ) == old(ledger).balance_of(asset_pair.0, pool_account_of(asset_pair)) + asset_amounts.0
                && final(ledger).balance_of(asset_pair.1, pool_account_of(asset_pair)) == old(ledger).balance_of(asset_pair.1, pool_account_of(asset_pair)) + asset_amounts.1,
            r is Ok && *sender == pool_account_of(asset_pair) ==> final(ledger).balance_of(
                asset_pair.0,
                *sender,
            ) == old(ledger).balance_of(asset_pair.0, *sender) && final(ledger).balance_of(
                asset_pair.1,
                *sender,
            ) == old(ledger).balance_of(asset_pair.1, *sender),
            r is Ok ==> final(ledger).asset_exists(lp_token_id_of(pool_account_of(asset_pair)))
                && final(ledger).supply_of(lp_token_id_of(pool_account_of(asset_pair)))
                == floor_sqrt(asset_amounts.0 * asset_amounts.1) && final(ledger).balance_of(
                lp_token_id_of(pool_account_of(asset_pair)),
                *sender,
            ) == floor_sqrt(asset_amounts.0 * asset_amounts.1),
            forall|a: u32|
                a != lp_token_id_of(pool_account_of(asset_pair)) ==> (#[trigger] final(ledger).asset_exists(a)) == old(ledger).asset_exists(a),
            forall|a: u32|
                a != lp_token_id_of(pool_account_of(asset_pair)) ==> (#[trigger] final(ledger).supply_of(a)) == old(ledger).supply_of(a),
            forall|a: u32, c: u64|
                !((a == asset_pair.0 || a == asset_pair.1) && (c == *sender || c
                    == pool_account_of(asset_pair))) && !(a == lp_token_id_of(
                    pool_account_of(asset_pair),
                ) && c == *sender) ==> (#[trigger] final(ledger).balance_of(a, c)) == old(ledger).balance_of(a, c),
    {
        let pool_id: u64 = Self::initialize_pool(asset_pair);
        let lp_token: u32 = Self::get_lp_token_id(&pool_id);
        if lp_token == asset_pair.0 || lp_token == asset_pair.1 {
            return Err(DispatchError::Module(Error::ProvidedInvalidAssetIds));
        }

        // Validate the steps that follow the transfers before performing
        // any of them, so that a failure leaves the ledger untouched.
        match Self::first_pool_transfer_failure(
            ledger,
            sender,
            &pool_id,
            asset_pair,
            asset_amounts,
        ) {
            None => {},
            Some(e) => { return Err(DispatchError::Ledger(e)) },
        }
        if get_lp_tokens_for_new_pool(asset_amounts.0, asset_amounts.1).is_none() {
            return Err(DispatchError::Module(Error::MathOverflow));
        }
        if ledger.has_asset(lp_token) {
            return Err(DispatchError::Ledger(LedgerError::AssetAlreadyExists));
        }

        // Transfer the tokens to the new pool
        match Self::transfer_tokens_to_pool(ledger, sender, &pool_id, asset_pair, asset_amounts) {
            Ok(()) => {},
            Err(e) => { return Err(e) },
        }

        // Send the lp tokens in exchange to the pool creator
        match Self::send_lp_tokens_to_pool_creator(ledger, sender, &pool_id, asset_amounts) {
            Ok(()) => {},
            Err(e) => { return Err(e) },
        }

        Ok(Event::NewPoolCreated { pool_id })
    }
}

} // verus!
