//! Adding liquidity to an existing pool: moving the matched deposit in
//! and minting the proportional LP claim to the contributor.

use crate::dex_math::{get_lp_tokens_for_existing_pool, proportional_lp_mint};
use crate::impl_create_pool::lp_token_collides;
use crate::impl_liquidity::{lp_token_id_of, pool_account_of};
use crate::ledger::{Ledger, LedgerError};
use crate::{DispatchError, Error, Event, Pallet};
use vstd::prelude::*;

verus! {

impl Pallet {
    /// Mints the proportional LP claim for a deposit into an existing
    /// pool to the contributor: `deposit * supply / reserve` at the
    /// engine's scale, against the pool's LP token supply.
    pub fn send_lp_tokens_to_pool_contributor(
        ledger: &mut Ledger,
        sender: &u64,
        pool_id: &u64,
        new_token_amount: u128,
        current_token_amount: u128,
    ) -> (r: Result<(u32, u128), DispatchError>)
        requires
            old(ledger).well_formed(),
        ensures
            final(ledger).well_formed(),
            r is Ok <==> (proportional_lp_mint(
                new_token_amount,
                current_token_amount,
                old(ledger).supply_of(lp_token_id_of(*pool_id)),
            ) matches Some(m) && old(ledger).can_mint(lp_token_id_of(*pool_id), *sender, m)),
            proportional_lp_mint(
                new_token_amount,
                current_token_amount,
                old(ledger).supply_of(lp_token_id_of(*pool_id)),
            ) is None ==> r == Err::<(u32, u128), DispatchError>(
                DispatchError::Module(Error::MathOverflow),
            ),
            proportional_lp_mint(
                new_token_amount,
                current_token_amount,
                old(ledger).supply_of(lp_token_id_of(*pool_id)),
            ) is Some && !old(ledger).asset_exists(lp_token_id_of(*pool_id)) ==> r == Err::<
                (u32, u128),
                DispatchError,
            >(DispatchError::Ledger(LedgerError::UnknownAsset)),
            (proportional_lp_mint(
                new_token_amount,
                current_token_amount,
                old(ledger).supply_of(lp_token_id_of(*pool_id)),
            ) matches Some(m) && old(ledger).asset_exists(lp_token_id_of(*pool_id)) && !old(ledger).can_mint(lp_token_id_of(*pool_id), *sender, m)) ==> r == Err::<
                (u32, u128),
                DispatchError,
            >(DispatchError::Ledger(LedgerError::Overflow)),
            r is Err ==> *final(ledger) == *old(ledger),
            r matches Ok(p) ==> (proportional_lp_mint(
                new_token_amount,
                current_token_amount,
                old(ledger).supply_of(lp_token_id_of(*pool_id)),
            ) matches Some(m) && p == (lp_token_id_of(*pool_id), m)),
            r is Ok ==> final(ledger).supply_of(lp_token_id_of(*pool_id)) == old(ledger).supply_of(
                lp_token_id_of(*pool_id),
            ) + proportional_lp_mint(
                new_token_amount,
                current_token_amount,
                old(ledger).supply_of(lp_token_id_of(*pool_id)),
            ).unwrap() && final(ledger).balance_of(lp_token_id_of(*pool_id), *sender) == old(ledger).balance_of(lp_token_id_of(*pool_id), *sender) + proportional_lp_mint(
                new_token_amount,
                current_token_amount,
                old(ledger).supply_of(lp_token_id_of(*pool_id)),
            ).unwrap(),
            forall|a: u32|
                a != lp_token_id_of(*pool_id) ==> (#[trigger] final(ledger).supply_of(a)) == old(ledger).supply_of(a),
            forall|a: u32|
                (#[trigger] final(ledger).asset_exists(a)) == old(ledger).asset_exists(a),
            forall|a: u32, c: u64|
                !(a == lp_token_id_of(*pool_id) && c == *sender) ==> (#[trigger] final(ledger).balance_of(a, c)) == old(ledger).balance_of(a, c),
    {
        let lp_token_id: u32 = Self::get_lp_token_id(pool_id);
        let total_lp_token_supply: u128 = ledger.total_supply(lp_token_id);
        let lp_tokens_amount: u128 = match get_lp_tokens_for_existing_pool(
            new_token_amount,
            current_token_amount,
            total_lp_token_supply,
        ) {
            Some(v) => v,
            None => { return Err(DispatchError::Module(Error::MathOverflow)) },
        };
        match ledger.mint(lp_token_id, *sender, lp_tokens_amount) {
            Ok(()) => {},
            Err(e) => { return Err(DispatchError::Ledger(e)) },
        }
        Ok((lp_token_id, lp_tokens_amount))
    }

    /// Handles a deposit into an existing pool: moves both amounts from
    /// the sender to the pool and mints the proportional LP claim,
    /// computed against the pre-deposit reserve given in
    /// `current_token_amount` and the pre-mint LP supply. Either every
    /// ledger effect is applied, or none is and the first failing step's
    /// error is returned.
    pub fn process_liquidity_pool_deposit(
        ledger: &mut Ledger,
        sender: &u64,
        asset_pair: (u32, u32),
        asset_amounts: (u128, u128),
        current_token_amount: u128,
    ) -> (r: Result<Event, DispatchError>)
        requires
            old(ledger).well_formed(),
            asset_pair.0 != asset_pair.1,
        ensures
            final(ledger).well_formed(),
            r is Ok <==> (!lp_token_collides(asset_pair) && old(ledger).can_transfer(
                asset_pair.0,
                *sender,
                pool_account_of(asset_pair),
                asset_amounts.0,
            ) && old(ledger).can_transfer(
                asset_pair.1,
                *sender,
                pool_account_of(asset_pair),
                asset_amounts.1,
            ) && (proportional_lp_mint(
                asset_amounts.0,
                current_token_amount,
                old(ledger).supply_of(lp_token_id_of(pool_account_of(asset_pair))),
            ) matches Some(m) && old(ledger).can_mint(
                lp_token_id_of(pool_account_of(asset_pair)),
                *sender,
                m,
            ))),
            lp_token_collides(asset_pair) ==> r == Err::<Event, DispatchError>(
                DispatchError::Module(Error::ProvidedInvalidAssetIds),
            ),
            !lp_token_collides(asset_pair) && old(ledger).balance_of(asset_pair.0, *sender)
                < asset_amounts.0 ==> r == Err::<Event, DispatchError>(
                DispatchError::Ledger(LedgerError::InsufficientBalance),
            ),
            !lp_token_collides(asset_pair) && old(ledger).balance_of(asset_pair.0, *sender)
                >= asset_amounts.0 && !old(ledger).can_transfer(
                asset_pair.0,
                *sender,
                pool_account_of(asset_pair),
                asset_amounts.0,
            ) ==> r == Err::<Event, DispatchError>(DispatchError::Ledger(LedgerError::Overflow)),
            !lp_token_collides(asset_pair) && old(ledger).can_transfer(
                asset_pair.0,
                *sender,
                pool_account_of(asset_pair),
                asset_amounts.0,
            ) && old(ledger).balance_of(asset_pair.1, *sender) < asset_amounts.1 ==> r == Err::<
                Event,
                DispatchError,
            >(DispatchError::Ledger(LedgerError::InsufficientBalance)),
            !lp_token_collides(asset_pair) && old(ledger).can_transfer(
                asset_pair.0,
                *sender,
                pool_account_of(asset_pair),
                asset_amounts.0,
            ) && old(ledger).balance_of(asset_pair.1, *sender) >= asset_amounts.1 && !old(ledger).can_transfer(
                asset_pair.1,
                *sender,
                pool_account_of(asset_pair),
                asset_amounts.1,
            ) ==> r == Err::<Event, DispatchError>(DispatchError::Ledger(LedgerError::Overflow)),
            !lp_token_collides(asset_pair) && old(ledger).can_transfer(
                asset_pair.0,
                *sender,
                pool_account_of(asset_pair),
                asset_amounts.0,
            ) && old(ledger).can_transfer(
                asset_pair.1,
                *sender,
                pool_account_of(asset_pair),
                asset_amounts.1,
            ) && proportional_lp_mint(
                asset_amounts.0,
                current_token_amount,
                old(ledger).supply_of(lp_token_id_of(pool_account_of(asset_pair))),
            ) is None ==> r == Err::<Event, DispatchError>(
                DispatchError::Module(Error::MathOverflow),
            ),
            !lp_token_collides(asset_pair) && old(ledger).can_transfer(
                asset_pair.0,
                *sender,
                pool_account_of(asset_pair),
                asset_amounts.0,
            ) && old(ledger).can_transfer(
                asset_pair.1,
                *sender,
                pool_account_of(asset_pair),
                asset_amounts.1,
            ) && proportional_lp_mint(
                asset_amounts.0,
                current_token_amount,
                old(ledger).supply_of(lp_token_id_of(pool_account_of(asset_pair))),
            ) is Some && !old(ledger).asset_exists(lp_token_id_of(pool_account_of(asset_pair)))
                ==> r == Err::<Event, DispatchError>(DispatchError::Ledger(
                LedgerError::UnknownAsset,
            )),
            !lp_token_collides(asset_pair) && old(ledger).can_transfer(
                asset_pair.0,
                *sender,
                pool_account_of(asset_pair),
                asset_amounts.0,
            ) && old(ledger).can_transfer(
                asset_pair.1,
                *sender,
                pool_account_of(asset_pair),
                asset_amounts.1,
            ) && (proportional_lp_mint(
                asset_amounts.0,
                current_token_amount,
                old(ledger).supply_of(lp_token_id_of(pool_account_of(asset_pair))),
            ) matches Some(m) && old(ledger).asset_exists(
                lp_token_id_of(pool_account_of(asset_pair)),
            ) && !old(ledger).can_mint(lp_token_id_of(pool_account_of(asset_pair)), *sender, m))
                ==> r == Err::<Event, DispatchError>(DispatchError::Ledger(LedgerError::Overflow)),
            r is Err ==> *final(ledger) == *old(ledger),
            r matches Ok(ev) ==> (proportional_lp_mint(
                asset_amounts.0,
                current_token_amount,
                old(ledger).supply_of(lp_token_id_of(pool_account_of(asset_pair))),
            ) matches Some(m) && ev == (Event::LiquidityProvided {
                pool_id: pool_account_of(asset_pair),
                lp_token_id: lp_token_id_of(pool_account_of(asset_pair)),
                earned_lp_tokens: m,
            })),
            r is Ok && *sender != pool_account_of(asset_pair) ==> final(ledger).balance_of(
                asset_pair.0,
                *sender,
            ) == old(ledger).balance_of(asset_pair.0, *sender) - asset_amounts.0 && final(ledger).balance_of(asset_pair.1, *sender) == old(ledger).balance_of(asset_pair.1, *sender)
                - asset_amounts.1 && final(ledger).balance_of(
                asset_pair.0,
                pool_account_of(asset_pair),
            ) == old(ledger).balance_of(asset_pair.0, pool_account_of(asset_pair)) + asset_amounts.0
                && final(ledger).balance_of(asset_pair.1, pool_account_of(asset_pair)) == old(ledger).balance_of(asset_pair.1, pool_account_of(asset_pair)) + asset_amounts.1,
            r is Ok && *sender == pool_account_of(asset_pair) ==> final(ledger).balance_of(
                asset_pair.0,
                *sender,
            ) == old(ledger).balance_of(asset_pair.0, *sender) && final(ledger).balance_of(
                asset_pair.1,
                *sender,
            ) == old(ledger).balance_of(asset_pair.1, *sender),
            r is Ok ==> final(ledger).supply_of(lp_token_id_of(pool_account_of(asset_pair))) == old(ledger).supply_of(lp_token_id_of(pool_account_of(asset_pair))) + proportional_lp_mint(
                asset_amounts.0,
                current_token_amount,
                old(ledger).supply_of(lp_token_id_of(pool_account_of(asset_pair))),
            ).unwrap() && final(ledger).balance_of(
                lp_token_id_of(pool_account_of(asset_pair)),
                *sender,
            ) == old(ledger).balance_of(lp_token_id_of(pool_account_of(asset_pair)), *sender)
                + proportional_lp_mint(
                asset_amounts.0,
                current_token_amount,
                old(ledger).supply_of(lp_token_id_of(pool_account_of(asset_pair))),
            ).unwrap(),
            forall|a: u32|
                a != lp_token_id_of(pool_account_of(asset_pair)) ==> (#[trigger] final(ledger).supply_of(a)) == old(ledger).supply_of(a),
            forall|a: u32|
                (#[trigger] final(ledger).asset_exists(a)) == old(ledger).asset_exists(a),
            forall|a: u32, c: u64|
                !((a == asset_pair.0 || a == asset_pair.1) && (c == *sender || c
                    == pool_account_of(asset_pair))) && !(a == lp_token_id_of(
                    pool_account_of(asset_pair),
                ) && c == *sender) ==> (#[trigger] final(ledger).balance_of(a, c)) == old(ledger).balance_of(a, c),
    {
        let pool_id: u64 = Self::get_pool_id(asset_pair);
        let lp_token: u32 = Self::get_lp_token_id(&pool_id);
        if lp_token == asset_pair.0 || lp_token == asset_pair.1 {
            return Err(DispatchError::Module(Error::ProvidedInvalidAssetIds));
        }

        // Validate every step before performing any, so that a failure
        // leaves the ledger untouched.
        match Self::first_pool_transfer_failure(
            ledger,
            sender,
            &pool_id,
            asset_pair,
            asset_amounts,
        ) {
            None => {},
            Some(e) => { return Err(DispatchError::Ledger(e)) },
        }
        let total_lp_token_supply: u128 = ledger.total_supply(lp_token);
        let lp_tokens_amount: u128 = match get_lp_tokens_for_existing_pool(
            asset_amounts.0,
            current_token_amount,
            total_lp_token_supply,
        ) {
            Some(v) => v,
            None => { return Err(DispatchError::Module(Error::MathOverflow)) },
        };
        if !ledger.has_asset(lp_token) {
            return Err(DispatchError::Ledger(LedgerError::UnknownAsset));
        }
        if total_lp_token_supply.checked_add(lp_tokens_amount).is_none() {
            return Err(DispatchError::Ledger(LedgerError::Overflow));
        }
        let sender_lp_balance: u128 = ledger.balance(lp_token, *sender);
        if sender_lp_balance.checked_add(lp_tokens_amount).is_none() {
            return Err(DispatchError::Ledger(LedgerError::Overflow));
        }

        // Transfer the tokens to the pool
        match Self::transfer_tokens_to_pool(ledger, sender, &pool_id, asset_pair, asset_amounts) {
            Ok(()) => {},
            Err(e) => { return Err(e) },
        }

        // Send the lp tokens in exchange to the contributor
        match Self::send_lp_tokens_to_pool_contributor(
            ledger,
            sender,
            &pool_id,
            asset_amounts.0,
            current_token_amount,
        ) {
            Ok((lp_token_id, earned_lp_tokens)) => Ok(
                Event::LiquidityProvided { pool_id, lp_token_id, earned_lp_tokens },
            ),
            Err(e) => Err(e),
        }
    }
}

} // verus!
