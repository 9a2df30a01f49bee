//! Redeeming LP tokens: paying out the holder's proportional share of
//! both reserves and burning the redeemed claim.

use crate::dex_math::{get_redeemed_token_balance, redemption_split};
use crate::impl_liquidity::pool_account_of;
use crate::ledger::{Ledger, LedgerError};
use crate::{DispatchError, Error, Event, Pallet};
use vstd::prelude::*;

verus! {

impl Pallet {
    /// Validates a redemption request: the pair's ids must differ and the
    /// sender must hold at least the redeemed amount of the LP token.
    pub fn check_lp_redemption_is_valid(
        ledger: &Ledger,
        sender: &u64,
        lp_token_id: u32,
        lp_token_amount: u128,
        asset_pair: (u32, u32),
    ) -> (r: Result<(), DispatchError>)
        requires
            ledger.well_formed(),
        ensures
            r is Ok <==> (asset_pair.0 != asset_pair.1 && ledger.balance_of(lp_token_id, *sender)
                >= lp_token_amount),
            asset_pair.0 == asset_pair.1 ==> r == Err::<(), DispatchError>(
                DispatchError::Module(Error::ProvidedInvalidAssetIds),
            ),
            asset_pair.0 != asset_pair.1 && ledger.balance_of(lp_token_id, *sender)
                < lp_token_amount ==> r == Err::<(), DispatchError>(
                DispatchError::Module(Error::NotEnoughLPTokens),
            ),
    {
        if asset_pair.0 == asset_pair.1 {
            return Err(DispatchError::Module(Error::ProvidedInvalidAssetIds));
        }
        if !Self::has_enough_tokens(ledger, lp_token_id, lp_token_amount, sender) {
            return Err(DispatchError::Module(Error::NotEnoughLPTokens));
        }
        Ok(())
    }

    /// Redeems `lp_token_amount` of the pool's LP token: pays the sender
    /// the proportional share of both reserves and burns the redeemed
    /// claim. Either every ledger effect is applied, or none is and the
    /// first failing step's error is returned.
    pub fn handle_lp_token_redemption(
        ledger: &mut Ledger,
        sender: &u64,
        pool_id: &u64,
        lp_token_id: u32,
        lp_token_amount: u128,
        asset_pair: (u32, u32),
    ) -> (r: Result<Event, DispatchError>)
        requires
            old(ledger).well_formed(),
            asset_pair.0 != asset_pair.1,
        ensures
            final(ledger).well_formed(),
            r is Ok <==> (!(lp_token_id == asset_pair.0 || lp_token_id == asset_pair.1) && (
            redemption_split(
                lp_token_amount,
                old(ledger).supply_of(lp_token_id),
                old(ledger).balance_of(asset_pair.0, pool_account_of(asset_pair)),
                old(ledger).balance_of(asset_pair.1, pool_account_of(asset_pair)),
            ) matches Some(rr) && old(ledger).can_transfer(asset_pair.0, *pool_id, *sender, rr.0)
                && old(ledger).can_transfer(asset_pair.1, *pool_id, *sender, rr.1) && old(ledger).can_burn(lp_token_id, *sender, lp_token_amount))),
            lp_token_id == asset_pair.0 || lp_token_id == asset_pair.1 ==> r == Err::<
                Event,
                DispatchError,
            >(DispatchError::Module(Error::ProvidedInvalidAssetIds)),
            !(lp_token_id == asset_pair.0 || lp_token_id == asset_pair.1) && redemption_split(
                lp_token_amount,
                old(ledger).supply_of(lp_token_id),
                old(ledger).balance_of(asset_pair.0, pool_account_of(asset_pair)),
                old(ledger).balance_of(asset_pair.1, pool_account_of(asset_pair)),
            ) is None ==> r == Err::<Event, DispatchError>(
                DispatchError::Module(Error::MathOverflow),
            ),
            !(lp_token_id == asset_pair.0 || lp_token_id == asset_pair.1) && (redemption_split(
                lp_token_amount,
                old(ledger).supply_of(lp_token_id),
                old(ledger).balance_of(asset_pair.0, pool_account_of(asset_pair)),
                old(ledger).balance_of(asset_pair.1, pool_account_of(asset_pair)),
            ) matches Some(rr) && old(ledger).balance_of(asset_pair.0, *pool_id) < rr.0) ==> r
                == Err::<Event, DispatchError>(DispatchError::Ledger(
                LedgerError::InsufficientBalance,
            )),
            !(lp_token_id == asset_pair.0 || lp_token_id == asset_pair.1) && (redemption_split(
                lp_token_amount,
                old(ledger).supply_of(lp_token_id),
                old(ledger).balance_of(asset_pair.0, pool_account_of(asset_pair)),
                old(ledger).balance_of(asset_pair.1, pool_account_of(asset_pair)),
            ) matches Some(rr) && old(ledger).can_transfer(asset_pair.0, *pool_id, *sender, rr.0)
                && old(ledger).balance_of(asset_pair.1, *pool_id) < rr.1) ==> r == Err::<
                Event,
                DispatchError,
            >(DispatchError::Ledger(LedgerError::InsufficientBalance)),
            !(lp_token_id == asset_pair.0 || lp_token_id == asset_pair.1) && (redemption_split(
                lp_token_amount,
                old(ledger).supply_of(lp_token_id),
                old(ledger).balance_of(asset_pair.0, pool_account_of(asset_pair)),
                old(ledger).balance_of(asset_pair.1, pool_account_of(asset_pair)),
            ) matches Some(rr) && old(ledger).can_transfer(asset_pair.0, *pool_id, *sender, rr.0)
                && old(ledger).can_transfer(asset_pair.1, *pool_id, *sender, rr.1) && old(ledger).balance_of(lp_token_id, *sender) < lp_token_amount) ==> r == Err::<
                Event,
                DispatchError,
            >(DispatchError::Ledger(LedgerError::InsufficientBalance)),
            !(lp_token_id == asset_pair.0 || lp_token_id == asset_pair.1) && (redemption_split(
                lp_token_amount,
                old(ledger).supply_of(lp_token_id),
                old(ledger).balance_of(asset_pair.0, pool_account_of(asset_pair)),
                old(ledger).balance_of(asset_pair.1, pool_account_of(asset_pair)),
            ) matches Some(rr) && old(ledger).can_transfer(asset_pair.0, *pool_id, *sender, rr.0)
                && old(ledger).can_transfer(asset_pair.1, *pool_id, *sender, rr.1) && old(ledger).balance_of(lp_token_id, *sender) >= lp_token_amount && old(ledger).supply_of(
                lp_token_id,
            ) < lp_token_amount) ==> r == Err::<Event, DispatchError>(DispatchError::Ledger(
                LedgerError::Overflow,
            )),
            r is Err && !(r == Err::<Event, DispatchError>(DispatchError::Module(
                Error::ProvidedInvalidAssetIds,
            )) || r == Err::<Event, DispatchError>(DispatchError::Module(Error::MathOverflow)) || r
                == Err::<Event, DispatchError>(DispatchError::Ledger(
                LedgerError::InsufficientBalance,
            ))) ==> r == Err::<Event, DispatchError>(DispatchError::Ledger(LedgerError::Overflow)),
            r is Err ==> *final(ledger) == *old(ledger),
            r matches Ok(ev) ==> (redemption_split(
                lp_token_amount,
                old(ledger).supply_of(lp_token_id),
                old(ledger).balance_of(asset_pair.0, pool_account_of(asset_pair)),
                old(ledger).balance_of(asset_pair.1, pool_account_of(asset_pair)),
            ) matches Some(rr) && ev == (Event::LiquidityRedeemed {
                pool_id: *pool_id,
                asset_pair,
                redeemed_token_amounts: rr,
            })),
            r is Ok && *sender != *pool_id ==> (redemption_split(
                lp_token_amount,
                old(ledger).supply_of(lp_token_id),
                old(ledger).balance_of(asset_pair.0, pool_account_of(asset_pair)),
                old(ledger).balance_of(asset_pair.1, pool_account_of(asset_pair)),
            ) matches Some(rr) && final(ledger).balance_of(asset_pair.0, *pool_id) == old(ledger).balance_of(asset_pair.0, *pool_id) - rr.0 && final(ledger).balance_of(
                asset_pair.0,
                *sender,
            ) == old(ledger).balance_of(asset_pair.0, *sender) + rr.0 && final(ledger).balance_of(
                asset_pair.1,
                *pool_id,
            ) == old(ledger).balance_of(asset_pair.1, *pool_id) - rr.1 && final(ledger).balance_of(
                asset_pair.1,
                *sender,
            ) == old(ledger).balance_of(asset_pair.1, *sender) + rr.1),
            r is Ok && *sender == *pool_id ==> final(ledger).balance_of(asset_pair.0, *sender)
                == old(ledger).balance_of(asset_pair.0, *sender) && final(ledger).balance_of(
                asset_pair.1,
                *sender,
            ) == old(ledger).balance_of(asset_pair.1, *sender),
            r is Ok ==> final(ledger).balance_of(lp_token_id, *sender) == old(ledger).balance_of(
                lp_token_id,
                *sender,
            ) - lp_token_amount && final(ledger).supply_of(lp_token_id) == old(ledger).supply_of(
                lp_token_id,
            ) - lp_token_amount,
            forall|a: u32|
                a != lp_token_id ==> (#[trigger] final(ledger).supply_of(a)) == old(ledger).supply_of(a),
            forall|a: u32|
                (#[trigger] final(ledger).asset_exists(a)) == old(ledger).asset_exists(a),
            forall|a: u32, c: u64|
                !((a == asset_pair.0 || a == asset_pair.1) && (c == *sender || c == *pool_id)) && !(
                a == lp_token_id && c == *sender) ==> (#[trigger] final(ledger).balance_of(a, c))
                    == old(ledger).balance_of(a, c),
    {
        if lp_token_id == asset_pair.0 || lp_token_id == asset_pair.1 {
            return Err(DispatchError::Module(Error::ProvidedInvalidAssetIds));
        }

        // Get pool data
        let pool_liquidity: (u128, u128) = match Self::get_pool_liquidity(ledger, asset_pair) {
            Ok(v) => v,
            Err(e) => { return Err(e) },
        };
        let total_lp_token_supply: u128 = ledger.total_supply(lp_token_id);
        let redeemed_token_amounts: (u128, u128) = match get_redeemed_token_balance(
            lp_token_amount,
            total_lp_token_supply,
            pool_liquidity,
        ) {
            Some(v) => v,
            None => { return Err(DispatchError::Module(Error::MathOverflow)) },
        };

        // Validate every step before performing any, so that a failure
        // leaves the ledger untouched.
        match Self::first_pool_transfer_failure(
            ledger,
            pool_id,
            sender,
            asset_pair,
            redeemed_token_amounts,
        ) {
            None => {},
            Some(e) => { return Err(DispatchError::Ledger(e)) },
        }
        let sender_lp_balance: u128 = ledger.balance(lp_token_id, *sender);
        if sender_lp_balance < lp_token_amount {
            return Err(DispatchError::Ledger(LedgerError::InsufficientBalance));
        }
        if total_lp_token_supply < lp_token_amount {
            return Err(DispatchError::Ledger(LedgerError::Overflow));
        }

        // Send the user their assets
        match ledger.transfer(asset_pair.0, *pool_id, *sender, redeemed_token_amounts.0) {
            Ok(()) => {},
            Err(e) => { return Err(DispatchError::Ledger(e)) },
        }
        match ledger.transfer(asset_pair.1, *pool_id, *sender, redeemed_token_amounts.1) {
            Ok(()) => {},
            Err(e) => { return Err(DispatchError::Ledger(e)) },
        }

        // Burn the LP tokens
        match ledger.burn(lp_token_id, *sender, lp_token_amount) {
            Ok(()) => {},
            Err(e) => { return Err(DispatchError::Ledger(e)) },
        }

        Ok(
            Event::LiquidityRedeemed {
                pool_id: *pool_id,
                asset_pair,
                redeemed_token_amounts,
            },
        )
    }
}

} // verus!
