//! Swapping one asset of a pool's pair for the other at the
//! constant-product price, with the protocol fee retained by the pool.

use crate::dex_math::{get_swap_return, lemma_swap_output_le_reserve, swap_output,
    SWAP_FEE_PERCENTAGE, SWAP_FEE_PERCENTAGE_DIVISOR};
use crate::impl_liquidity::pool_account_of;
use crate::ledger::{Ledger, LedgerError};
use crate::{DispatchError, Error, Event, Pallet};
use vstd::prelude::*;

verus! {

impl Pallet {
    /// Performs a swap of the pair's first asset for its second: prices
    /// the input against the pool's current reserves, moves the input to
    /// the pool and the output to the sender. Either both transfers are
    /// applied, or none is and the first failing step's error is
    /// returned.
    pub fn process_swap(
        ledger: &mut Ledger,
        sender: &u64,
        asset_pair: (u32, u32),
        asset_a_amount: u128,
    ) -> (r: Result<Event, DispatchError>)
        requires
            old(ledger).well_formed(),
            asset_pair.0 != asset_pair.1,
        ensures
            final(ledger).well_formed(),
            r is Ok <==> (swap_output(
                asset_a_amount,
                old(ledger).balance_of(asset_pair.0, pool_account_of(asset_pair)),
                old(ledger).balance_of(asset_pair.1, pool_account_of(asset_pair)),
                SWAP_FEE_PERCENTAGE,
                SWAP_FEE_PERCENTAGE_DIVISOR,
            ) matches Some(v) && old(ledger).can_transfer(
                asset_pair.0,
                *sender,
                pool_account_of(asset_pair),
                asset_a_amount,
            ) && old(ledger).can_transfer(asset_pair.1, pool_account_of(asset_pair), *sender, v)),
            swap_output(
                asset_a_amount,
                old(ledger).balance_of(asset_pair.0, pool_account_of(asset_pair)),
                old(ledger).balance_of(asset_pair.1, pool_account_of(asset_pair)),
                SWAP_FEE_PERCENTAGE,
                SWAP_FEE_PERCENTAGE_DIVISOR,
            ) is None ==> r == Err::<Event, DispatchError>(DispatchError::Module(Error::MathOverflow)),
            swap_output(
                asset_a_amount,
                old(ledger).balance_of(asset_pair.0, pool_account_of(asset_pair)),
                old(ledger).balance_of(asset_pair.1, pool_account_of(asset_pair)),
                SWAP_FEE_PERCENTAGE,
                SWAP_FEE_PERCENTAGE_DIVISOR,
            ) is Some && old(ledger).balance_of(asset_pair.0, *sender) < asset_a_amount ==> r
                == Err::<Event, DispatchError>(DispatchError::Ledger(
                LedgerError::InsufficientBalance,
            )),
            swap_output(
                asset_a_amount,
                old(ledger).balance_of(asset_pair.0, pool_account_of(asset_pair)),
                old(ledger).balance_of(asset_pair.1, pool_account_of(asset_pair)),
                SWAP_FEE_PERCENTAGE,
                SWAP_FEE_PERCENTAGE_DIVISOR,
            ) is Some && r is Err && old(ledger).balance_of(asset_pair.0, *sender)
                >= asset_a_amount ==> r == Err::<Event, DispatchError>(DispatchError::Ledger(
                LedgerError::Overflow,
            )),
            r is Err ==> *final(ledger) == *old(ledger),
            r matches Ok(ev) ==> (swap_output(
                asset_a_amount,
                old(ledger).balance_of(asset_pair.0, pool_account_of(asset_pair)),
                old(ledger).balance_of(asset_pair.1, pool_account_of(asset_pair)),
                SWAP_FEE_PERCENTAGE,
                SWAP_FEE_PERCENTAGE_DIVISOR,
            ) matches Some(v) && ev == (Event::TokensSwapped {
                pool_id: pool_account_of(asset_pair),
                asset_received: asset_pair.1,
                swap_return: v,
            })),
            r is Ok && *sender == pool_account_of(asset_pair) ==> *final(ledger) == *old(ledger),
            r is Ok && *sender != pool_account_of(asset_pair) ==> final(ledger).balance_of(
                asset_pair.0,
                *sender,
            ) == old(ledger).balance_of(asset_pair.0, *sender) - asset_a_amount && final(ledger).balance_of(asset_pair.0, pool_account_of(asset_pair)) == old(ledger).balance_of(
                asset_pair.0,
                pool_account_of(asset_pair),
            ) + asset_a_amount && final(ledger).balance_of(asset_pair.1, pool_account_of(asset_pair))
                == old(ledger).balance_of(asset_pair.1, pool_account_of(asset_pair)) - swap_output(
                asset_a_amount,
                old(ledger).balance_of(asset_pair.0, pool_account_of(asset_pair)),
                old(ledger).balance_of(asset_pair.1, pool_account_of(asset_pair)),
                SWAP_FEE_PERCENTAGE,
                SWAP_FEE_PERCENTAGE_DIVISOR,
            ).unwrap() && final(ledger).balance_of(asset_pair.1, *sender) == old(ledger).balance_of(asset_pair.1, *sender) + swap_output(
                asset_a_amount,
                old(ledger).balance_of(asset_pair.0, pool_account_of(asset_pair)),
                old(ledger).balance_of(asset_pair.1, pool_account_of(asset_pair)),
                SWAP_FEE_PERCENTAGE,
                SWAP_FEE_PERCENTAGE_DIVISOR,
            ).unwrap(),
            forall|a: u32, c: u64|
                !((a == asset_pair.0 || a == asset_pair.1) && (c == *sender || c
                    == pool_account_of(asset_pair))) ==> (#[trigger] final(ledger).balance_of(
                    a,
                    c,
                )) == old(ledger).balance_of(a, c),
            forall|a: u32|
                (#[trigger] final(ledger).asset_exists(a)) == old(ledger).asset_exists(a),
            forall|a: u32| (#[trigger] final(ledger).supply_of(a)) == old(ledger).supply_of(a),
    {
        // Get swap data
        let pool_id: u64 = Self::get_pool_id(asset_pair);
        let pool_liquidity: (u128, u128) = match Self::get_pool_liquidity(ledger, asset_pair) {
            Ok(v) => v,
            Err(e) => { return Err(e) },
        };
        let swap_return: u128 = match get_swap_return(asset_a_amount, pool_liquidity) {
            Ok(v) => v,
            Err(e) => { return Err(DispatchError::Module(e)) },
        };
        proof {
            lemma_swap_output_le_reserve(
                asset_a_amount,
                pool_liquidity.0,
                pool_liquidity.1,
                SWAP_FEE_PERCENTAGE,
                SWAP_FEE_PERCENTAGE_DIVISOR,
                swap_return,
            );
        }

        // Validate both transfers before performing either, so that a
        // failure leaves the ledger untouched.
        let sender_in_balance: u128 = ledger.balance(asset_pair.0, *sender);
        if sender_in_balance < asset_a_amount {
            return Err(DispatchError::Ledger(LedgerError::InsufficientBalance));
        }
        if *sender != pool_id && asset_a_amount != 0 {
            let pool_in_balance: u128 = ledger.balance(asset_pair.0, pool_id);
            if pool_in_balance.checked_add(asset_a_amount).is_none() {
                return Err(DispatchError::Ledger(LedgerError::Overflow));
            }
        }
        if *sender != pool_id && swap_return != 0 {
            let sender_out_balance: u128 = ledger.balance(asset_pair.1, *sender);
            if sender_out_balance.checked_add(swap_return).is_none() {
                return Err(DispatchError::Ledger(LedgerError::Overflow));
            }
        }

        // Send tokens into pool
        match ledger.transfer(asset_pair.0, *sender, pool_id, asset_a_amount) {
            Ok(()) => {},
            Err(e) => { return Err(DispatchError::Ledger(e)) },
        }

        // Send tokens to users
        match ledger.transfer(asset_pair.1, pool_id, *sender, swap_return) {
            Ok(()) => {},
            Err(e) => { return Err(DispatchError::Ledger(e)) },
        }

        Ok(
            Event::TokensSwapped {
                pool_id,
                asset_received: asset_pair.1,
                swap_return,
            },
        )
    }
}

} // verus!
