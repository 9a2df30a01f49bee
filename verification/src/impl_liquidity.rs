//! Pool identity resolution and the ledger-facing liquidity helpers.
//!
//! An asset pair is canonicalized by sorting its two ids ascending; the
//! pool's account is a twox-128 digest of the canonical pair's byte
//! encoding truncated into the account space, and the pool's LP token id
//! is a digest of the pool account truncated into the asset-id space.

use crate::dex_math::{get_token_b_amount, second_asset_amount};
use crate::ledger::{Ledger, LedgerError};
use crate::{DispatchError, Error, Pallet};
use vstd::bytes::{
    spec_u32_from_le_bytes, spec_u32_to_le_bytes, spec_u64_from_le_bytes, spec_u64_to_le_bytes,
    u32_from_le_bytes, u32_to_le_bytes, u64_from_le_bytes, u64_to_le_bytes,
};
use vstd::prelude::*;
use vstd::slice::slice_subrange;

verus! {

/// The engine's own ledger account: a fixed address reserved for the
/// pallet itself, which owns the LP token assets it creates.
pub const PALLET_ACCOUNT: u64 = 0x706c_7865_645f_7970;

/// The 128-bit twox digest of a byte string, as produced by the outside
/// hashing routine; a pure function of the bytes alone.
pub uninterp spec fn twox128_of(data: Seq<u8>) -> Seq<u8>;

/// The canonical form of an asset pair: the two ids sorted ascending.
pub open spec fn sorted_pair(asset_pair: (u32, u32)) -> (u32, u32) {
    if asset_pair.0 <= asset_pair.1 {
        asset_pair
    } else {
        (asset_pair.1, asset_pair.0)
    }
}

/// The byte encoding of the canonical pair that is hashed into a pool
/// account: the little-endian bytes of the lower id then of the higher.
pub open spec fn pair_seed(asset_pair: (u32, u32)) -> Seq<u8> {
    spec_u32_to_le_bytes(sorted_pair(asset_pair).0) + spec_u32_to_le_bytes(
        sorted_pair(asset_pair).1,
    )
}

/// The pool account for an asset pair: the twox-128 digest of the
/// canonical pair's byte encoding, truncated into the account space.
pub open spec fn pool_account_of(asset_pair: (u32, u32)) -> u64 {
    spec_u64_from_le_bytes(twox128_of(pair_seed(asset_pair)).subrange(0, 8))
}

/// The LP token id for a pool: the twox-128 digest of the pool account's
/// byte encoding, truncated into the asset-id space.
pub open spec fn lp_token_id_of(pool_id: u64) -> u32 {
    spec_u32_from_le_bytes(twox128_of(spec_u64_to_le_bytes(pool_id)).subrange(0, 4))
}

/// Relies on sp_core_hashing::twox_128: the 128-bit twox digest of the
/// input bytes, a deterministic pure function of the bytes alone.
#[verifier::external_body]
fn twox_128(data: &Vec<u8>) -> (r: [u8; 16])
    ensures
        r@ == twox128_of(data@),
{
    sp_core_hashing::twox_128(data.as_slice())
}

/// Pool identity is symmetric in the asset pair: both orders of the same
/// two assets canonicalize alike, so they resolve to the same pool
/// account, and hence also to the same LP token id.
pub proof fn lemma_pool_id_symmetric(asset_a: u32, asset_b: u32)
    ensures
        pool_account_of((asset_a, asset_b)) == pool_account_of((asset_b, asset_a)),
{
    assert(sorted_pair((asset_a, asset_b)) == sorted_pair((asset_b, asset_a)));
}

impl Pallet {
    /// The engine's own account, owner of the LP token assets it creates.
    pub fn account_id() -> (r: u64)
        ensures
            r == PALLET_ACCOUNT,
    {
        PALLET_ACCOUNT
    }

    /// Truncates a 16-byte digest into the account space by reading its
    /// first eight bytes as a little-endian integer.
    pub fn sub_account_id(sub: &[u8; 16]) -> (r: u64)
        ensures
            r == spec_u64_from_le_bytes(sub@.subrange(0, 8)),
    {
        let prefix: &[u8] = slice_subrange(sub.as_slice(), 0, 8);
        u64_from_le_bytes(prefix)
    }

    /// The deterministic pool account for an asset pair; see
    /// `pool_account_of`.
    pub fn get_pool_id(asset_pair: (u32, u32)) -> (r: u64)
        ensures
            r == pool_account_of(asset_pair),
    {
        let lower: u32 = if asset_pair.0 <= asset_pair.1 {
            asset_pair.0
        } else {
            asset_pair.1
        };
        let higher: u32 = if asset_pair.0 <= asset_pair.1 {
            asset_pair.1
        } else {
            asset_pair.0
        };
        let mut seed: Vec<u8> = u32_to_le_bytes(lower);
        let mut higher_bytes: Vec<u8> = u32_to_le_bytes(higher);
        seed.append(&mut higher_bytes);
        assert(seed@ == pair_seed(asset_pair));
        let hashed_assets: [u8; 16] = twox_128(&seed);
        Self::sub_account_id(&hashed_assets)
    }

    /// The deterministic LP token id for a pool; see `lp_token_id_of`.
    pub fn get_lp_token_id(pool_id: &u64) -> (r: u32)
        ensures
            r == lp_token_id_of(*pool_id),
    {
        let pool_id_bytes: Vec<u8> = u64_to_le_bytes(*pool_id);
        let pool_id_hash: [u8; 16] = twox_128(&pool_id_bytes);
        let prefix: &[u8] = slice_subrange(pool_id_hash.as_slice(), 0, 4);
        u32_from_le_bytes(prefix)
    }

    /// The engine account's own holding of an asset.
    pub fn pot(ledger: &Ledger, asset_id: u32) -> (r: u128)
        requires
            ledger.well_formed(),
        ensures
            r == ledger.balance_of(asset_id, PALLET_ACCOUNT),
    {
        ledger.balance(asset_id, Self::account_id())
    }

    /// A derived sub-account's holding of an asset.
    pub fn sub_pot(ledger: &Ledger, asset_id: u32, sub: &[u8; 16]) -> (r: u128)
        requires
            ledger.well_formed(),
        ensures
            r == ledger.balance_of(asset_id, spec_u64_from_le_bytes(sub@.subrange(0, 8))),
    {
        ledger.balance(asset_id, Self::sub_account_id(sub))
    }

    /// Whether `sender` holds at least `amount` of `asset`.
    pub fn has_enough_tokens(ledger: &Ledger, asset: u32, amount: u128, sender: &u64) -> (r: bool)
        requires
            ledger.well_formed(),
        ensures
            r == (ledger.balance_of(asset, *sender) >= amount),
    {
        let asset_balance: u128 = ledger.balance(asset, *sender);
        asset_balance >= amount
    }

    /// Ok exactly when `sender` holds at least the required amount of both
    /// assets of the pair; otherwise the engine's short-balance error.
    pub fn has_enough_of_both_tokens(
        ledger: &Ledger,
        sender: &u64,
        asset_pair: (u32, u32),
        asset_amounts: (u128, u128),
    ) -> (r: Result<(), DispatchError>)
        requires
            ledger.well_formed(),
        ensures
            r is Ok <==> (ledger.balance_of(asset_pair.0, *sender) >= asset_amounts.0
                && ledger.balance_of(asset_pair.1, *sender) >= asset_amounts.1),
            r is Err ==> r == Err::<(), DispatchError>(
                DispatchError::Module(Error::NotEnoughTokensForTransaction),
            ),
    {
        if Self::has_enough_tokens(ledger, asset_pair.0, asset_amounts.0, sender)
            && Self::has_enough_tokens(ledger, asset_pair.1, asset_amounts.1, sender) {
            return Ok(());
        }
        Err(DispatchError::Module(Error::NotEnoughTokensForTransaction))
    }

    /// Validates a deposit: the pair's ids must differ, and the sender
    /// must hold both amounts; states exactly which error comes when not.
    pub fn check_deposit_is_valid(
        ledger: &Ledger,
        sender: &u64,
        asset_pair: (u32, u32),
        asset_amounts: (u128, u128),
    ) -> (r: Result<(), DispatchError>)
        requires
            ledger.well_formed(),
        ensures
            r is Ok <==> (asset_pair.0 != asset_pair.1 && ledger.balance_of(
                asset_pair.0,
                *sender,
            ) >= asset_amounts.0 && ledger.balance_of(asset_pair.1, *sender) >= asset_amounts.1),
            asset_pair.0 == asset_pair.1 ==> r == Err::<(), DispatchError>(
                DispatchError::Module(Error::ProvidedInvalidAssetIds),
            ),
            asset_pair.0 != asset_pair.1 && r is Err ==> r == Err::<(), DispatchError>(
                DispatchError::Module(Error::NotEnoughTokensForTransaction),
            ),
    {
        if asset_pair.0 == asset_pair.1 {
            return Err(DispatchError::Module(Error::ProvidedInvalidAssetIds));
        }
        Self::has_enough_of_both_tokens(ledger, sender, asset_pair, asset_amounts)?;
        Ok(())
    }

    /// The pool's current reserves of the two assets of the pair, read
    /// from the ledger on demand.
    pub fn get_pool_liquidity(ledger: &Ledger, asset_pair: (u32, u32)) -> (r: Result<
        (u128, u128),
        DispatchError,
    >)
        requires
            ledger.well_formed(),
        ensures
            r == Ok::<(u128, u128), DispatchError>(
                (
                    ledger.balance_of(asset_pair.0, pool_account_of(asset_pair)),
                    ledger.balance_of(asset_pair.1, pool_account_of(asset_pair)),
                ),
            ),
    {
        let pool_id: u64 = Self::get_pool_id(asset_pair);
        let token_a_liquidity: u128 = ledger.balance(asset_pair.0, pool_id);
        let token_b_liquidity: u128 = ledger.balance(asset_pair.1, pool_id);
        Ok((token_a_liquidity, token_b_liquidity))
    }

    /// The matching amount of the second asset for a deposit of the
    /// first, at the pool's current reserve ratio; `MathOverflow` exactly
    /// when the scaled math cannot be computed.
    pub fn derive_second_asset_amount(pool_liquidity: (u128, u128), asset_a_amount: u128) -> (r:
        Result<u128, DispatchError>)
        ensures
            r is Ok <==> second_asset_amount(
                asset_a_amount,
                pool_liquidity.0,
                pool_liquidity.1,
            ) is Some,
            r matches Ok(v) ==> second_asset_amount(
                asset_a_amount,
                pool_liquidity.0,
                pool_liquidity.1,
            ) == Some(v),
            r is Err ==> r == Err::<u128, DispatchError>(DispatchError::Module(Error::MathOverflow)),
    {
        match get_token_b_amount(asset_a_amount, pool_liquidity) {
            Some(amount) => Ok(amount),
            None => Err(DispatchError::Module(Error::MathOverflow)),
        }
    }

    /// Prepares the pool account for an asset pair. The pool account needs
    /// no funding of its own in this model, so this resolves the pair's
    /// identity.
    pub fn initialize_pool(asset_pair: (u32, u32)) -> (r: u64)
        ensures
            r == pool_account_of(asset_pair),
    {
        Self::get_pool_id(asset_pair)
    }

    /// The failure the pair of deposit transfers would report, if any,
    /// without performing them, checked in the order the transfers run.
    pub(crate) fn first_pool_transfer_failure(
        ledger: &Ledger,
        sender: &u64,
        pool_id: &u64,
        asset_pair: (u32, u32),
        asset_amounts: (u128, u128),
    ) -> (r: Option<LedgerError>)
        requires
            ledger.well_formed(),
        ensures
            r is None <==> (ledger.can_transfer(asset_pair.0, *sender, *pool_id, asset_amounts.0)
                && ledger.can_transfer(asset_pair.1, *sender, *pool_id, asset_amounts.1)),
            ledger.balance_of(asset_pair.0, *sender) < asset_amounts.0 ==> r == Some(
                LedgerError::InsufficientBalance,
            ),
            ledger.balance_of(asset_pair.0, *sender) >= asset_amounts.0 && !ledger.can_transfer(
                asset_pair.0,
                *sender,
                *pool_id,
                asset_amounts.0,
            ) ==> r == Some(LedgerError::Overflow),
            ledger.can_transfer(asset_pair.0, *sender, *pool_id, asset_amounts.0)
                && ledger.balance_of(asset_pair.1, *sender) < asset_amounts.1 ==> r == Some(
                LedgerError::InsufficientBalance,
            ),
            ledger.can_transfer(asset_pair.0, *sender, *pool_id, asset_amounts.0)
                && ledger.balance_of(asset_pair.1, *sender) >= asset_amounts.1
                && !ledger.can_transfer(asset_pair.1, *sender, *pool_id, asset_amounts.1) ==> r
                == Some(LedgerError::Overflow),
    {
        let first_balance: u128 = ledger.balance(asset_pair.0, *sender);
        if first_balance < asset_amounts.0 {
            return Some(LedgerError::InsufficientBalance);
        }
        if *sender != *pool_id && asset_amounts.0 != 0 {
            let pool_first_balance: u128 = ledger.balance(asset_pair.0, *pool_id);
            if pool_first_balance.checked_add(asset_amounts.0).is_none() {
                return Some(LedgerError::Overflow);
            }
        }
        let second_balance: u128 = ledger.balance(asset_pair.1, *sender);
        if second_balance < asset_amounts.1 {
            return Some(LedgerError::InsufficientBalance);
        }
        if *sender != *pool_id && asset_amounts.1 != 0 {
            let pool_second_balance: u128 = ledger.balance(asset_pair.1, *pool_id);
            if pool_second_balance.checked_add(asset_amounts.1).is_none() {
                return Some(LedgerError::Overflow);
            }
        }
        None
    }

    /// Moves both deposit amounts from the sender to the pool, or moves
    /// nothing and reports the failure the first failing transfer would
    /// have reported.
    pub fn transfer_tokens_to_pool(
        ledger: &mut Ledger,
        sender: &u64,
        pool_id: &u64,
        asset_pair: (u32, u32),
        asset_amounts: (u128, u128),
    ) -> (r: Result<(), DispatchError>)
        requires
            old(ledger).well_formed(),
            asset_pair.0 != asset_pair.1,
        ensures
            final(ledger).well_formed(),
            r is Ok <==> (old(ledger).can_transfer(asset_pair.0, *sender, *pool_id, asset_amounts.0)
                && old(ledger).can_transfer(asset_pair.1, *sender, *pool_id, asset_amounts.1)),
            r is Err ==> *final(ledger) == *old(ledger),
            old(ledger).balance_of(asset_pair.0, *sender) < asset_amounts.0 ==> r == Err::<
                (),
                DispatchError,
            >(DispatchError::Ledger(LedgerError::InsufficientBalance)),
            old(ledger).balance_of(asset_pair.0, *sender) >= asset_amounts.0 && !old(ledger).can_transfer(asset_pair.0, *sender, *pool_id, asset_amounts.0) ==> r == Err::<
                (),
                DispatchError,
            >(DispatchError::Ledger(LedgerError::Overflow)),
            old(ledger).can_transfer(asset_pair.0, *sender, *pool_id, asset_amounts.0) && old(ledger).balance_of(asset_pair.1, *sender) < asset_amounts.1 ==> r == Err::<
                (),
                DispatchError,
            >(DispatchError::Ledger(LedgerError::InsufficientBalance)),
            old(ledger).can_transfer(asset_pair.0, *sender, *pool_id, asset_amounts.0) && old(ledger).balance_of(asset_pair.1, *sender) >= asset_amounts.1 && !old(ledger).can_transfer(
                asset_pair.1,
                *sender,
                *pool_id,
                asset_amounts.1,
            ) ==> r == Err::<(), DispatchError>(DispatchError::Ledger(LedgerError::Overflow)),
            r is Ok && *sender == *pool_id ==> *final(ledger) == *old(ledger),
            r is Ok && *sender != *pool_id ==> final(ledger).balance_of(asset_pair.0, *sender)
                == old(ledger).balance_of(asset_pair.0, *sender) - asset_amounts.0 && final(ledger).balance_of(asset_pair.1, *sender) == old(ledger).balance_of(asset_pair.1, *sender)
                - asset_amounts.1 && final(ledger).balance_of(asset_pair.0, *pool_id) == old(ledger).balance_of(asset_pair.0, *pool_id) + asset_amounts.0 && final(ledger).balance_of(
                asset_pair.1,
                *pool_id,
            ) == old(ledger).balance_of(asset_pair.1, *pool_id) + asset_amounts.1,
            forall|a: u32, c: u64|
                !((a == asset_pair.0 || a == asset_pair.1) && (c == *sender || c == *pool_id))
                    ==> (#[trigger] final(ledger).balance_of(a, c)) == old(ledger).balance_of(a, c),
            forall|a: u32|
                (#[trigger] final(ledger).asset_exists(a)) == old(ledger).asset_exists(a),
            forall|a: u32| (#[trigger] final(ledger).supply_of(a)) == old(ledger).supply_of(a),
    {
        match Self::first_pool_transfer_failure(ledger, sender, pool_id, asset_pair, asset_amounts)
        {
            None => {},
            Some(e) => { return Err(DispatchError::Ledger(e)) },
        }
        match ledger.transfer(asset_pair.0, *sender, *pool_id, asset_amounts.0) {
            Ok(()) => {},
            Err(e) => { return Err(DispatchError::Ledger(e)) },
        }
        match ledger.transfer(asset_pair.1, *sender, *pool_id, asset_amounts.1) {
            Ok(()) => {},
            Err(e) => { return Err(DispatchError::Ledger(e)) },
        }
        Ok(())
    }
}

} // verus!
