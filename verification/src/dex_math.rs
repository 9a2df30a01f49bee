//! The fixed-point math kernel: checked, integer-only formulas for
//! liquidity-provider token accounting and constant-product swap pricing.
//!
//! Every operation signals `None` (or `Error::MathOverflow`) instead of
//! wrapping or panicking on overflow. Intermediate divisions are scaled by
//! `MULTIPLIER` so that rounding error stays within one scale unit, and a
//! reserve or supply of exactly zero is substituted with 1 wherever it
//! appears as a divisor, so a never-funded pool degrades to zero output
//! instead of failing on a division by zero.

use crate::Error;
use vstd::arithmetic::div_mod::{lemma_div_multiples_vanish, lemma_div_of0, lemma_div_pos_is_pos,
    lemma_fundamental_div_mod};
use vstd::prelude::*;

verus! {

/// Scale factor applied before intermediate truncating divisions.
pub const MULTIPLIER: u128 = 1_000;

/// Protocol fee numerator: divide by `SWAP_FEE_PERCENTAGE_DIVISOR` to get
/// the decimal fee rate. E.g. 1 = 0.1%, 10 = 1%, 100 = 10%.
pub const SWAP_FEE_PERCENTAGE: u128 = 100;

/// Denominator of the protocol fee rate.
pub const SWAP_FEE_PERCENTAGE_DIVISOR: u128 = MULTIPLIER;

/// The zero-guard policy for divisors: a reserve or supply of exactly zero
/// is treated as 1 for the purpose of ratio division.
pub open spec fn zero_guarded(x: u128) -> u128 {
    if x == 0 { 1u128 } else { x }
}

/// Executable form of the zero-guard; see `zero_guarded`.
pub fn guard_divisor(x: u128) -> (r: u128)
    ensures
        r == zero_guarded(x),
{
    if x == 0 { 1 } else { x }
}

/// `r` is the floor of the square root of `k`.
pub open spec fn is_floor_sqrt(k: int, r: int) -> bool {
    &&& 0 <= r
    &&& r * r <= k
    &&& k < (r + 1) * (r + 1)
}

/// The floor of the square root of `k`; meaningful for `k >= 0`, where
/// `lemma_floor_sqrt_exists` shows the witness exists and
/// `lemma_floor_sqrt_unique` shows it is unique.
pub open spec fn floor_sqrt(k: int) -> int {
    choose|r: int| is_floor_sqrt(k, r)
}

/// Every nonnegative integer has a floor square root, so `floor_sqrt`
/// denotes it.
pub proof fn lemma_floor_sqrt_exists(k: int)
    requires
        0 <= k,
    ensures
        is_floor_sqrt(k, floor_sqrt(k)),
    decreases k,
{
    if k == 0 {
        assert(is_floor_sqrt(0, 0));
    } else {
        lemma_floor_sqrt_exists(k - 1);
        let r = floor_sqrt(k - 1);
        if k < (r + 1) * (r + 1) {
            assert(is_floor_sqrt(k, r));
        } else {
            assert((r + 1) * (r + 1) == k);
            assert((r + 1) * (r + 1) < (r + 2) * (r + 2)) by (nonlinear_arith)
                requires
                    r >= 0,
            ;
            assert(is_floor_sqrt(k, r + 1));
        }
    }
    let w = choose|w: int| is_floor_sqrt(k, w);
    assert(is_floor_sqrt(k, w));
}

/// LP tokens minted to the first depositor of a fresh pool: the floor of
/// the square root of the product of the two deposits. `None` exactly when
/// the product exceeds `u128::MAX`.
pub open spec fn initial_lp_mint(amount_a: u128, amount_b: u128) -> Option<u128> {
    if amount_a * amount_b > u128::MAX {
        None
    } else {
        Some(floor_sqrt(amount_a * amount_b) as u128)
    }
}

/// LP tokens minted for a deposit into a pool that already has liquidity:
/// `deposit * supply / reserve`, computed at scale `MULTIPLIER` with both
/// divisors zero-guarded. `None` exactly when an intermediate product
/// exceeds `u128::MAX`.
pub open spec fn proportional_lp_mint(
    deposit_amount: u128,
    reserve_amount: u128,
    total_lp_supply: u128,
) -> Option<u128> {
    let reserve = zero_guarded(reserve_amount) as int;
    let supply = zero_guarded(total_lp_supply) as int;
    if deposit_amount * MULTIPLIER > u128::MAX {
        None
    } else {
        let lp_share = (deposit_amount * MULTIPLIER) / reserve;
        if lp_share * supply > u128::MAX {
            None
        } else {
            Some(((lp_share * supply) / (MULTIPLIER as int)) as u128)
        }
    }
}

/// The second deposit amount that keeps an existing reserve ratio:
/// `deposit_a * reserve_b / reserve_a`, computed through the scaled ratio
/// `reserve_a * MULTIPLIER / reserve_b`. `None` exactly when a scaled
/// product exceeds `u128::MAX` or the scaled ratio truncates to zero.
pub open spec fn second_asset_amount(
    deposit_amount_a: u128,
    reserve_a: u128,
    reserve_b: u128,
) -> Option<u128> {
    let la = zero_guarded(reserve_a) as int;
    let lb = zero_guarded(reserve_b) as int;
    if la * MULTIPLIER > u128::MAX {
        None
    } else {
        let ratio = (la * MULTIPLIER) / lb;
        if deposit_amount_a * MULTIPLIER > u128::MAX {
            None
        } else if ratio == 0 {
            None
        } else {
            Some(((deposit_amount_a * MULTIPLIER) / ratio) as u128)
        }
    }
}

/// The reserves owed for redeeming `lp_tokens` out of `total_lp_supply`:
/// each reserve times `lp_tokens / total_lp_supply`, computed at scale
/// `MULTIPLIER`. `None` exactly when an intermediate product exceeds
/// `u128::MAX`.
pub open spec fn redemption_split(
    lp_tokens: u128,
    total_lp_supply: u128,
    reserve_a: u128,
    reserve_b: u128,
) -> Option<(u128, u128)> {
    let supply = zero_guarded(total_lp_supply) as int;
    let la = zero_guarded(reserve_a) as int;
    let lb = zero_guarded(reserve_b) as int;
    if lp_tokens * MULTIPLIER > u128::MAX {
        None
    } else {
        let lp_share = (lp_tokens * MULTIPLIER) / supply;
        if lp_share * la > u128::MAX {
            None
        } else if lp_share * lb > u128::MAX {
            None
        } else {
            Some((((lp_share * la) / (MULTIPLIER as int)) as u128, ((lp_share * lb) / (
            MULTIPLIER as int)) as u128))
        }
    }
}

/// Constant-product swap pricing with a retained fee. With zero-guarded
/// reserves `ra`, `rb`: the ideal new output reserve is
/// `ra * rb / (ra + amount_in)`, and the trader receives the reserve
/// decrease scaled by `(fee_denominator - fee_numerator) / fee_denominator`.
/// `None` exactly when a checked step overflows, underflows, or divides by
/// zero.
pub open spec fn swap_output(
    amount_in: u128,
    reserve_in: u128,
    reserve_out: u128,
    fee_numerator: u128,
    fee_denominator: u128,
) -> Option<u128> {
    let ra = zero_guarded(reserve_in) as int;
    let rb = zero_guarded(reserve_out) as int;
    if fee_denominator < fee_numerator {
        None
    } else {
        let retained = fee_denominator - fee_numerator;
        if ra * rb > u128::MAX {
            None
        } else {
            let new_reserve_in = ra + amount_in;
            if new_reserve_in > u128::MAX {
                None
            } else {
                let ideal_new_reserve_out = (ra * rb) / new_reserve_in;
                if rb < ideal_new_reserve_out {
                    None
                } else {
                    let raw_decrease = rb - ideal_new_reserve_out;
                    if raw_decrease * retained > u128::MAX {
                        None
                    } else if fee_denominator == 0 {
                        None
                    } else {
                        Some(((raw_decrease * retained) / (fee_denominator as int)) as u128)
                    }
                }
            }
        }
    }
}

/// Relies on the `IntegerSquareRoot` trait re-exported by
/// `sp_arithmetic::traits` (from the integer-sqrt crate): for an unsigned
/// integer it always returns `Some` of the floor of the square root.
#[verifier::external_body]
fn integer_sqrt_checked(k: u128) -> (r: Option<u128>)
    ensures
        r is Some,
        r matches Some(v) ==> is_floor_sqrt(k as int, v as int),
{
    sp_arithmetic::traits::IntegerSquareRoot::integer_sqrt_checked(&k)
}

/// LP tokens minted to the first depositor of a fresh pool: the floor of
/// the square root of the product of the two deposits, so the initial LP
/// share is independent of which asset comes first; see `initial_lp_mint`.
pub fn get_lp_tokens_for_new_pool(token_a_amount: u128, token_b_amount: u128) -> (r: Option<u128>)
    ensures
        r == initial_lp_mint(token_a_amount, token_b_amount),
        r matches Some(v) ==> is_floor_sqrt(token_a_amount * token_b_amount, v as int),
{
    let k: Option<u128> = token_a_amount.checked_mul(token_b_amount);
    match k {
        Some(k) => {
            let r: Option<u128> = integer_sqrt_checked(k);
            proof {
                lemma_floor_sqrt_exists(k as int);
                if let Some(v) = r {
                    lemma_floor_sqrt_unique(k as int, v as int, floor_sqrt(k as int));
                }
            }
            r
        },
        None => None,
    }
}

/// LP tokens minted for a deposit into a pool that already has liquidity;
/// see `proportional_lp_mint`.
pub fn get_lp_tokens_for_existing_pool(
    new_token_amount: u128,
    current_token_amount: u128,
    total_lp_token_supply: u128,
) -> (r: Option<u128>)
    ensures
        r == proportional_lp_mint(new_token_amount, current_token_amount, total_lp_token_supply),
{
    let current_token_amount: u128 = guard_divisor(current_token_amount);
    let total_lp_token_supply: u128 = guard_divisor(total_lp_token_supply);

    let large_new_token_amount: Option<u128> = new_token_amount.checked_mul(MULTIPLIER);
    match large_new_token_amount {
        Some(large_new_token_amount) => {
            let lp_share: u128 = large_new_token_amount / current_token_amount;
            match lp_share.checked_mul(total_lp_token_supply) {
                Some(scaled_lp_amount) => Some(scaled_lp_amount / MULTIPLIER),
                None => None,
            }
        },
        None => None,
    }
}

/// The amount of the second asset that keeps the pool's reserve ratio for
/// a given deposit of the first; see `second_asset_amount`.
pub fn get_token_b_amount(token_a_amount: u128, liquidity_amounts: (u128, u128)) -> (r: Option<
    u128,
>)
    ensures
        r == second_asset_amount(token_a_amount, liquidity_amounts.0, liquidity_amounts.1),
{
    let liquidity_a_amount: u128 = guard_divisor(liquidity_amounts.0);
    let liquidity_b_amount: u128 = guard_divisor(liquidity_amounts.1);

    match liquidity_a_amount.checked_mul(MULTIPLIER) {
        Some(large_liquidity_a) => {
            let liquidity_ratio: u128 = large_liquidity_a / liquidity_b_amount;
            match token_a_amount.checked_mul(MULTIPLIER) {
                Some(large_token_a) => large_token_a.checked_div(liquidity_ratio),
                None => None,
            }
        },
        None => None,
    }
}

/// The swap return for a deposit of the first asset against the pool's
/// current reserves, at the protocol fee; see `swap_output`.
pub fn get_swap_return(token_a_amount: u128, liquidity_amounts: (u128, u128)) -> (r: Result<
    u128,
    Error,
>)
    ensures
        r is Ok <==> swap_output(
            token_a_amount,
            liquidity_amounts.0,
            liquidity_amounts.1,
            SWAP_FEE_PERCENTAGE,
            SWAP_FEE_PERCENTAGE_DIVISOR,
        ) is Some,
        r matches Ok(v) ==> swap_output(
            token_a_amount,
            liquidity_amounts.0,
            liquidity_amounts.1,
            SWAP_FEE_PERCENTAGE,
            SWAP_FEE_PERCENTAGE_DIVISOR,
        ) == Some(v),
        r is Err ==> r == Err::<u128, Error>(Error::MathOverflow),
{
    let liquidity_a_amount: u128 = guard_divisor(liquidity_amounts.0);
    let liquidity_b_amount: u128 = guard_divisor(liquidity_amounts.1);

    let returned_fee_percentage_multiplier: u128 =
        match SWAP_FEE_PERCENTAGE_DIVISOR.checked_sub(SWAP_FEE_PERCENTAGE) {
        Some(v) => v,
        None => { return Err(Error::MathOverflow) },
    };

    let constant_product: u128 = match liquidity_a_amount.checked_mul(liquidity_b_amount) {
        Some(v) => v,
        None => { return Err(Error::MathOverflow) },
    };

    let new_token_a_liquidity: u128 = match liquidity_a_amount.checked_add(token_a_amount) {
        Some(v) => v,
        None => { return Err(Error::MathOverflow) },
    };

    let new_token_b_liquidity: u128 = match constant_product.checked_div(new_token_a_liquidity) {
        Some(v) => v,
        None => { return Err(Error::MathOverflow) },
    };

    let total_b_decrease: u128 = match liquidity_b_amount.checked_sub(new_token_b_liquidity) {
        Some(v) => v,
        None => { return Err(Error::MathOverflow) },
    };

    let returned_large_amount: u128 = match total_b_decrease.checked_mul(
        returned_fee_percentage_multiplier,
    ) {
        Some(v) => v,
        None => { return Err(Error::MathOverflow) },
    };

    let returned_token_b_amount_minus_fee: u128 = match returned_large_amount.checked_div(
        SWAP_FEE_PERCENTAGE_DIVISOR,
    ) {
        Some(v) => v,
        None => { return Err(Error::MathOverflow) },
    };

    Ok(returned_token_b_amount_minus_fee)
}

/// The reserves owed for redeeming LP tokens; see `redemption_split`.
pub fn get_redeemed_token_balance(
    lp_tokens: u128,
    total_lp_token_supply: u128,
    liquidity_amounts: (u128, u128),
) -> (r: Option<(u128, u128)>)
    ensures
        r == redemption_split(
            lp_tokens,
            total_lp_token_supply,
            liquidity_amounts.0,
            liquidity_amounts.1,
        ),
{
    let total_lp_token_supply: u128 = guard_divisor(total_lp_token_supply);
    let liquidity_a_amount: u128 = guard_divisor(liquidity_amounts.0);
    let liquidity_b_amount: u128 = guard_divisor(liquidity_amounts.1);

    let large_lp_token_amount: Option<u128> = lp_tokens.checked_mul(MULTIPLIER);
    match large_lp_token_amount {
        Some(large_lp_token_amount) => {
            let lp_share: u128 = large_lp_token_amount / total_lp_token_supply;
            let scaled_a: u128 = match lp_share.checked_mul(liquidity_a_amount) {
                Some(v) => v,
                None => { return None },
            };
            let scaled_b: u128 = match lp_share.checked_mul(liquidity_b_amount) {
                Some(v) => v,
                None => { return None },
            };
            Some((scaled_a / MULTIPLIER, scaled_b / MULTIPLIER))
        },
        None => None,
    }
}

/// The floor square root of `k` is unique: any two values satisfying
/// `is_floor_sqrt` for the same `k` are equal, so the contract of
/// `get_lp_tokens_for_new_pool` pins its result exactly.
pub proof fn lemma_floor_sqrt_unique(k: int, r1: int, r2: int)
    requires
        is_floor_sqrt(k, r1),
        is_floor_sqrt(k, r2),
    ensures
        r1 == r2,
{
    if r1 < r2 {
        assert((r1 + 1) * (r1 + 1) <= r2 * r2) by (nonlinear_arith)
            requires
                0 <= r1 + 1 <= r2,
        ;
    }
    if r2 < r1 {
        assert((r2 + 1) * (r2 + 1) <= r1 * r1) by (nonlinear_arith)
            requires
                0 <= r2 + 1 <= r1,
        ;
    }
}

/// Redeeming the entire LP supply of a funded pool returns exactly the
/// full reserves: the scaled share of the full supply is exactly
/// `MULTIPLIER`, so both truncating divisions are exact.
pub proof fn lemma_full_redemption_returns_reserves(
    total_lp_supply: u128,
    reserve_a: u128,
    reserve_b: u128,
)
    requires
        0 < total_lp_supply,
        0 < reserve_a,
        0 < reserve_b,
        total_lp_supply * MULTIPLIER <= u128::MAX,
        reserve_a * MULTIPLIER <= u128::MAX,
        reserve_b * MULTIPLIER <= u128::MAX,
    ensures
        redemption_split(total_lp_supply, total_lp_supply, reserve_a, reserve_b) == Some(
            (reserve_a, reserve_b),
        ),
{
    let supply = total_lp_supply as int;
    let m = MULTIPLIER as int;
    assert(zero_guarded(total_lp_supply) == total_lp_supply);
    assert(zero_guarded(reserve_a) == reserve_a);
    assert(zero_guarded(reserve_b) == reserve_b);
    lemma_div_multiples_vanish(m, supply);
    assert((total_lp_supply * MULTIPLIER) / supply == m);
    lemma_div_multiples_vanish(reserve_a as int, m);
    assert((m * (reserve_a as int)) / m == reserve_a as int);
    lemma_div_multiples_vanish(reserve_b as int, m);
    assert((m * (reserve_b as int)) / m == reserve_b as int);
}

/// What a fee-bearing swap pays out never exceeds the pool's actual
/// output reserve: the pool keeps at least the ideal new reserve, and an
/// empty output reserve pays nothing.
pub proof fn lemma_swap_output_le_reserve(
    amount_in: u128,
    reserve_in: u128,
    reserve_out: u128,
    fee_numerator: u128,
    fee_denominator: u128,
    amount_out: u128,
)
    requires
        0 < fee_numerator,
        swap_output(amount_in, reserve_in, reserve_out, fee_numerator, fee_denominator) == Some(
            amount_out,
        ),
    ensures
        amount_out <= reserve_out,
{
    let ra = zero_guarded(reserve_in) as int;
    let rb = zero_guarded(reserve_out) as int;
    let retained = fee_denominator - fee_numerator;
    let k = ra * rb;
    let n = ra + amount_in;
    let ideal = k / n;
    let dec = rb - ideal;
    let den = fee_denominator as int;
    assert(den >= 1);
    assert(retained <= den - 1);
    assert(k >= 0) by (nonlinear_arith)
        requires
            ra >= 1 && rb >= 1 && k == ra * rb,
    ;
    lemma_div_pos_is_pos(k, n);
    lemma_fundamental_div_mod(dec * retained, den);
    assert(den * ((dec * retained) / den) <= dec * retained);
    assert(dec * retained <= dec * den - dec) by (nonlinear_arith)
        requires
            dec >= 0 && retained <= den - 1,
    ;
    if dec == 0 {
        lemma_div_of0(den);
        assert(amount_out == 0);
    } else {
        assert(amount_out < dec) by (nonlinear_arith)
            requires
                den * (amount_out as int) <= dec * den - dec && den >= 1 && dec >= 1,
        ;
        if reserve_out == 0 {
            assert(rb == 1);
            assert(amount_out == 0);
        }
    }
}

/// The monotonic-k property, the central correctness invariant of the
/// pricing engine: a fee-bearing swap with a positive input strictly grows
/// the product of the reserves, because the fee's share of the reserve
/// decrease is retained by the pool.
pub proof fn lemma_swap_grows_constant_product(
    amount_in: u128,
    reserve_in: u128,
    reserve_out: u128,
    fee_numerator: u128,
    fee_denominator: u128,
    amount_out: u128,
)
    requires
        0 < amount_in,
        0 < reserve_in,
        0 < reserve_out,
        0 < fee_numerator <= fee_denominator,
        swap_output(amount_in, reserve_in, reserve_out, fee_numerator, fee_denominator) == Some(
            amount_out,
        ),
    ensures
        amount_out < reserve_out,
        (reserve_in + amount_in) * (reserve_out - amount_out) > reserve_in * reserve_out,
{
    let ra = reserve_in as int;
    let rb = reserve_out as int;
    assert(zero_guarded(reserve_in) == reserve_in);
    assert(zero_guarded(reserve_out) == reserve_out);
    let retained = fee_denominator - fee_numerator;
    let k = ra * rb;
    let n = ra + amount_in;
    let ideal = k / n;
    let dec = rb - ideal;
    let den = fee_denominator as int;

    assert(k >= 0 && n > ra >= 1) by (nonlinear_arith)
        requires
            ra >= 1 && rb >= 1 && amount_in >= 1 && k == ra * rb && n == ra + amount_in,
    ;
    lemma_fundamental_div_mod(k, n);
    assert(k == n * ideal + k % n);
    assert(0 <= k % n < n);

    // The ideal new output reserve is strictly below the current one.
    assert(k < n * rb) by (nonlinear_arith)
        requires
            k == ra * rb && n > ra && rb >= 1,
    ;
    assert(ideal < rb) by (nonlinear_arith)
        requires
            n * ideal <= k < n * rb && n >= 1,
    ;
    assert(dec >= 1);

    // The trader receives strictly less than the raw reserve decrease,
    // because the fee share is withheld.
    lemma_fundamental_div_mod(dec * retained, den);
    assert(amount_out == (dec * retained) / den);
    assert(den * ((dec * retained) / den) <= dec * retained);
    assert(dec * retained <= dec * den - dec) by (nonlinear_arith)
        requires
            dec >= 1 && retained <= den - 1,
    ;
    assert(amount_out < dec) by (nonlinear_arith)
        requires
            den * (amount_out as int) <= dec * den - dec && den >= 1 && dec >= 1,
    ;

    // So the realized new output reserve strictly exceeds the ideal one,
    // and the product strictly grows.
    assert(rb - amount_out >= ideal + 1);
    let rem = k % n;
    assert(n * (ideal + 1) > k) by (nonlinear_arith)
        requires
            k == n * ideal + rem && rem < n,
    ;
    assert(n * (rb - amount_out) >= n * (ideal + 1)) by (nonlinear_arith)
        requires
            n >= 1 && rb - amount_out >= ideal + 1,
    ;
}

} // verus!
