//! Pure curve arithmetic: reserve amounts for a number of pool shares, and the
//! output of a swap under the constant-product rule with a fee.
use vstd::prelude::*;
use crate::error::AmmError;

verus! {

/// Basis points in one whole.
pub const BASIS_POINTS: u64 = 10000;

/// `floor(amount * reserve / supply)`: the part of `reserve` that `amount` of
/// `supply` shares stands for.
pub open spec fn proportional(amount: int, reserve: int, supply: int) -> int {
    amount * reserve / supply
}

/// The input amount that remains once the fee is taken, rounded down.
pub open spec fn amount_after_fee(amount_in: int, fee_basis_points: int) -> int {
    amount_in * (10000 - fee_basis_points) / 10000
}

/// `reserve_in + amount_after_fee`: the divisor of the swap formula.
pub open spec fn swap_divisor(reserve_in: int, reserve_out: int, amount_in: int, fee_basis_points: int) -> int {
    reserve_in + amount_after_fee(amount_in, fee_basis_points)
}

/// The output reserve left after a swap: `floor(reserve_in * reserve_out / divisor)`.
pub open spec fn reserve_out_after(reserve_in: int, reserve_out: int, amount_in: int, fee_basis_points: int) -> int {
    reserve_in * reserve_out / swap_divisor(reserve_in, reserve_out, amount_in, fee_basis_points)
}

/// The amount a swap pays out.
pub open spec fn swap_quote(reserve_in: int, reserve_out: int, amount_in: int, fee_basis_points: int) -> int {
    reserve_out - reserve_out_after(reserve_in, reserve_out, amount_in, fee_basis_points)
}

/// The pair of reserve amounts that a number of pool shares stands for.
#[derive(Debug, Clone, Copy, PartialEq, Eq, Structural)]
pub struct XYAmounts {
    pub x: u64,
    pub y: u64,
}

/// The result that both proportional conversions owe on the given reserves.
pub open spec fn proportional_result(
    reserve_x: u64,
    reserve_y: u64,
    lp_supply: u64,
    lp_amount: u64,
) -> Result<XYAmounts, AmmError> {
    if lp_supply == 0 {
        Err(AmmError::DivisionByZero)
    } else if proportional(lp_amount as int, reserve_x as int, lp_supply as int) > u64::MAX
        || proportional(lp_amount as int, reserve_y as int, lp_supply as int) > u64::MAX {
        Err(AmmError::ArithmeticOverflow)
    } else {
        Ok(XYAmounts {
            x: proportional(lp_amount as int, reserve_x as int, lp_supply as int) as u64,
            y: proportional(lp_amount as int, reserve_y as int, lp_supply as int) as u64,
        })
    }
}

proof fn lemma_product_fits_u128(a: u64, b: u64)
    ensures
        (a as int) * (b as int) <= u128::MAX,
{
    assert((a as int) * (b as int) <= (u64::MAX as int) * (u64::MAX as int)) by (nonlinear_arith);
}

/// `floor(a * b / c)` computed over 128 bits, or `None` where it exceeds `u64`.
fn mul_div_floor(a: u64, b: u64, c: u64) -> (r: Option<u64>)
    requires
        c > 0,
    ensures
        r == (if proportional(a as int, b as int, c as int) <= u64::MAX {
            Some(proportional(a as int, b as int, c as int) as u64)
        } else {
            None::<u64>
        }),
{
    proof {
        lemma_product_fits_u128(a, b);
    }
    let product: u128 = (a as u128) * (b as u128);
    let q: u128 = product / (c as u128);
    if q <= u64::MAX as u128 {
        Some(q as u64)
    } else {
        None
    }
}

fn proportional_amounts(reserve_x: u64, reserve_y: u64, lp_supply: u64, lp_amount: u64) -> (r: Result<XYAmounts, AmmError>)
    ensures
        r == proportional_result(reserve_x, reserve_y, lp_supply, lp_amount),
{
    if lp_supply == 0 {
        return Err(AmmError::DivisionByZero);
    }
    let x = mul_div_floor(lp_amount, reserve_x, lp_supply);
    let y = mul_div_floor(lp_amount, reserve_y, lp_supply);
    match (x, y) {
        (Some(x), Some(y)) => Ok(XYAmounts { x, y }),
        _ => Err(AmmError::ArithmeticOverflow),
    }
}

/// The reserve amounts a depositor pays for `lp_amount` new shares of a pool
/// that already has `lp_supply` shares: each reserve's proportional part,
/// rounded down. Fails with `DivisionByZero` on a pool without shares and with
/// `ArithmeticOverflow` where an amount exceeds `u64`.
pub fn deposit_amounts(reserve_x: u64, reserve_y: u64, lp_supply: u64, lp_amount: u64) -> (r: Result<XYAmounts, AmmError>)
    ensures
        r == proportional_result(reserve_x, reserve_y, lp_supply, lp_amount),
{
    proportional_amounts(reserve_x, reserve_y, lp_supply, lp_amount)
}

/// The reserve amounts a withdrawer receives for burning `lp_amount` of
/// `lp_supply` shares: each reserve's proportional part, rounded down, so that
/// the withdrawer never receives more than an exact share.
pub fn withdraw_amounts(reserve_x: u64, reserve_y: u64, lp_supply: u64, lp_amount: u64) -> (r: Result<XYAmounts, AmmError>)
    ensures
        r == proportional_result(reserve_x, reserve_y, lp_supply, lp_amount),
        r matches Ok(a) ==> a.x as int * lp_supply <= lp_amount * reserve_x
            && a.y as int * lp_supply <= lp_amount * reserve_y,
{
    let r = proportional_amounts(reserve_x, reserve_y, lp_supply, lp_amount);
    proof {
        if lp_supply > 0 {
            lemma_floor_mul_le(lp_amount as int * reserve_x as int, lp_supply as int);
            lemma_floor_mul_le(lp_amount as int * reserve_y as int, lp_supply as int);
        }
    }
    r
}

/// `floor(n / d) * d <= n`.
proof fn lemma_floor_mul_le(n: int, d: int)
    requires
        n >= 0,
        d > 0,
    ensures
        (n / d) * d <= n,
{
    vstd::arithmetic::div_mod::lemma_fundamental_div_mod(n, d);
    assert(n % d >= 0) by {
        vstd::arithmetic::div_mod::lemma_mod_bound(n, d);
    }
    vstd::arithmetic::mul::lemma_mul_is_commutative(d, n / d);
}

/// The result that a swap owes: `DivisionByZero` where the divisor is zero,
/// `InvalidAmount` where nothing would be paid out, else the output amount.
pub open spec fn swap_result(reserve_in: u64, reserve_out: u64, amount_in: u64, fee_basis_points: u16) -> Result<u64, AmmError> {
    if swap_divisor(reserve_in as int, reserve_out as int, amount_in as int, fee_basis_points as int) == 0 {
        Err(AmmError::DivisionByZero)
    } else if swap_quote(reserve_in as int, reserve_out as int, amount_in as int, fee_basis_points as int) == 0 {
        Err(AmmError::InvalidAmount)
    } else {
        Ok(swap_quote(reserve_in as int, reserve_out as int, amount_in as int, fee_basis_points as int) as u64)
    }
}

/// `0 <= floor(a * b / d) <= b` where `d >= a` and `d > 0`.
pub proof fn lemma_scaled_down_le(a: int, b: int, d: int)
    requires
        0 <= a <= d,
        0 < d,
        0 <= b,
    ensures
        0 <= a * b / d <= b,
{
    assert(0 <= a * b <= d * b) by (nonlinear_arith)
        requires
            0 <= a <= d,
            0 <= b,
    ;
    vstd::arithmetic::div_mod::lemma_div_is_ordered(a * b, d * b, d);
    vstd::arithmetic::div_mod::lemma_div_by_multiple(b, d);
    vstd::arithmetic::mul::lemma_mul_is_commutative(d, b);
    vstd::arithmetic::div_mod::lemma_div_pos_is_pos(a * b, d);
}

/// The output of swapping `amount_in` into a pool with `reserve_in` and
/// `reserve_out`, at a fee of `fee_basis_points`: the fee is taken from the
/// input, rounding down, and the output reserve is brought down to
/// `floor(reserve_in * reserve_out / (reserve_in + amount_in_after_fee))`.
pub fn swap_output(reserve_in: u64, reserve_out: u64, amount_in: u64, fee_basis_points: u16) -> (r: Result<u64, AmmError>)
    requires
        fee_basis_points < 10000,
    ensures
        r == swap_result(reserve_in, reserve_out, amount_in, fee_basis_points),
        r matches Ok(out) ==> out <= reserve_out,
{
    let keep: u128 = (BASIS_POINTS - fee_basis_points as u64) as u128;
    proof {
        lemma_scaled_down_le(keep as int, amount_in as int, 10000);
        assert(amount_in as int * keep as int == keep as int * amount_in as int) by (nonlinear_arith);
        lemma_product_fits_u128(amount_in, BASIS_POINTS);
        assert(amount_in as int * keep as int <= amount_in as int * 10000) by (nonlinear_arith)
            requires keep <= 10000;
        lemma_product_fits_u128(reserve_in, reserve_out);
    }
    let after_fee: u128 = (amount_in as u128) * keep / (BASIS_POINTS as u128);
    let divisor: u128 = reserve_in as u128 + after_fee;
    if divisor == 0 {
        return Err(AmmError::DivisionByZero);
    }
    let remaining: u128 = (reserve_in as u128) * (reserve_out as u128) / divisor;
    proof {
        lemma_scaled_down_le(reserve_in as int, reserve_out as int, divisor as int);
    }
    let out: u64 = reserve_out - remaining as u64;
    if out == 0 {
        return Err(AmmError::InvalidAmount);
    }
    Ok(out)
}

} // verus!
