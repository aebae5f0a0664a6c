//! Properties that relate the operations to one another.
use vstd::prelude::*;
use vstd::arithmetic::div_mod::{lemma_div_by_multiple, lemma_fundamental_div_mod, lemma_mod_bound};
use crate::curve::{amount_after_fee, lemma_scaled_down_le, reserve_out_after, swap_divisor};
use crate::deposit::{deposit_outcome, reserves_after_deposit};
use crate::state::Pool;
use crate::swap::{reserve_in_of, reserve_out_of, reserves_after_swap, swap_outcome};
use crate::withdraw::withdraw_outcome;

verus! {

/// The fee a swap keeps, valued at the price after the swap, covers what
/// rounding the output reserve down leaves of the product.
pub open spec fn fee_covers_rounding(reserve_in: int, reserve_out: int, amount_in: int, fee: int) -> bool {
    (amount_in - amount_after_fee(amount_in, fee)) * reserve_out_after(reserve_in, reserve_out, amount_in, fee)
        >= (reserve_in * reserve_out) % swap_divisor(reserve_in, reserve_out, amount_in, fee)
}

/// The fee never exceeds the input: `amount_after_fee(a, fee) <= a`.
proof fn lemma_after_fee_le(amount_in: int, fee: int)
    requires
        0 <= amount_in,
        0 <= fee < 10000,
    ensures
        0 <= amount_after_fee(amount_in, fee) <= amount_in,
{
    lemma_scaled_down_le(10000 - fee, amount_in, 10000);
    assert(amount_in * (10000 - fee) == (10000 - fee) * amount_in) by (nonlinear_arith);
}

/// The product of the reserves after a successful swap, written through the
/// input side: `(reserve_in + amount_in) * floor(reserve_in * reserve_out / divisor)`.
proof fn lemma_swap_after_product(pool: Pool, is_x: bool, amount_in: u64, min_out: u64)
    requires
        pool.config.wf(),
        swap_outcome(pool, is_x, amount_in, min_out) is Ok,
    ensures ({
        let rin = reserve_in_of(pool.reserves, is_x) as int;
        let rout = reserve_out_of(pool.reserves, is_x) as int;
        let fee = pool.config.fee as int;
        let out = swap_outcome(pool, is_x, amount_in, min_out)->Ok_0;
        let after = reserves_after_swap(pool.reserves, is_x, amount_in, out);
        &&& reserve_in_of(after, is_x) == rin + amount_in
        &&& reserve_out_of(after, is_x) == reserve_out_after(rin, rout, amount_in as int, fee)
        &&& after.reserve_x * after.reserve_y == reserve_in_of(after, is_x) * reserve_out_of(after, is_x)
        &&& pool.reserves.reserve_x * pool.reserves.reserve_y == rin * rout
        &&& swap_divisor(rin, rout, amount_in as int, fee) > 0
        &&& rin * rout >= 0
    }),
{
    let rin = reserve_in_of(pool.reserves, is_x) as int;
    let rout = reserve_out_of(pool.reserves, is_x) as int;
    let fee = pool.config.fee as int;
    lemma_after_fee_le(amount_in as int, fee);
    let d = swap_divisor(rin, rout, amount_in as int, fee);
    lemma_scaled_down_le(rin, rout, d);
    let out = swap_outcome(pool, is_x, amount_in, min_out)->Ok_0;
    let after = reserves_after_swap(pool.reserves, is_x, amount_in, out);
    assert(after.reserve_x * after.reserve_y == reserve_in_of(after, is_x) * reserve_out_of(after, is_x)) by (nonlinear_arith)
        requires
            is_x ==> after.reserve_x == reserve_in_of(after, is_x) && after.reserve_y == reserve_out_of(after, is_x),
            !is_x ==> after.reserve_y == reserve_in_of(after, is_x) && after.reserve_x == reserve_out_of(after, is_x),
    ;
    assert(pool.reserves.reserve_x * pool.reserves.reserve_y == rin * rout) by (nonlinear_arith)
        requires
            is_x ==> pool.reserves.reserve_x == rin && pool.reserves.reserve_y == rout,
            !is_x ==> pool.reserves.reserve_y == rin && pool.reserves.reserve_x == rout,
    ;
    assert(rin * rout >= 0) by (nonlinear_arith)
        requires
            rin >= 0,
            rout >= 0,
    ;
}

/// A successful swap never lowers the product of the reserves, wherever the
/// fee it keeps covers the rounding of the output reserve
/// (`fee_covers_rounding`); this holds on exactly those swaps.
pub proof fn lemma_swap_keeps_product(pool: Pool, is_x: bool, amount_in: u64, min_out: u64)
    requires
        pool.config.wf(),
        swap_outcome(pool, is_x, amount_in, min_out) is Ok,
        fee_covers_rounding(
            reserve_in_of(pool.reserves, is_x) as int,
            reserve_out_of(pool.reserves, is_x) as int,
            amount_in as int,
            pool.config.fee as int,
        ),
    ensures ({
        let out = swap_outcome(pool, is_x, amount_in, min_out)->Ok_0;
        let after = reserves_after_swap(pool.reserves, is_x, amount_in, out);
        after.reserve_x * after.reserve_y >= pool.reserves.reserve_x * pool.reserves.reserve_y
    }),
{
    lemma_swap_after_product(pool, is_x, amount_in, min_out);
    let rin = reserve_in_of(pool.reserves, is_x) as int;
    let rout = reserve_out_of(pool.reserves, is_x) as int;
    let fee = pool.config.fee as int;
    let a = amount_in as int;
    let f = amount_after_fee(a, fee);
    let d = swap_divisor(rin, rout, a, fee);
    let k = rin * rout;
    let q = k / d;
    lemma_fundamental_div_mod(k, d);
    assert((rin + a) * q >= k) by (nonlinear_arith)
        requires
            k == d * q + k % d,
            d == rin + f,
            (a - f) * q >= k % d,
    ;
}

/// A successful swap lowers the product of the reserves by less than one
/// unit of the output reserve: `in_after * (out_after + 1) > in_before * out_before`.
pub proof fn lemma_swap_product_within_rounding(pool: Pool, is_x: bool, amount_in: u64, min_out: u64)
    requires
        pool.config.wf(),
        swap_outcome(pool, is_x, amount_in, min_out) is Ok,
    ensures ({
        let out = swap_outcome(pool, is_x, amount_in, min_out)->Ok_0;
        let after = reserves_after_swap(pool.reserves, is_x, amount_in, out);
        reserve_in_of(after, is_x) * (reserve_out_of(after, is_x) + 1)
            > reserve_in_of(pool.reserves, is_x) * reserve_out_of(pool.reserves, is_x)
    }),
{
    lemma_swap_after_product(pool, is_x, amount_in, min_out);
    let rin = reserve_in_of(pool.reserves, is_x) as int;
    let rout = reserve_out_of(pool.reserves, is_x) as int;
    let fee = pool.config.fee as int;
    let a = amount_in as int;
    let f = amount_after_fee(a, fee);
    lemma_after_fee_le(a, fee);
    let d = swap_divisor(rin, rout, a, fee);
    let k = rin * rout;
    let q = k / d;
    lemma_fundamental_div_mod(k, d);
    lemma_mod_bound(k, d);
    assert((rin + a) * (q + 1) > k) by (nonlinear_arith)
        requires
            k == d * q + k % d,
            k % d < d,
            d == rin + f,
            f <= a,
            q >= 0,
    ;
}

/// `floor(l * (r + floor(l * r / s)) / (s + l)) <= floor(l * r / s)`: shares
/// bought at the rounded-down price redeem for no more than they cost.
proof fn lemma_round_trip_le(l: int, r: int, s: int)
    requires
        l >= 0,
        r >= 0,
        s > 0,
    ensures
        l * (r + l * r / s) / (s + l) <= l * r / s,
{
    let d = l * r / s;
    lemma_fundamental_div_mod(l * r, s);
    lemma_mod_bound(l * r, s);
    assert(l * r < (d + 1) * s) by (nonlinear_arith)
        requires
            l * r == s * d + (l * r) % s,
            (l * r) % s < s,
    ;
    let n = l * (r + d);
    let m = s + l;
    assert(n == l * r + l * d) by (nonlinear_arith)
        requires
            n == l * (r + d),
    ;
    assert((d + 1) * m == (d + 1) * s + l * d + l) by (nonlinear_arith)
        requires
            m == s + l,
    ;
    assert(n < (d + 1) * m);
    assert(l * r >= 0 && s * d >= 0 && d >= 0) by (nonlinear_arith)
        requires
            l >= 0,
            r >= 0,
            s > 0,
            d == l * r / s,
    ;
    lemma_fundamental_div_mod(n, m);
    lemma_mod_bound(n, m);
    assert(n / m <= d) by (nonlinear_arith)
        requires
            n == m * (n / m) + n % m,
            n % m >= 0,
            n < (d + 1) * m,
            m > 0,
    ;
}

/// Depositing for some shares and at once withdrawing the same shares pays
/// back no more of either asset than the deposit paid in.
pub proof fn lemma_deposit_then_withdraw(pool: Pool, lp_amount: u64, max_x: u64, max_y: u64, min_x: u64, min_y: u64)
    requires
        deposit_outcome(pool, lp_amount, max_x, max_y) is Ok,
    ensures ({
        let paid = deposit_outcome(pool, lp_amount, max_x, max_y)->Ok_0;
        let after = Pool { reserves: reserves_after_deposit(pool.reserves, paid, lp_amount), ..pool };
        withdraw_outcome(after, lp_amount, min_x, min_y) matches Ok(back) ==> back.x <= paid.x && back.y <= paid.y
    }),
{
    let r = pool.reserves;
    let l = lp_amount as int;
    if r.is_virgin() {
        lemma_div_by_multiple(max_x as int, l);
        lemma_div_by_multiple(max_y as int, l);
        assert(l * max_x == max_x * l) by (nonlinear_arith);
        assert(l * max_y == max_y * l) by (nonlinear_arith);
    } else {
        lemma_round_trip_le(l, r.reserve_x as int, r.lp_supply as int);
        lemma_round_trip_le(l, r.reserve_y as int, r.lp_supply as int);
    }
}

} // verus!
