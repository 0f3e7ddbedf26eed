use vstd::prelude::*;
use vstd::arithmetic::div_mod::{
    lemma_div_by_multiple, lemma_div_pos_is_pos, lemma_fundamental_div_mod,
    lemma_mod_division_less_than_divisor,
};
use vstd::math::min;

verus! {

/// Basis-point denominator for the swap fee: a fee of `FEE_DENOMINATOR`
/// basis points would consume the entire input.
pub const FEE_DENOMINATOR: u64 = 10_000;

/// `r` is the integer square root of `n`, rounded down.
pub open spec fn is_floor_sqrt(n: int, r: int) -> bool {
    &&& 0 <= r
    &&& r * r <= n
    &&& n < (r + 1) * (r + 1)
}

/// The integer square root of `n`, rounded down.
pub open spec fn floor_sqrt(n: int) -> int {
    choose|r: int| is_floor_sqrt(n, r)
}

/// What a fee of `fee_bps` basis points leaves of a swap input for pricing.
pub open spec fn effective_in(amount_in: int, fee_bps: int) -> int {
    amount_in * (FEE_DENOMINATOR - fee_bps) / (FEE_DENOMINATOR as int)
}

/// Constant-product output: the most that can leave the out-reserve, for a
/// given effective input, without the product of the reserves falling.
pub open spec fn swap_output(reserve_in: int, reserve_out: int, eff_in: int) -> int {
    eff_in * reserve_out / (reserve_in + eff_in)
}

/// Shares owed for a deposit against live reserves: the smaller of the two
/// proportional claims, so neither side of the pair is over-credited.
pub open spec fn shares_for_deposit(
    amount_a: int,
    amount_b: int,
    reserve_a: int,
    reserve_b: int,
    supply: int,
) -> int {
    min(amount_a * supply / reserve_a, amount_b * supply / reserve_b)
}

/// Every nonnegative radicand has a floor square root, so `floor_sqrt`
/// denotes one.
pub proof fn lemma_floor_sqrt_exists(n: nat)
    ensures
        is_floor_sqrt(n as int, floor_sqrt(n as int)),
    decreases n,
{
    if n == 0 {
        assert(is_floor_sqrt(0, 0));
    } else {
        lemma_floor_sqrt_exists((n - 1) as nat);
        let r = floor_sqrt(n - 1);
        if (r + 1) * (r + 1) <= n {
            assert(n == (r + 1) * (r + 1));
            assert(n < (r + 2) * (r + 2)) by (nonlinear_arith)
                requires
                    0 <= r,
                    n == (r + 1) * (r + 1),
            ;
            assert(is_floor_sqrt(n as int, r + 1));
        } else {
            assert(is_floor_sqrt(n as int, r));
        }
    }
}

/// The floor square root is unique.
pub proof fn lemma_floor_sqrt_unique(n: int, r1: int, r2: int)
    requires
        is_floor_sqrt(n, r1),
        is_floor_sqrt(n, r2),
    ensures
        r1 == r2,
{
    assert(r1 == r2) by (nonlinear_arith)
        requires
            0 <= r1,
            r1 * r1 <= n,
            n < (r1 + 1) * (r1 + 1),
            0 <= r2,
            r2 * r2 <= n,
            n < (r2 + 1) * (r2 + 1),
    ;
}

/// Floor division stays within one divisor width of the dividend.
pub proof fn lemma_div_bounds(n: int, d: int)
    requires
        0 <= n,
        0 < d,
    ensures
        0 <= n / d,
        d * (n / d) <= n,
        n < d * (n / d) + d,
{
    lemma_fundamental_div_mod(n, d);
    lemma_mod_division_less_than_divisor(n, d);
    lemma_div_pos_is_pos(n, d);
}

/// A dividend below `c * d` divides to below `c`.
pub proof fn lemma_div_lt(n: int, d: int, c: int)
    requires
        0 <= n,
        0 < d,
        n < c * d,
    ensures
        n / d < c,
{
    let q = n / d;
    lemma_div_bounds(n, d);
    assert(q < c) by (nonlinear_arith)
        requires
            d * q <= n,
            n < c * d,
            0 < d,
    ;
}

/// A dividend of at most `c * d` divides to at most `c`.
pub proof fn lemma_div_le(n: int, d: int, c: int)
    requires
        0 <= n,
        0 < d,
        n <= c * d,
    ensures
        n / d <= c,
{
    let q = n / d;
    lemma_div_bounds(n, d);
    assert(q <= c) by (nonlinear_arith)
        requires
            d * q <= n,
            n <= c * d,
            0 < d,
    ;
}

/// Cross-multiplied comparison of two floor divisions.
pub proof fn lemma_div_cross_le(a: int, b: int, c: int, d: int)
    requires
        0 <= a,
        0 < b,
        0 <= c,
        0 < d,
        a * d <= c * b,
    ensures
        a / b <= c / d,
{
    let q1 = a / b;
    let q2 = c / d;
    lemma_div_bounds(a, b);
    lemma_div_bounds(c, d);
    assert(q1 <= q2) by (nonlinear_arith)
        requires
            b * q1 <= a,
            c < d * q2 + d,
            a * d <= c * b,
            0 < b,
            0 < d,
            0 <= q1,
            0 <= q2,
    ;
}

/// Two floor divisions with cross-equal products agree.
pub proof fn lemma_div_cross_eq(a: int, b: int, c: int, d: int)
    requires
        0 <= a,
        0 < b,
        0 <= c,
        0 < d,
        a * d == c * b,
    ensures
        a / b == c / d,
{
    lemma_div_cross_le(a, b, c, d);
    lemma_div_cross_le(c, d, a, b);
}

/// Bounded factors give a bounded product.
pub proof fn lemma_mul_le(a: int, a_bound: int, b: int, b_bound: int)
    by (nonlinear_arith)
    requires
        0 <= a <= a_bound,
        0 <= b <= b_bound,
    ensures
        0 <= a * b <= a_bound * b_bound,
{
}

/// Swap output bounds: the output is nonnegative, strictly below the
/// out-reserve, and removing it cannot push the reserve product below
/// `(reserve_in + eff_in) * reserve_out`'s floor, `reserve_in * reserve_out`.
pub proof fn lemma_swap_output_bounds(reserve_in: int, reserve_out: int, eff_in: int)
    requires
        0 < reserve_in,
        0 < reserve_out,
        0 <= eff_in,
    ensures
        0 <= swap_output(reserve_in, reserve_out, eff_in) < reserve_out,
        (reserve_in + eff_in) * (reserve_out - swap_output(reserve_in, reserve_out, eff_in))
            >= reserve_in * reserve_out,
{
    let den = reserve_in + eff_in;
    let num = eff_in * reserve_out;
    let out = swap_output(reserve_in, reserve_out, eff_in);
    assert(0 <= num && num < reserve_out * den) by (nonlinear_arith)
        requires
            num == eff_in * reserve_out,
            den == reserve_in + eff_in,
            0 < reserve_in,
            0 < reserve_out,
            0 <= eff_in,
    ;
    lemma_div_bounds(num, den);
    lemma_div_lt(num, den, reserve_out);
    assert(den * (reserve_out - out) >= reserve_in * reserve_out) by (nonlinear_arith)
        requires
            den * out <= num,
            num == eff_in * reserve_out,
            den == reserve_in + eff_in,
    ;
}

/// The heart of the swap pricing: the effective input shrinks with the fee,
/// and the reserve product after a swap never falls, grows strictly under a
/// positive fee, and, without a fee, gains exactly the division residue.
pub proof fn lemma_swap_product_core(rin: int, rout: int, x: int, fee: int)
    requires
        0 < rin,
        0 < rout,
        0 < x,
        0 <= fee <= FEE_DENOMINATOR,
    ensures
        ({
            let eff = effective_in(x, fee);
            let out = swap_output(rin, rout, eff);
            &&& 0 <= eff <= x
            &&& fee == 0 ==> eff == x
            &&& fee > 0 ==> eff < x
            &&& 0 <= out < rout
            &&& (rin + x) * (rout - out) >= rin * rout
            &&& fee > 0 ==> (rin + x) * (rout - out) > rin * rout
            &&& fee == 0 ==> (rin + x) * (rout - out) == rin * rout + (x * rout) % (rin + x)
        }),
{
    let fd = FEE_DENOMINATOR as int;
    let eff = effective_in(x, fee);
    let out = swap_output(rin, rout, eff);
    assert(0 <= x * (fd - fee) <= x * fd) by (nonlinear_arith)
        requires
            0 < x,
            0 <= fee <= fd,
    ;
    lemma_div_bounds(x * (fd - fee), fd);
    lemma_div_le(x * (fd - fee), fd, x);
    if fee == 0 {
        lemma_div_by_multiple(x, fd);
        assert(eff == x);
    } else {
        assert(x * (fd - fee) < x * fd) by (nonlinear_arith)
            requires
                0 < x,
                0 < fee,
        ;
        lemma_div_lt(x * (fd - fee), fd, x);
    }
    lemma_swap_output_bounds(rin, rout, eff);
    assert((rin + x) * (rout - out) >= (rin + eff) * (rout - out)) by (nonlinear_arith)
        requires
            eff <= x,
            out < rout,
    ;
    if fee > 0 {
        assert((rin + x) * (rout - out) > (rin + eff) * (rout - out)) by (nonlinear_arith)
            requires
                eff < x,
                out < rout,
        ;
    }
    if fee == 0 {
        let den = rin + x;
        lemma_fundamental_div_mod(x * rout, den);
        assert(den * (rout - out) == rin * rout + (x * rout) % den) by (nonlinear_arith)
            requires
                x * rout == den * out + (x * rout) % den,
                den == rin + x,
        ;
    }
}

/// For fixed reserves and fee, a larger swap input never yields a smaller
/// output.
pub proof fn lemma_swap_output_monotone(rin: int, rout: int, x1: int, x2: int, fee: int)
    requires
        0 < rin,
        0 < rout,
        0 <= x1 <= x2,
        0 <= fee <= FEE_DENOMINATOR,
    ensures
        swap_output(rin, rout, effective_in(x1, fee))
            <= swap_output(rin, rout, effective_in(x2, fee)),
{
    let fd = FEE_DENOMINATOR as int;
    let eff1 = effective_in(x1, fee);
    let eff2 = effective_in(x2, fee);
    assert(0 <= x1 * (fd - fee) && x1 * (fd - fee) * fd <= x2 * (fd - fee) * fd) by (nonlinear_arith)
        requires
            0 <= x1 <= x2,
            0 <= fee <= fd,
    ;
    lemma_div_cross_le(x1 * (fd - fee), fd, x2 * (fd - fee), fd);
    lemma_div_bounds(x1 * (fd - fee), fd);
    assert(0 <= eff1 <= eff2);
    assert(0 <= eff1 * rout && (eff1 * rout) * (rin + eff2) <= (eff2 * rout) * (rin + eff1))
        by (nonlinear_arith)
        requires
            0 <= eff1 <= eff2,
            0 < rin,
            0 < rout,
    ;
    lemma_div_cross_le(eff1 * rout, rin + eff1, eff2 * rout, rin + eff2);
}

/// For fixed reserves, a strictly larger fee-free input yields a strictly
/// larger output wherever the constant-product division is exact at both
/// inputs: rounding down is the only thing that can flatten the output, so
/// where no rounding happens the output genuinely grows.
pub proof fn lemma_swap_output_strictly_monotone_when_exact(
    rin: int,
    rout: int,
    x1: int,
    x2: int,
)
    requires
        0 < rin,
        0 < rout,
        0 <= x1 < x2,
        (x1 * rout) % (rin + x1) == 0,
        (x2 * rout) % (rin + x2) == 0,
    ensures
        swap_output(rin, rout, effective_in(x1, 0)) < swap_output(rin, rout, effective_in(x2, 0)),
{
    let fd = FEE_DENOMINATOR as int;
    lemma_div_by_multiple(x1, fd);
    lemma_div_by_multiple(x2, fd);
    assert(effective_in(x1, 0) == x1 && effective_in(x2, 0) == x2);
    let out1 = swap_output(rin, rout, x1);
    let out2 = swap_output(rin, rout, x2);
    lemma_fundamental_div_mod(x1 * rout, rin + x1);
    lemma_fundamental_div_mod(x2 * rout, rin + x2);
    assert(out1 < out2) by (nonlinear_arith)
        requires
            x1 * rout == (rin + x1) * out1,
            x2 * rout == (rin + x2) * out2,
            0 < rin,
            0 < rout,
            0 <= x1 < x2,
    ;
}

/// Computes the integer square root of `n`, rounded down.
pub fn integer_sqrt(n: u128) -> (r: u64)
    ensures
        is_floor_sqrt(n as int, r as int),
        r as int == floor_sqrt(n as int),
{
    let mut lo: u64 = 0;
    let mut hi: u64 = u64::MAX;
    while lo < hi
        invariant
            lo <= hi,
            (lo as int) * (lo as int) <= n as int,
            (n as int) < ((hi as int) + 1) * ((hi as int) + 1),
        decreases hi - lo,
    {
        let mid: u64 = (((lo as u128) + (hi as u128) + 1) / 2) as u64;
        proof {
            lemma_mul_le(mid as int, u64::MAX as int, mid as int, u64::MAX as int);
        }
        if (mid as u128) * (mid as u128) <= n {
            lo = mid;
        } else {
            hi = mid - 1;
        }
    }
    proof {
        lemma_floor_sqrt_exists(n as nat);
        lemma_floor_sqrt_unique(n as int, lo as int, floor_sqrt(n as int));
    }
    lo
}

} // verus!
