//! Whirlpool price/liquidity math. Sqrt prices are Q64.64 fixed point (`u128`);
//! liquidity is `u128`. Every function is stated over exact integers.
use vstd::prelude::*;
use crate::error::LaunchError;
use crate::wide::{mul_u128, mul_u256_u128, two128, two256, two64, U256};
use crate::tick_math::{
    bit, lemma_pos_ratio_fits, neg_factor, neg_factor_at, neg_odd, neg_ratio, pos_factor,
    pos_factor_at, pos_odd, pos_ratio, sqrt_price_at, tick_in_domain, two96,
};
use vstd::arithmetic::power2::pow2;

verus! {

pub const Q64_RESOLUTION: u8 = 64;
pub const Q64_MASK: u128 = 0xFFFF_FFFF_FFFF_FFFF;
pub const MAX_SQRT_PRICE_X64: u128 = 79226673515401279992447579055;
pub const MIN_SQRT_PRICE_X64: u128 = 4295048016;

/// The pair in increasing order.
pub open spec fn ordered(a: u128, b: u128) -> (u128, u128) {
    if a > b {
        (b, a)
    } else {
        (a, b)
    }
}

/// `q`, or `q + 1` when rounding up and the division left a remainder.
pub open spec fn round_quotient(q: nat, r: nat, round_up: bool) -> nat {
    if round_up && r != 0 {
        q + 1
    } else {
        q
    }
}

/// A quantity as a `u64`, or `MathOverflow` when it is absent or too large.
pub open spec fn to_u64_result(v: Option<nat>) -> Result<u64, LaunchError> {
    match v {
        Some(x) => if x <= u64::MAX {
            Ok(x as u64)
        } else {
            Err(LaunchError::MathOverflow)
        },
        None => Err(LaunchError::MathOverflow),
    }
}

/// A quantity as a `u128`, or `MathOverflow` when it is absent or too large.
pub open spec fn to_u128_result(v: Option<nat>) -> Result<u128, LaunchError> {
    match v {
        Some(x) => if x <= u128::MAX {
            Ok(x as u128)
        } else {
            Err(LaunchError::MathOverflow)
        },
        None => Err(LaunchError::MathOverflow),
    }
}

/// Token A held by `liquidity` between two sqrt prices:
/// `L * (hi - lo) * 2^64 / (hi * lo)`, absent when a price is zero.
pub open spec fn delta_a(sqrt_0: u128, sqrt_1: u128, liquidity: u128, round_up: bool) -> Option<nat> {
    let lo = ordered(sqrt_0, sqrt_1).0;
    let hi = ordered(sqrt_0, sqrt_1).1;
    let num = (liquidity * (hi - lo) * two64()) as nat;
    let den = (hi * lo) as nat;
    if den == 0 {
        None
    } else {
        Some(round_quotient(num / den, num % den, round_up))
    }
}

/// Token B held by `liquidity` between two sqrt prices: `L * (hi - lo) / 2^64`.
pub open spec fn delta_b(sqrt_0: u128, sqrt_1: u128, liquidity: u128, round_up: bool) -> nat {
    let lo = ordered(sqrt_0, sqrt_1).0;
    let hi = ordered(sqrt_0, sqrt_1).1;
    let p = (liquidity * (hi - lo)) as nat;
    round_quotient(p / two64(), p % two64(), round_up)
}

/// Liquidity that `amount_b` provides between two sqrt prices: `amount_b * 2^64 / (hi - lo)`,
/// absent when the prices are equal.
pub open spec fn liquidity_b(amount_b: u64, sqrt_0: u128, sqrt_1: u128) -> Option<nat> {
    let d = (ordered(sqrt_0, sqrt_1).1 - ordered(sqrt_0, sqrt_1).0) as nat;
    if d == 0 {
        None
    } else {
        Some((amount_b * two64()) as nat / d)
    }
}

/// Liquidity that `amount_a` provides between two sqrt prices:
/// `(amount_a * lo * hi / 2^64) / (hi - lo)`, absent when the prices are equal.
pub open spec fn liquidity_a(amount_a: u64, sqrt_0: u128, sqrt_1: u128) -> Option<nat> {
    let lo = ordered(sqrt_0, sqrt_1).0;
    let hi = ordered(sqrt_0, sqrt_1).1;
    let d = (hi - lo) as nat;
    if d == 0 {
        None
    } else {
        Some(((amount_a * lo * hi) as nat / two64()) / d)
    }
}

/// `liquidity * available / needed`, or `liquidity` unchanged when nothing is needed.
pub open spec fn scaled_liquidity(liquidity: u128, needed_a: u64, available_a: u64) -> nat {
    if needed_a == 0 {
        liquidity as nat
    } else {
        (liquidity * available_a) as nat / needed_a as nat
    }
}

#[inline(always)]
fn mul_u256(a: u128, b: u128) -> (r: U256)
    ensures
        r.value() == a as nat * b as nat,
{
    mul_u128(a, b)
}

fn increasing(a: u128, b: u128) -> (r: (u128, u128))
    ensures
        r == ordered(a, b),
        r.0 <= r.1,
{
    if a > b {
        (b, a)
    } else {
        (a, b)
    }
}

/// Token A (the launch token) held by `liquidity` between two sqrt prices.
/// Δa = L * (sqrt_upper - sqrt_lower) / (sqrt_upper * sqrt_lower)
pub fn amount_delta_a(sqrt_0: u128, sqrt_1: u128, liquidity: u128, round_up: bool) -> (r: Result<u64, LaunchError>)
    ensures
        r == to_u64_result(delta_a(sqrt_0, sqrt_1, liquidity, round_up)),
{
    let (lo, hi) = increasing(sqrt_0, sqrt_1);
    let p = mul_u256(liquidity, hi - lo);
    let denominator = mul_u256(hi, lo);
    if denominator.is_zero() {
        return Err(LaunchError::MathOverflow);
    }
    let (whole, _) = p.div_mod(&denominator);
    if !whole.is_zero() {
        // `L * (hi - lo) >= hi * lo`: the amount is at least 2^64
        proof {
            lemma_amount_a_overflows(p.value(), denominator.value(), round_up);
        }
        return Err(LaunchError::MathOverflow);
    }
    proof {
        lemma_small_quotient(p.value(), denominator.value());
    }
    let (q, r) = p.div_shl64(&denominator);
    let q = if round_up && !r.is_zero() {
        q + 1
    } else {
        q
    };
    if q > u64::MAX as u128 {
        return Err(LaunchError::MathOverflow);
    }
    Ok(q as u64)
}

/// A dividend below the divisor has quotient zero, and conversely.
proof fn lemma_small_quotient(p: nat, d: nat)
    requires
        d > 0,
        p / d == 0,
    ensures
        p < d,
{
    vstd::arithmetic::div_mod::lemma_fundamental_div_mod(p as int, d as int);
    vstd::arithmetic::div_mod::lemma_mod_bound(p as int, d as int);
}

/// When `p >= d`, `p * 2^64 / d` (rounded either way) is beyond `u64::MAX`.
proof fn lemma_amount_a_overflows(p: nat, d: nat, round_up: bool)
    requires
        d > 0,
        p / d != 0,
    ensures
        round_quotient(p * two64() / d, p * two64() % d, round_up) > u64::MAX,
{
    vstd::arithmetic::div_mod::lemma_fundamental_div_mod(p as int, d as int);
    vstd::arithmetic::div_mod::lemma_mod_bound(p as int, d as int);
    assert(p >= d) by (nonlinear_arith)
        requires p == d * (p / d) + p % d, p / d >= 1, p % d >= 0, d > 0;
    assert(p * two64() >= d * two64()) by (nonlinear_arith)
        requires p >= d;
    vstd::arithmetic::div_mod::lemma_div_is_ordered((d * two64()) as int, (p * two64()) as int, d as int);
    vstd::arithmetic::div_mod::lemma_div_multiples_vanish(two64() as int, d as int);
}

/// Token B (the quote) held by `liquidity` between two sqrt prices.
/// Δb = L * (sqrt_upper - sqrt_lower)
pub fn amount_delta_b(sqrt_0: u128, sqrt_1: u128, liquidity: u128, round_up: bool) -> (r: Result<u64, LaunchError>)
    ensures
        r == to_u64_result(Some(delta_b(sqrt_0, sqrt_1, liquidity, round_up))),
{
    let (lo, hi) = increasing(sqrt_0, sqrt_1);
    let n1 = hi - lo;
    if liquidity == 0 || n1 == 0 {
        proof {
            assert(liquidity * n1 == 0) by (nonlinear_arith)
                requires
                    liquidity == 0 || n1 == 0,
            ;
            vstd::arithmetic::div_mod::lemma_small_mod(0, two64());
        }
        return Ok(0);
    }
    let p = mul_u256(liquidity, n1);
    let q = p.shr64();
    if !q.fits_u64() {
        return Err(LaunchError::MathOverflow);
    }
    let mut result = q.as_u64();
    if round_up && !p.low64_is_zero() {
        if result == u64::MAX {
            return Err(LaunchError::MathOverflow);
        }
        result = result + 1;
    }
    Ok(result)
}

/// Liquidity that `amount_b` of the quote provides between two sqrt prices (floor).
/// L = amount_b << 64 / (sqrt_upper - sqrt_lower)
pub fn liquidity_from_token_b(amount_b: u64, sqrt_0: u128, sqrt_1: u128) -> (r: Result<u128, LaunchError>)
    ensures
        r == to_u128_result(liquidity_b(amount_b, sqrt_0, sqrt_1)),
{
    let (lo, hi) = increasing(sqrt_0, sqrt_1);
    let d = hi - lo;
    if d == 0 {
        return Err(LaunchError::MathOverflow);
    }
    let n = U256::from_u128(amount_b as u128).shl64();
    proof {
        vstd::arithmetic::div_mod::lemma_small_mod((amount_b * two64()) as nat, two256());
    }
    let (q, _) = n.div_mod(&U256::from_u128(d));
    if !q.fits_u128() {
        return Err(LaunchError::MathOverflow);
    }
    Ok(q.as_u128())
}

/// Liquidity that `amount_a` of token A provides between two sqrt prices (floor).
/// L = amount_a * sqrt_lower * sqrt_upper / ((sqrt_upper - sqrt_lower) << 64)
pub fn liquidity_from_token_a(amount_a: u64, sqrt_0: u128, sqrt_1: u128) -> (r: Result<u128, LaunchError>)
    requires
        sqrt_0 != sqrt_1 ==> amount_a * sqrt_0 * sqrt_1 < two256(),
    ensures
        r == to_u128_result(liquidity_a(amount_a, sqrt_0, sqrt_1)),
{
    let (lo, hi) = increasing(sqrt_0, sqrt_1);
    let d = hi - lo;
    if d == 0 {
        return Err(LaunchError::MathOverflow);
    }
    let a_lo = mul_u256(amount_a as u128, lo);
    proof {
        assert(amount_a * lo * hi == amount_a * sqrt_0 * sqrt_1) by (nonlinear_arith)
            requires
                (lo == sqrt_0 && hi == sqrt_1) || (lo == sqrt_1 && hi == sqrt_0),
        ;
    }
    let n = mul_u256_u128(&a_lo, hi).shr64();
    let (q, _) = n.div_mod(&U256::from_u128(d));
    if !q.fits_u128() {
        return Err(LaunchError::MathOverflow);
    }
    Ok(q.as_u128())
}

/// The Euclidean quotient of two `i32` values is an `i32`, except for `MIN / -1`.
proof fn lemma_quotient_in_range(t: int, s: int)
    requires
        s != 0,
        i32::MIN <= t <= i32::MAX,
        i32::MIN <= s <= i32::MAX,
        !(t == i32::MIN && s == -1),
        i32::MIN <= (t / s) * s <= i32::MAX,
    ensures
        i32::MIN <= t / s <= i32::MAX,
{
    let q = t / s;
    vstd::arithmetic::div_mod::lemma_fundamental_div_mod(t, s);
    assert(0 <= t % s);
    assert(s > 0 ==> t % s < s);
    assert(s < 0 ==> t % s < -s);
    assert(i32::MIN <= q <= i32::MAX) by (nonlinear_arith)
        requires
            s != 0,
            i32::MIN <= t <= i32::MAX,
            i32::MIN <= s <= i32::MAX,
            !(t == i32::MIN && s == -1),
            i32::MIN <= q * s <= i32::MAX,
            t == s * q + t % s,
            0 <= t % s,
            s > 0 ==> t % s < s,
            s < 0 ==> t % s < -s,
    ;
}

/// Floor division to a multiple of `spacing` (works for negative ticks).
#[inline(always)]
pub fn floor_to_spacing(tick: i32, spacing: i32) -> (r: i32)
    requires
        spacing != 0,
        !(tick == i32::MIN && spacing == -1),
        i32::MIN <= (tick as int / spacing as int) * spacing <= i32::MAX,
    ensures
        r == (tick as int / spacing as int) * spacing,
{
    proof {
        lemma_quotient_in_range(tick as int, spacing as int);
    }
    let q = tick.checked_div_euclid(spacing).unwrap();
    q * spacing
}

/// Start index of the tick array that contains `tick`.
#[inline(always)]
pub fn tick_array_start(tick: i32, spacing: i32) -> (r: i32)
    requires
        spacing != 0,
        i32::MIN <= spacing * 88 <= i32::MAX,
        !(tick == i32::MIN && spacing * 88 == -1),
        i32::MIN <= (tick as int / (spacing * 88)) * (spacing * 88) <= i32::MAX,
    ensures
        r == (tick as int / (spacing * 88)) * (spacing * 88),
{
    floor_to_spacing(tick, spacing * crate::constants::TICK_ARRAY_SIZE)
}

/// Scale `liquidity` down so its token-A requirement fits `available_a`
/// (floor of liquidity * available / needed).
pub fn scale_liquidity(liquidity: u128, needed_a: u64, available_a: u64) -> (r: Result<u128, LaunchError>)
    ensures
        r == to_u128_result(Some(scaled_liquidity(liquidity, needed_a, available_a))),
{
    if needed_a == 0 {
        return Ok(liquidity);
    }
    let (q, _) = mul_u256(liquidity, available_a as u128).div_mod(&U256::from_u128(needed_a as u128));
    if !q.fits_u128() {
        return Err(LaunchError::MathOverflow);
    }
    Ok(q.as_u128())
}

/// Sqrt price (Q64.64) at `tick`, as the Whirlpool tick ladder computes it.
pub fn sqrt_price_from_tick_index(tick: i32) -> (r: u128)
    requires
        tick_in_domain(tick as int),
    ensures
        r == sqrt_price_at(tick as int),
        0 < r < 0x1_0000_0000_0000_0000_0000_0000,
{
    proof {
        crate::tick_math::lemma_sqrt_price_bounds(tick as int);
    }
    if tick >= 0 {
        get_sqrt_price_positive_tick(tick)
    } else {
        get_sqrt_price_negative_tick(tick)
    }
}

/// `(n0 * n1) >> 96`, where the result fits.
fn mul_shift_96(n0: u128, n1: u128) -> (r: u128)
    requires
        (n0 * n1) as nat / two96() <= u128::MAX,
    ensures
        r == (n0 * n1) as nat / two96(),
{
    mul_u256(n0, n1).shr96().as_u128()
}

/// Bit `k` of `t`, read with a shift and a mask.
fn tick_bit(t: u32, k: u32) -> (b: bool)
    requires
        k < 32,
    ensures
        b == bit(t as nat, k as nat),
{
    let x = t >> k;
    proof {
        vstd::bits::lemma_u32_shr_is_div(t, k);
        assert(x & 1 == x % 2) by (bit_vector);
    }
    x & 1 == 1
}

// Performs the exponential conversion with Q64.64 precision
fn get_sqrt_price_positive_tick(tick: i32) -> (r: u128)
    requires
        0 <= tick,
        tick_in_domain(tick as int),
    ensures
        r == pos_ratio(tick as nat, 18) / 0x1_0000_0000,
{
    let t = tick as u32;
    proof {
        vstd::arithmetic::power2::lemma2_to64();
    }
    let mut ratio: u128 = if tick_bit(t, 0) {
        79232123823359799118286999567
    } else {
        79228162514264337593543950336
    };
    let mut k: u32 = 1;
    while k < 19
        invariant
            1 <= k <= 19,
            t == tick,
            (t as nat) % 0x80000 <= 443636,
            ratio == pos_ratio(t as nat, (k - 1) as nat),
        decreases 19 - k,
    {
        if tick_bit(t, k) {
            proof {
                lemma_pos_ratio_fits(t as nat, k as nat);
            }
            ratio = mul_shift_96(ratio, pos_factor_at(k));
        }
        k = k + 1;
    }
    proof {
        vstd::bits::lemma_u128_shr_is_div(ratio, 32);
    }
    ratio >> 32u128
}

fn get_sqrt_price_negative_tick(tick: i32) -> (r: u128)
    requires
        tick < 0,
        tick_in_domain(tick as int),
    ensures
        r == neg_ratio((-tick) as nat, 18),
{
    let abs_tick = (-tick) as u32;
    proof {
        vstd::arithmetic::power2::lemma2_to64();
    }
    let mut ratio: u128 = if tick_bit(abs_tick, 0) {
        18445821805675392311
    } else {
        18446744073709551616
    };
    let mut k: u32 = 1;
    while k < 19
        invariant
            1 <= k <= 19,
            abs_tick == -tick,
            ratio <= two64(),
            ratio == neg_ratio(abs_tick as nat, (k - 1) as nat),
        decreases 19 - k,
    {
        if tick_bit(abs_tick, k) {
            let f = neg_factor_at(k);
            proof {
                assert(ratio * f <= two64() * f) by (nonlinear_arith)
                    requires ratio <= two64();
                assert(f < two64());
                assert(two64() * f < two64() * two64()) by (nonlinear_arith)
                    requires f < two64();
                vstd::arithmetic::div_mod::lemma_div_is_ordered(
                    (ratio * f) as int, (two64() * f) as int, two64() as int);
                vstd::arithmetic::div_mod::lemma_div_multiples_vanish(f as int, two64() as int);
            }
            let ghost old_ratio = ratio;
            let p: u128 = ratio * f;
            proof {
                vstd::bits::lemma_u128_shr_is_div(p, 64);
                vstd::arithmetic::power2::lemma2_to64();
            }
            ratio = p >> 64u128;
            proof {
                assert(ratio == (old_ratio * f) as nat / two64());
                assert(bit(abs_tick as nat, k as nat));
            }
        }
        k = k + 1;
    }
    ratio
}

/// The amounts do not depend on the order in which the two sqrt prices are given.
pub proof fn lemma_delta_order_free(sqrt_0: u128, sqrt_1: u128, liquidity: u128, round_up: bool)
    ensures
        delta_a(sqrt_0, sqrt_1, liquidity, round_up) == delta_a(sqrt_1, sqrt_0, liquidity, round_up),
        delta_b(sqrt_0, sqrt_1, liquidity, round_up) == delta_b(sqrt_1, sqrt_0, liquidity, round_up),
{
}

/// Rounding up never gives less than rounding down, and at most one unit more.
pub proof fn lemma_round_up_within_one(sqrt_0: u128, sqrt_1: u128, liquidity: u128)
    ensures
        delta_b(sqrt_0, sqrt_1, liquidity, false) <= delta_b(sqrt_0, sqrt_1, liquidity, true)
            <= delta_b(sqrt_0, sqrt_1, liquidity, false) + 1,
        delta_a(sqrt_0, sqrt_1, liquidity, false) is Some <==> delta_a(sqrt_0, sqrt_1, liquidity, true) is Some,
        delta_a(sqrt_0, sqrt_1, liquidity, false) matches Some(d) ==> d <= delta_a(sqrt_0, sqrt_1, liquidity, true)->Some_0
            <= d + 1,
{
}

/// `ceil(x / k) <= q` whenever `x <= q * k`.
pub proof fn lemma_ceil_within(x: nat, k: nat, q: nat)
    requires
        k > 0,
        x <= q * k,
    ensures
        round_quotient(x / k, x % k, true) <= q,
{
    vstd::arithmetic::div_mod::lemma_fundamental_div_mod(x as int, k as int);
    vstd::arithmetic::div_mod::lemma_mod_bound(x as int, k as int);
    let d = x / k;
    let m = x % k;
    assert(d <= q) by (nonlinear_arith)
        requires x == k * d + m, 0 <= m, x <= q * k, k > 0, d >= 0;
    if m != 0 {
        assert(d < q) by (nonlinear_arith)
            requires x == k * d + m, 0 < m, x <= q * k, k > 0, d >= 0;
    }
}

/// The quote that liquidity bought with `q` quote holds between two prices (rounded up)
/// is at most `q`, for that liquidity and any smaller one.
pub proof fn lemma_quote_b_within(q: u64, lo: u128, hi: u128, l: u128)
    requires
        lo < hi,
        liquidity_b(q, lo, hi) matches Some(l0) && l <= l0,
    ensures
        delta_b(lo, hi, l, true) <= q,
{
    let d = (hi - lo) as nat;
    let l0 = liquidity_b(q, lo, hi)->Some_0;
    let qk = (q * two64()) as nat;
    vstd::arithmetic::div_mod::lemma_fundamental_div_mod(qk as int, d as int);
    vstd::arithmetic::div_mod::lemma_mod_bound(qk as int, d as int);
    assert(l0 == qk / d);
    assert(l * d <= l0 * d) by (nonlinear_arith)
        requires l <= l0;
    assert(l0 * d <= qk) by (nonlinear_arith)
        requires
            l0 == qk / d,
            qk == d * (qk / d) + qk % d,
            qk % d >= 0;
    lemma_ceil_within((l * d) as nat, two64(), q as nat);
}

/// The token-A side: the amount that liquidity bought with `q` of token A holds between
/// two positive prices below `2^96` (rounded up) is at most `q`, for that liquidity and any
/// smaller one.
pub proof fn lemma_quote_a_within(q: u64, lo: u128, hi: u128, l: u128)
    requires
        0 < lo < hi < 0x1_0000_0000_0000_0000_0000_0000,
        liquidity_a(q, lo, hi) matches Some(l0) && l <= l0,
    ensures
        delta_a(lo, hi, l, true) matches Some(v) && v <= q,
{
    let d = (hi - lo) as nat;
    let l0 = liquidity_a(q, lo, hi)->Some_0;
    let p = (q * lo * hi) as nat;
    let n = p / two64();
    assert(0 < lo * hi) by (nonlinear_arith)
        requires 0 < lo, 0 < hi;
    assert(p < two256()) by {
        crate::instructions::deposit::lemma_product_fits(q, lo, hi);
    }
    vstd::arithmetic::div_mod::lemma_fundamental_div_mod(p as int, two64() as int);
    vstd::arithmetic::div_mod::lemma_mod_bound(p as int, two64() as int);
    vstd::arithmetic::div_mod::lemma_fundamental_div_mod(n as int, d as int);
    vstd::arithmetic::div_mod::lemma_mod_bound(n as int, d as int);
    assert(l * d <= n) by (nonlinear_arith)
        requires
            l <= l0,
            l0 == n / d,
            n == d * (n / d) + n % d,
            n % d >= 0;
    assert(n * two64() <= p) by (nonlinear_arith)
        requires
            p == two64() * (p / two64()) + p % two64(),
            p % two64() >= 0,
            n == p / two64();
    let num = (l * d * two64()) as nat;
    assert(num <= p) by (nonlinear_arith)
        requires
            l * d <= n,
            n * two64() <= p,
            num == l * d * two64();
    vstd::arithmetic::div_mod::lemma_small_mod(num, two256());
    assert(l * (hi - lo) * two64() == num);
    assert(p == q * (hi * lo)) by (nonlinear_arith)
        requires p == q * lo * hi;
    lemma_ceil_within(num, (hi * lo) as nat, q as nat);
}


/// `ceil(x / k) * k >= x`.
proof fn lemma_ceil_covers(x: nat, k: nat)
    requires
        k > 0,
    ensures
        round_quotient(x / k, x % k, true) * k >= x,
{
    vstd::arithmetic::div_mod::lemma_fundamental_div_mod(x as int, k as int);
    vstd::arithmetic::div_mod::lemma_mod_bound(x as int, k as int);
    let d = x / k;
    let m = x % k;
    if m != 0 {
        assert((d + 1) * k >= x) by (nonlinear_arith)
            requires x == k * d + m, m < k;
    } else {
        assert(d * k == x) by (nonlinear_arith)
            requires x == k * d + m, m == 0;
    }
}

/// From `n * D >= N`, `L' * n <= L * a` and `N == L * K`: `L' * K <= a * D`.
proof fn lemma_scaled_bound(l: nat, l2: nat, k: nat, n: nat, d: nat, a: nat)
    requires
        n > 0,
        n * d >= l * k,
        l2 * n <= l * a,
    ensures
        l2 * k <= a * d,
{
    assert(l2 * k * n <= l * a * k) by (nonlinear_arith)
        requires l2 * n <= l * a;
    assert(l * a * k <= a * (n * d)) by (nonlinear_arith)
        requires n * d >= l * k;
    assert(l2 * k * n <= (a * d) * n) by (nonlinear_arith)
        requires l2 * k * n <= l * a * k, l * a * k <= a * (n * d);
    assert(l2 * k <= a * d) by (nonlinear_arith)
        requires l2 * k * n <= (a * d) * n, n > 0;
}

/// `floor(L * a / n) * n <= L * a`, and it is at most `L` when `a <= n`.
proof fn lemma_scaled_floor(l: nat, n: nat, a: nat)
    requires
        n > 0,
        a <= n,
    ensures
        (l * a / n) * n <= l * a,
        l * a / n <= l,
{
    vstd::arithmetic::div_mod::lemma_fundamental_div_mod((l * a) as int, n as int);
    vstd::arithmetic::div_mod::lemma_mod_bound((l * a) as int, n as int);
    assert((l * a / n) * n <= l * a) by (nonlinear_arith)
        requires l * a == n * (l * a / n) + (l * a) % n, (l * a) % n >= 0;
    assert(l * a <= l * n) by (nonlinear_arith)
        requires a <= n;
    assert(l * a / n <= l) by (nonlinear_arith)
        requires (l * a / n) * n <= l * a, l * a <= l * n, n > 0;
}

/// Scaling a liquidity down by `available / needed`, where `needed` is its token-A amount
/// rounded up, leaves a liquidity whose token-A amount (rounded up) fits `available`.
pub proof fn lemma_scaled_need_fits_a(sqrt_0: u128, sqrt_1: u128, liquidity: u128, available: u64)
    requires
        delta_a(sqrt_0, sqrt_1, liquidity, true) matches Some(n) && 0 < n <= u64::MAX && available <= n,
    ensures
        ({
            let n = delta_a(sqrt_0, sqrt_1, liquidity, true)->Some_0;
            let l2 = scaled_liquidity(liquidity, n as u64, available);
            &&& l2 <= liquidity
            &&& delta_a(sqrt_0, sqrt_1, l2 as u128, true) matches Some(m) && m <= available
        }),
{
    let lo = ordered(sqrt_0, sqrt_1).0;
    let hi = ordered(sqrt_0, sqrt_1).1;
    let k = ((hi - lo) * two64()) as nat;
    let d = (hi * lo) as nat;
    let n = delta_a(sqrt_0, sqrt_1, liquidity, true)->Some_0;
    let big = (liquidity * (hi - lo) * two64()) as nat;
    assert(big == liquidity * k) by (nonlinear_arith)
        requires big == liquidity * (hi - lo) * two64(), k == (hi - lo) * two64();
    lemma_ceil_covers(big, d);
    lemma_scaled_floor(liquidity as nat, n, available as nat);
    assert((liquidity as nat) * (available as nat) == (liquidity * available) as nat);
    let l2 = scaled_liquidity(liquidity, n as u64, available);
    assert(l2 == (liquidity * available) as nat / n);
    lemma_scaled_bound(liquidity as nat, l2, k, n, d, available as nat);
    let big2 = (l2 * (hi - lo) * two64()) as nat;
    assert(big2 == l2 * k) by (nonlinear_arith)
        requires big2 == l2 * (hi - lo) * two64(), k == (hi - lo) * two64();
    assert(l2 * k <= available * d);
    lemma_ceil_within(big2, d, available as nat);
}

/// The same for token B: scaled by `available / needed`, where `needed` is its token-B
/// amount rounded up, the liquidity's token-B amount (rounded up) fits `available`.
pub proof fn lemma_scaled_need_fits_b(sqrt_0: u128, sqrt_1: u128, liquidity: u128, available: u64)
    requires
        0 < delta_b(sqrt_0, sqrt_1, liquidity, true) <= u64::MAX,
        available <= delta_b(sqrt_0, sqrt_1, liquidity, true),
    ensures
        ({
            let n = delta_b(sqrt_0, sqrt_1, liquidity, true);
            let l2 = scaled_liquidity(liquidity, n as u64, available);
            &&& l2 <= liquidity
            &&& delta_b(sqrt_0, sqrt_1, l2 as u128, true) <= available
        }),
{
    let lo = ordered(sqrt_0, sqrt_1).0;
    let hi = ordered(sqrt_0, sqrt_1).1;
    let k = (hi - lo) as nat;
    let n = delta_b(sqrt_0, sqrt_1, liquidity, true);
    let big = (liquidity * (hi - lo)) as nat;
    lemma_ceil_covers(big, two64());
    lemma_scaled_floor(liquidity as nat, n, available as nat);
    assert((liquidity as nat) * (available as nat) == (liquidity * available) as nat);
    let l2 = scaled_liquidity(liquidity, n as u64, available);
    assert(l2 == (liquidity * available) as nat / n);
    lemma_scaled_bound(liquidity as nat, l2, k, n, two64(), available as nat);
    lemma_ceil_within((l2 * k) as nat, two64(), available as nat);
}

} // verus!
