use ladder_launch::constants::{BOTTOM_TICK, TOP_TICK};
use ladder_launch::error::LaunchError;
use ladder_launch::math::{
    amount_delta_a, amount_delta_b, floor_to_spacing, liquidity_from_token_a, liquidity_from_token_b,
    scale_liquidity, sqrt_price_from_tick_index, tick_array_start, MAX_SQRT_PRICE_X64, MIN_SQRT_PRICE_X64,
};
use ladder_launch::wide::{mul_u128, U256};

#[test]
fn sqrt_price_bounds_match_whirlpool() {
    assert_eq!(sqrt_price_from_tick_index(0), 1u128 << 64);
    assert_eq!(sqrt_price_from_tick_index(443636), MAX_SQRT_PRICE_X64);
    assert_eq!(sqrt_price_from_tick_index(-443636), MIN_SQRT_PRICE_X64);
}

#[test]
fn ninety_ten_shape() {
    // 1 SOL at tick 0 with lower = -2432, upper = 443520 -> ~8.7 SOL worth of tokens
    let s = sqrt_price_from_tick_index(0);
    let lo = sqrt_price_from_tick_index(-2432);
    let hi = sqrt_price_from_tick_index(443520);
    let l = liquidity_from_token_b(1_000_000_000, lo, s).unwrap();
    let a = amount_delta_a(s, hi, l, true).unwrap();
    let b = amount_delta_b(lo, s, l, true).unwrap();
    assert!(b >= 999_999_990 && b <= 1_000_000_001, "b={b}");
    assert!(a > 8_600_000_000 && a < 8_900_000_000, "a={a}");
}

#[test]
fn spacing_and_arrays() {
    assert_eq!(floor_to_spacing(-2355, 128), -2432);
    assert_eq!(floor_to_spacing(443636, 128), 443520);
    assert_eq!(tick_array_start(-100, 128), -11264);
    assert_eq!(tick_array_start(443520, 128), 439296);
}

#[test]
fn sqrt_price_is_monotone_on_samples() {
    let ticks = [-443636, -200000, -2432, -1, 0, 1, 2432, 200000, 443520, 443636];
    let mut prev = 0u128;
    for t in ticks {
        let p = sqrt_price_from_tick_index(t);
        assert!(p > prev, "tick {t}");
        assert!(p >= MIN_SQRT_PRICE_X64 && p <= MAX_SQRT_PRICE_X64);
        prev = p;
    }
}

#[test]
fn sqrt_price_of_one_tick() {
    // sqrt(1.0001) * 2^64, as the Whirlpool tables give it
    assert_eq!(sqrt_price_from_tick_index(1), 18447666387855959850);
    assert_eq!(sqrt_price_from_tick_index(-1), 18445821805675392311);
}

#[test]
fn floor_to_spacing_rounds_toward_negative_infinity() {
    assert_eq!(floor_to_spacing(0, 128), 0);
    assert_eq!(floor_to_spacing(127, 128), 0);
    assert_eq!(floor_to_spacing(128, 128), 128);
    assert_eq!(floor_to_spacing(-1, 128), -128);
    assert_eq!(floor_to_spacing(-128, 128), -128);
    assert_eq!(floor_to_spacing(-129, 128), -256);
}

#[test]
fn tick_array_start_covers_the_tick() {
    for t in [-443636, -11264, -11265, -1, 0, 11263, 11264, 443636] {
        let s = tick_array_start(t, 128);
        assert!(s <= t && t < s + 128 * 88, "tick {t} start {s}");
        assert_eq!(s % (128 * 88), 0);
    }
}

#[test]
fn amount_deltas_are_order_free_and_round_as_asked() {
    let lo = sqrt_price_from_tick_index(-2432);
    let s = sqrt_price_from_tick_index(0);
    let l = 123_456_789_012u128;
    assert_eq!(amount_delta_b(lo, s, l, true), amount_delta_b(s, lo, l, true));
    assert_eq!(amount_delta_a(lo, s, l, false), amount_delta_a(s, lo, l, false));
    let down = amount_delta_b(lo, s, l, false).unwrap();
    let up = amount_delta_b(lo, s, l, true).unwrap();
    assert!(up == down || up == down + 1);
    // exact formula: l * (s - lo) >> 64
    let exact = mul_u128(l, s - lo);
    assert_eq!(down as u128, exact.shr64().as_u128());
}

#[test]
fn amount_delta_of_equal_prices_is_zero() {
    let s = sqrt_price_from_tick_index(100);
    assert_eq!(amount_delta_a(s, s, 1_000_000, true), Ok(0));
    assert_eq!(amount_delta_b(s, s, 1_000_000, true), Ok(0));
}

#[test]
fn amount_delta_overflow_is_an_error() {
    let lo = sqrt_price_from_tick_index(BOTTOM_TICK);
    let hi = sqrt_price_from_tick_index(TOP_TICK);
    assert_eq!(amount_delta_b(lo, hi, u128::MAX, true), Err(LaunchError::MathOverflow));
    assert_eq!(amount_delta_a(lo, hi, u128::MAX, true), Err(LaunchError::MathOverflow));
}

#[test]
fn liquidity_round_trips_through_amounts() {
    let lo = sqrt_price_from_tick_index(-2432);
    let s = sqrt_price_from_tick_index(0);
    let hi = sqrt_price_from_tick_index(443520);
    let la = liquidity_from_token_a(5_000_000, s, hi).unwrap();
    let a = amount_delta_a(s, hi, la, true).unwrap();
    assert!(a <= 5_000_000 && a + 2 >= 5_000_000, "a={a}");
    let lb = liquidity_from_token_b(5_000_000, lo, s).unwrap();
    let b = amount_delta_b(lo, s, lb, true).unwrap();
    assert!(b <= 5_000_000 && b + 2 >= 5_000_000, "b={b}");
}

#[test]
fn liquidity_of_an_empty_range_is_refused() {
    let s = sqrt_price_from_tick_index(0);
    assert_eq!(liquidity_from_token_a(10, s, s), Err(LaunchError::MathOverflow));
    assert_eq!(liquidity_from_token_b(10, s, s), Err(LaunchError::MathOverflow));
}

#[test]
fn scale_liquidity_shrinks_proportionally() {
    assert_eq!(scale_liquidity(1_000, 10, 5), Ok(500));
    assert_eq!(scale_liquidity(1_000, 3, 1), Ok(333));
    // nothing needed: the liquidity stands
    assert_eq!(scale_liquidity(7, 0, 5), Ok(7));
    assert_eq!(scale_liquidity(u128::MAX, 1, 2), Err(LaunchError::MathOverflow));
}

#[test]
fn wide_arithmetic_matches_u128() {
    let a = U256::from_u128(u128::MAX);
    let b = U256::from_u128(1);
    let s = a.add(&b);
    assert!(!s.fits_u128());
    assert_eq!(s.sub(&b).as_u128(), u128::MAX);
    let p = mul_u128(1u128 << 100, 1u128 << 100);
    assert_eq!(p.shr64().shr64().shr64().as_u64(), 1u64 << 8);
    let (q, r) = p.div_mod(&U256::from_u128(1u128 << 100));
    assert_eq!(q.as_u128(), 1u128 << 100);
    assert!(r.is_zero());
}

#[test]
fn amount_delta_a_refuses_amounts_beyond_u64() {
    // L * (hi - lo) * 2^64 = 2^261 does not fit 256 bits; the amount is about 2^133 / 65
    let lo = 1u128 << 64;
    let hi = (1u128 << 64) + (1u128 << 70);
    assert_eq!(amount_delta_a(lo, hi, 1u128 << 127, false), Err(LaunchError::MathOverflow));
    assert_eq!(amount_delta_a(lo, hi, 1u128 << 127, true), Err(LaunchError::MathOverflow));
}

#[test]
fn amount_delta_a_is_exact_past_256_bit_products() {
    // L * (hi - lo) * 2^64 = 2^264, yet the amount is small
    let lo = 1u128 << 127;
    let hi = (1u128 << 127) + (1u128 << 100);
    assert_eq!(amount_delta_a(lo, hi, 1u128 << 100, false), Ok(1023));
    assert_eq!(amount_delta_a(lo, hi, 1u128 << 100, true), Ok(1024));
    assert_eq!(amount_delta_a(0, hi, 5, true), Err(LaunchError::MathOverflow));
}

#[test]
fn sqrt_price_strictly_increases_at_the_edges() {
    assert!(sqrt_price_from_tick_index(-443636) < sqrt_price_from_tick_index(-443635));
    assert!(sqrt_price_from_tick_index(-1) < sqrt_price_from_tick_index(0));
    assert!(sqrt_price_from_tick_index(443635) < sqrt_price_from_tick_index(443636));
}
