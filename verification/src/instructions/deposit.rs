//! deposit: pair the user's quote with reserve tokens into a 90/10 bundled position.
//!
//! The position's token side is the open ladder (up to the top tick when the token is A,
//! down to the bottom tick when it is B); its quote side covers `|lower_delta_ticks|` on
//! the other side of spot. Liquidity comes from the quote offered; when the reserve cannot
//! cover the tokens it needs, the liquidity is scaled down to what the reserve holds.
use vstd::prelude::*;
use crate::constants::{BOTTOM_TICK, BUNDLE_CAPACITY, RESERVE_DUST, TICK_SPACING, TOP_TICK};
use crate::error::LaunchError;
use crate::math::{
    amount_delta_a, amount_delta_b, delta_a, delta_b, floor_to_spacing, liquidity_a, liquidity_b,
    liquidity_from_token_a, liquidity_from_token_b, scale_liquidity, scaled_liquidity,
    sqrt_price_from_tick_index, to_u128_result, to_u64_result,
};
use crate::state::{Launch, FLAG_BUNDLE_READY, FLAG_POOL_INITIALIZED, FLAG_TOKEN_IS_A};
use crate::tick_math::{lemma_sqrt_price_bounds, lemma_sqrt_price_monotone, sqrt_price_at};

verus! {

/// `x` clamped to the `i32` range (what `saturating_add`/`saturating_sub` give).
pub open spec fn clamp_i32(x: int) -> int {
    if x < i32::MIN {
        i32::MIN as int
    } else if x > i32::MAX {
        i32::MAX as int
    } else {
        x
    }
}

/// `x` floored to a multiple of the tick spacing.
pub open spec fn floor_spacing(x: int) -> int {
    (x / 128) * 128
}

/// The tick range of a new seat at pool tick `tick`.
pub open spec fn seat_ticks(token_is_a: bool, tick: int, delta: int) -> (int, int) {
    if token_is_a {
        let lo = floor_spacing(clamp_i32(tick + delta));
        (if lo < BOTTOM_TICK { BOTTOM_TICK as int } else { lo }, TOP_TICK as int)
    } else {
        let hi = floor_spacing(clamp_i32(tick - delta));
        (BOTTOM_TICK as int, if hi > TOP_TICK { TOP_TICK as int } else { hi })
    }
}

/// `p` clamped to `[lo, hi]`.
pub open spec fn clamp_price(p: u128, lo: u128, hi: u128) -> u128 {
    if p < lo {
        lo
    } else if p > hi {
        hi
    } else {
        p
    }
}

/// Liquidity that the quote amount buys on the quote side of spot.
pub open spec fn quote_liquidity(token_is_a: bool, q: u64, sl: u128, cur: u128, su: u128) -> Result<u128, LaunchError> {
    if token_is_a {
        to_u128_result(liquidity_b(q, sl, cur))
    } else {
        to_u128_result(liquidity_a(q, cur, su))
    }
}

/// Tokens (rounded up) that liquidity `l` holds on the token side of spot.
pub open spec fn token_need(token_is_a: bool, sl: u128, cur: u128, su: u128, l: u128) -> Result<u64, LaunchError> {
    if token_is_a {
        to_u64_result(delta_a(cur, su, l, true))
    } else {
        to_u64_result(Some(delta_b(sl, cur, l, true)))
    }
}

/// Quote (rounded up) that liquidity `l` holds on the quote side of spot.
pub open spec fn quote_need(token_is_a: bool, sl: u128, cur: u128, su: u128, l: u128) -> Result<u64, LaunchError> {
    if token_is_a {
        to_u64_result(Some(delta_b(sl, cur, l, true)))
    } else {
        to_u64_result(delta_a(cur, su, l, true))
    }
}

/// Liquidity and token need after fitting the reserve: when the position needs more
/// tokens than the reserve holds, the liquidity is scaled by `reserve / need` and the
/// token need is recomputed and capped at the reserve.
pub open spec fn fit_reserve(token_is_a: bool, sl: u128, cur: u128, su: u128, l0: u128, n0: u64, reserve: u64) -> Result<(u128, u64), LaunchError> {
    if n0 > reserve {
        match to_u128_result(Some(scaled_liquidity(l0, n0, reserve))) {
            Err(e) => Err(e),
            Ok(l1) => match token_need(token_is_a, sl, cur, su, l1) {
                Err(e) => Err(e),
                Ok(n1) => Ok((l1, if n1 < reserve { n1 } else { reserve })),
            },
        }
    } else {
        Ok((l0, n0))
    }
}

/// Everything a deposit puts into its position.
#[derive(Clone, Copy)]
pub struct DepositPlan {
    pub tick_lower: i32,
    pub tick_upper: i32,
    pub sqrt_lower: u128,
    pub sqrt_upper: u128,
    /// The pool price, clamped to the range.
    pub sqrt_current: u128,
    pub liquidity: u128,
    /// Reserve tokens the position takes (at most).
    pub need_token: u64,
    /// Quote the position takes (at most).
    pub need_quote: u64,
    pub max_a: u64,
    pub max_b: u64,
}

/// What a deposit of `q` quote puts into its position, at pool tick `tick` and pool sqrt
/// price `sqrt_price`, with `reserve` tokens left in the reserve.
pub open spec fn deposit_outcome(token_is_a: bool, delta: int, tick: int, sqrt_price: u128, q: u64, reserve: u64) -> Result<DepositPlan, LaunchError> {
    let lo = seat_ticks(token_is_a, tick, delta).0;
    let hi = seat_ticks(token_is_a, tick, delta).1;
    let sl = sqrt_price_at(lo) as u128;
    let su = sqrt_price_at(hi) as u128;
    let cur = clamp_price(sqrt_price, sl, su);
    match quote_liquidity(token_is_a, q, sl, cur, su) {
        Err(e) => Err(e),
        Ok(l0) => match token_need(token_is_a, sl, cur, su, l0) {
            Err(e) => Err(e),
            Ok(n0) => match fit_reserve(token_is_a, sl, cur, su, l0, n0, reserve) {
                Err(e) => Err(e),
                Ok(fitted) => if fitted.0 == 0 {
                    Err(LaunchError::ZeroAmount)
                } else {
                    match quote_need(token_is_a, sl, cur, su, fitted.0) {
                        Err(e) => Err(e),
                        Ok(nq) => if nq > q {
                            Err(LaunchError::MathOverflow)
                        } else {
                            Ok(
                                DepositPlan {
                                    tick_lower: lo as i32,
                                    tick_upper: hi as i32,
                                    sqrt_lower: sl,
                                    sqrt_upper: su,
                                    sqrt_current: cur,
                                    liquidity: fitted.0,
                                    need_token: fitted.1,
                                    need_quote: nq,
                                    max_a: if token_is_a { fitted.1 } else { nq },
                                    max_b: if token_is_a { nq } else { fitted.1 },
                                },
                            )
                        },
                    }
                },
            },
        },
    }
}

/// The pool ticks for which a deposit is defined: inside the Whirlpool range, with the
/// seat's range not inverted.
pub open spec fn deposit_tick_ok(token_is_a: bool, tick: int, delta: int) -> bool {
    &&& -443636 <= tick <= 443636
    &&& delta < 0
    &&& seat_ticks(token_is_a, tick, delta).0 <= seat_ticks(token_is_a, tick, delta).1
}

fn sat_add_i32(a: i32, b: i32) -> (r: i32)
    ensures
        r == clamp_i32(a + b),
{
    let s = a as i64 + b as i64;
    if s < i32::MIN as i64 {
        i32::MIN
    } else if s > i32::MAX as i64 {
        i32::MAX
    } else {
        s as i32
    }
}

fn sat_sub_i32(a: i32, b: i32) -> (r: i32)
    ensures
        r == clamp_i32(a - b),
{
    let s = a as i64 - b as i64;
    if s < i32::MIN as i64 {
        i32::MIN
    } else if s > i32::MAX as i64 {
        i32::MAX
    } else {
        s as i32
    }
}

/// The tick range of a new seat.
pub fn seat_range(token_is_a: bool, tick: i32, delta: i32) -> (r: (i32, i32))
    ensures
        r.0 == seat_ticks(token_is_a, tick as int, delta as int).0,
        r.1 == seat_ticks(token_is_a, tick as int, delta as int).1,
{
    if token_is_a {
        let x = sat_add_i32(tick, delta);
        let lo = floor_to_spacing(x, TICK_SPACING);
        (if lo < BOTTOM_TICK { BOTTOM_TICK } else { lo }, TOP_TICK)
    } else {
        let x = sat_sub_i32(tick, delta);
        let hi = floor_to_spacing(x, TICK_SPACING);
        (BOTTOM_TICK, if hi > TOP_TICK { TOP_TICK } else { hi })
    }
}

/// Whether a deposit is defined at pool tick `tick` (Whirlpool itself refuses the ranges
/// of the other ticks).
pub fn deposit_tick_in_range(token_is_a: bool, tick: i32, delta: i32) -> (b: bool)
    ensures
        b == deposit_tick_ok(token_is_a, tick as int, delta as int),
{
    let (lo, hi) = seat_range(token_is_a, tick, delta);
    -443636 <= tick && tick <= 443636 && delta < 0 && lo <= hi
}

/// A product of a `u64` and two prices below `2^96` fits in 256 bits.
pub(crate) proof fn lemma_product_fits(q: u64, a: u128, b: u128)
    by (nonlinear_arith)
    requires
        a < 0x1_0000_0000_0000_0000_0000_0000,
        b < 0x1_0000_0000_0000_0000_0000_0000,
    ensures
        q * a * b < crate::wide::two256(),
{
    assert(q * a <= 0xffff_ffff_ffff_ffff * a);
    assert(q * a * b <= 0xffff_ffff_ffff_ffff * a * b);
    assert(a * b < 0x1_0000_0000_0000_0000_0000_0000 * 0x1_0000_0000_0000_0000_0000_0000);
}

/// Plans a deposit of `quote_amount` at the pool's current tick and price.
pub fn plan_deposit(launch: &Launch, pool_tick: i32, pool_sqrt_price: u128, quote_amount: u64, reserve_before: u64) -> (r: Result<DepositPlan, LaunchError>)
    requires
        deposit_tick_ok(launch.flags & FLAG_TOKEN_IS_A != 0, pool_tick as int, launch.lower_delta_ticks as int),
    ensures
        r == deposit_outcome(
            launch.flags & FLAG_TOKEN_IS_A != 0,
            launch.lower_delta_ticks as int,
            pool_tick as int,
            pool_sqrt_price,
            quote_amount,
            reserve_before,
        ),
{
    let token_is_a = launch.has(FLAG_TOKEN_IS_A);
    let (tick_lower, tick_upper) = seat_range(token_is_a, pool_tick, launch.lower_delta_ticks);
    proof {
        assert(BOTTOM_TICK <= tick_lower <= tick_upper <= TOP_TICK);
        assert((tick_upper as int) % 0x80000 == tick_upper || tick_upper < 0);
        assert((tick_lower as int) % 0x80000 == tick_lower || tick_lower < 0);
        lemma_sqrt_price_monotone(tick_lower as int, tick_upper as int);
        lemma_sqrt_price_bounds(tick_lower as int);
        lemma_sqrt_price_bounds(tick_upper as int);
    }
    let sqrt_lower = sqrt_price_from_tick_index(tick_lower);
    let sqrt_upper = sqrt_price_from_tick_index(tick_upper);
    let sqrt_cur = if pool_sqrt_price < sqrt_lower {
        sqrt_lower
    } else if pool_sqrt_price > sqrt_upper {
        sqrt_upper
    } else {
        pool_sqrt_price
    };
    proof {
        lemma_product_fits(quote_amount, sqrt_cur, sqrt_upper);
        assert(quote_amount * sqrt_cur * sqrt_upper == quote_amount * sqrt_upper * sqrt_cur) by (nonlinear_arith);
    }
    let (mut liquidity, mut need_token) = if token_is_a {
        let l = match liquidity_from_token_b(quote_amount, sqrt_lower, sqrt_cur) {
            Ok(l) => l,
            Err(e) => return Err(e),
        };
        match amount_delta_a(sqrt_cur, sqrt_upper, l, true) {
            Ok(n) => (l, n),
            Err(e) => return Err(e),
        }
    } else {
        let l = match liquidity_from_token_a(quote_amount, sqrt_cur, sqrt_upper) {
            Ok(l) => l,
            Err(e) => return Err(e),
        };
        match amount_delta_b(sqrt_lower, sqrt_cur, l, true) {
            Ok(n) => (l, n),
            Err(e) => return Err(e),
        }
    };
    if need_token > reserve_before {
        // last deposit: take whatever the reserve has left, refund the rest of the quote
        liquidity = match scale_liquidity(liquidity, need_token, reserve_before) {
            Ok(l) => l,
            Err(e) => return Err(e),
        };
        let n1 = if token_is_a {
            amount_delta_a(sqrt_cur, sqrt_upper, liquidity, true)
        } else {
            amount_delta_b(sqrt_lower, sqrt_cur, liquidity, true)
        };
        need_token = match n1 {
            Ok(n) => if n < reserve_before {
                n
            } else {
                reserve_before
            },
            Err(e) => return Err(e),
        };
    }
    if liquidity == 0 {
        return Err(LaunchError::ZeroAmount);
    }
    let nq = if token_is_a {
        amount_delta_b(sqrt_lower, sqrt_cur, liquidity, true)
    } else {
        amount_delta_a(sqrt_cur, sqrt_upper, liquidity, true)
    };
    let need_quote = match nq {
        Ok(n) => n,
        Err(e) => return Err(e),
    };
    if need_quote > quote_amount {
        return Err(LaunchError::MathOverflow);
    }
    let (max_a, max_b) = if token_is_a {
        (need_token, need_quote)
    } else {
        (need_quote, need_token)
    };
    Ok(DepositPlan {
        tick_lower,
        tick_upper,
        sqrt_lower,
        sqrt_upper,
        sqrt_current: sqrt_cur,
        liquidity,
        need_token,
        need_quote,
        max_a,
        max_b,
    })
}

/// Every planned seat has liquidity, takes no more tokens than the reserve holds and no
/// more quote than offered, sits on tick-spacing boundaries inside the usable range with
/// its token side open to the edge of that range, and holds the pool price in its range.
pub proof fn lemma_deposit_plan_bounds(token_is_a: bool, delta: int, tick: int, sqrt_price: u128, q: u64, reserve: u64)
    requires
        deposit_tick_ok(token_is_a, tick, delta),
        deposit_outcome(token_is_a, delta, tick, sqrt_price, q, reserve) is Ok,
    ensures
        ({
            let p = deposit_outcome(token_is_a, delta, tick, sqrt_price, q, reserve)->Ok_0;
            &&& p.liquidity > 0
            &&& p.need_token <= reserve
            &&& p.need_quote <= q
            &&& p.sqrt_lower <= p.sqrt_current <= p.sqrt_upper
            &&& BOTTOM_TICK <= p.tick_lower <= p.tick_upper <= TOP_TICK
            &&& p.tick_lower % 128 == 0 && p.tick_upper % 128 == 0
            &&& (token_is_a ==> p.tick_upper == TOP_TICK)
            &&& (!token_is_a ==> p.tick_lower == BOTTOM_TICK)
        }),
{
    let lo = seat_ticks(token_is_a, tick, delta).0;
    let hi = seat_ticks(token_is_a, tick, delta).1;
    assert(BOTTOM_TICK <= lo <= hi <= TOP_TICK);
    lemma_sqrt_price_monotone(lo, hi);
    lemma_sqrt_price_bounds(lo);
    lemma_sqrt_price_bounds(hi);
}

/// The seat's lower and upper sqrt prices and the pool price clamped between them.
pub open spec fn seat_prices(token_is_a: bool, delta: int, tick: int, sqrt_price: u128) -> (u128, u128, u128) {
    let sl = sqrt_price_at(seat_ticks(token_is_a, tick, delta).0) as u128;
    let su = sqrt_price_at(seat_ticks(token_is_a, tick, delta).1) as u128;
    (sl, clamp_price(sqrt_price, sl, su), su)
}

/// A seat never asks for more quote than the depositor offered, even after the liquidity
/// was scaled down to fit the reserve: the deposit's final quote check never refuses.
pub proof fn lemma_deposit_quote_within_offer(
    token_is_a: bool,
    delta: int,
    tick: int,
    sqrt_price: u128,
    q: u64,
    reserve: u64,
    l0: u128,
    n0: u64,
    fitted: (u128, u64),
)
    requires
        deposit_tick_ok(token_is_a, tick, delta),
        ({
            let (sl, cur, su) = seat_prices(token_is_a, delta, tick, sqrt_price);
            &&& quote_liquidity(token_is_a, q, sl, cur, su) == Ok::<u128, LaunchError>(l0)
            &&& token_need(token_is_a, sl, cur, su, l0) == Ok::<u64, LaunchError>(n0)
            &&& fit_reserve(token_is_a, sl, cur, su, l0, n0, reserve) == Ok::<(u128, u64), LaunchError>(fitted)
        }),
    ensures
        ({
            let (sl, cur, su) = seat_prices(token_is_a, delta, tick, sqrt_price);
            quote_need(token_is_a, sl, cur, su, fitted.0) matches Ok(nq) && nq <= q
        }),
{
    let lo = seat_ticks(token_is_a, tick, delta).0;
    let hi = seat_ticks(token_is_a, tick, delta).1;
    lemma_sqrt_price_monotone(lo, hi);
    lemma_sqrt_price_bounds(lo);
    lemma_sqrt_price_bounds(hi);
    let (sl, cur, su) = seat_prices(token_is_a, delta, tick, sqrt_price);
    if n0 > reserve {
        assert(scaled_liquidity(l0, n0, reserve) <= l0) by (nonlinear_arith)
            requires
                n0 > reserve,
                scaled_liquidity(l0, n0, reserve) == (l0 * reserve) as nat / n0 as nat,
        {
            assert(l0 * reserve <= l0 * n0);
            vstd::arithmetic::div_mod::lemma_div_is_ordered((l0 * reserve) as int, (l0 * n0) as int, n0 as int);
            vstd::arithmetic::div_mod::lemma_div_multiples_vanish(l0 as int, n0 as int);
        }
    }
    if token_is_a {
        crate::math::lemma_quote_b_within(q, sl, cur, fitted.0);
    } else {
        crate::math::lemma_quote_a_within(q, cur, su, fitted.0);
    }
}

/// What a planned seat puts into its position, in terms of the amounts its liquidity holds:
/// the seat's range runs between the sqrt prices of its ticks with the pool price clamped
/// inside; the token limit is exactly the token-side amount of the liquidity, rounded up
/// (above spot, `[spot, upper]`, when the token is A; below spot, `[lower, spot]`, when it
/// is B), and the reserve covers it; the quote limit is the quote-side amount over the
/// rest of the range, rounded up, and the offer covers it; each limit goes to the Whirlpool
/// side that its token occupies.
pub proof fn lemma_deposit_plan_amounts(token_is_a: bool, delta: int, tick: int, sqrt_price: u128, q: u64, reserve: u64)
    requires
        deposit_tick_ok(token_is_a, tick, delta),
        deposit_outcome(token_is_a, delta, tick, sqrt_price, q, reserve) is Ok,
    ensures
        ({
            let p = deposit_outcome(token_is_a, delta, tick, sqrt_price, q, reserve)->Ok_0;
            &&& p.sqrt_lower == sqrt_price_at(p.tick_lower as int)
            &&& p.sqrt_upper == sqrt_price_at(p.tick_upper as int)
            &&& p.sqrt_current == (if sqrt_price < p.sqrt_lower {
                p.sqrt_lower
            } else if sqrt_price > p.sqrt_upper {
                p.sqrt_upper
            } else {
                sqrt_price
            })
            &&& p.need_token <= reserve
            &&& p.need_quote <= q
            &&& token_is_a ==> {
                &&& liquidity_b(q, p.sqrt_lower, p.sqrt_current) matches Some(l0) && p.liquidity <= l0
                    && (delta_a(p.sqrt_current, p.sqrt_upper, l0 as u128, true) matches Some(n0) && n0 <= reserve
                    ==> p.liquidity == l0)
                &&& delta_a(p.sqrt_current, p.sqrt_upper, p.liquidity, true) == Some(p.need_token as nat)
                &&& p.need_quote == delta_b(p.sqrt_lower, p.sqrt_current, p.liquidity, true)
                &&& p.max_a == p.need_token && p.max_b == p.need_quote
            }
            &&& !token_is_a ==> {
                &&& liquidity_a(q, p.sqrt_current, p.sqrt_upper) matches Some(l0) && p.liquidity <= l0
                    && (delta_b(p.sqrt_lower, p.sqrt_current, l0 as u128, true) <= reserve ==> p.liquidity == l0)
                &&& p.need_token == delta_b(p.sqrt_lower, p.sqrt_current, p.liquidity, true)
                &&& delta_a(p.sqrt_current, p.sqrt_upper, p.liquidity, true) == Some(p.need_quote as nat)
                &&& p.max_a == p.need_quote && p.max_b == p.need_token
            }
        }),
{
    let lo = seat_ticks(token_is_a, tick, delta).0;
    let hi = seat_ticks(token_is_a, tick, delta).1;
    let sl = sqrt_price_at(lo) as u128;
    let su = sqrt_price_at(hi) as u128;
    let cur = clamp_price(sqrt_price, sl, su);
    let l0 = quote_liquidity(token_is_a, q, sl, cur, su)->Ok_0;
    let n0 = token_need(token_is_a, sl, cur, su, l0)->Ok_0;
    let p = deposit_outcome(token_is_a, delta, tick, sqrt_price, q, reserve)->Ok_0;
    assert(BOTTOM_TICK <= lo <= hi <= TOP_TICK);
    lemma_sqrt_price_bounds(lo);
    lemma_sqrt_price_bounds(hi);
    if n0 > reserve {
        let l1 = scaled_liquidity(l0, n0, reserve);
        assert(l1 <= l0) by (nonlinear_arith)
            requires
                n0 > reserve,
                l1 == (l0 * reserve) as nat / n0 as nat,
        {
            assert(l0 * reserve <= l0 * n0);
            vstd::arithmetic::div_mod::lemma_div_is_ordered((l0 * reserve) as int, (l0 * n0) as int, n0 as int);
            vstd::arithmetic::div_mod::lemma_div_multiples_vanish(l0 as int, n0 as int);
        }
        if token_is_a {
            crate::math::lemma_scaled_need_fits_a(cur, su, l0, reserve);
        } else {
            crate::math::lemma_scaled_need_fits_b(sl, cur, l0, reserve);
        }
    }
}

/// A deposit needs an open pool and a ready position bundle.
pub fn check_pool_and_bundle(launch: &Launch) -> (r: Result<(), LaunchError>)
    ensures
        r == if launch.flags & FLAG_POOL_INITIALIZED != 0 && launch.flags & FLAG_BUNDLE_READY != 0 {
            Ok::<(), LaunchError>(())
        } else {
            Err(LaunchError::PoolNotInitialized)
        },
{
    if !launch.has(FLAG_POOL_INITIALIZED) || !launch.has(FLAG_BUNDLE_READY) {
        return Err(LaunchError::PoolNotInitialized);
    }
    Ok(())
}

/// The bundle index of the next seat, while the current bundle has room.
pub fn next_seat_index(launch: &Launch) -> (r: Result<u16, LaunchError>)
    ensures
        r == if launch.next_index < BUNDLE_CAPACITY {
            Ok::<u16, LaunchError>(launch.next_index)
        } else {
            Err(LaunchError::BundleFull)
        },
{
    let index = launch.next_index;
    if index >= BUNDLE_CAPACITY {
        return Err(LaunchError::BundleFull);
    }
    Ok(index)
}

/// A reserve at or below the dust threshold counts as empty: liquidity rounding can
/// strand a few base units.
pub fn check_reserve(reserve: u64) -> (r: Result<(), LaunchError>)
    ensures
        r == if reserve > RESERVE_DUST {
            Ok::<(), LaunchError>(())
        } else {
            Err(LaunchError::ReserveEmpty)
        },
{
    if reserve <= RESERVE_DUST {
        return Err(LaunchError::ReserveEmpty);
    }
    Ok(())
}

/// The verdict on a deposit of `q` quote, in the order the deposit checks: a zero amount,
/// then a launch without its pool or position bundle, then a full bundle, then an empty
/// reserve. Admitted, it names the new seat's index in the bundle.
pub open spec fn deposit_precheck(l: Launch, q: u64, reserve: u64) -> Result<u16, LaunchError> {
    if q == 0 {
        Err(LaunchError::ZeroAmount)
    } else if l.flags & FLAG_POOL_INITIALIZED == 0 || l.flags & FLAG_BUNDLE_READY == 0 {
        Err(LaunchError::PoolNotInitialized)
    } else if l.next_index >= BUNDLE_CAPACITY {
        Err(LaunchError::BundleFull)
    } else if reserve <= RESERVE_DUST {
        Err(LaunchError::ReserveEmpty)
    } else {
        Ok(l.next_index)
    }
}

/// Decides whether a deposit of `quote_amount` may go ahead, with `reserve` tokens left in
/// the reserve; admitted, returns the new seat's bundle index.
pub fn check_deposit(launch: &Launch, quote_amount: u64, reserve: u64) -> (r: Result<u16, LaunchError>)
    ensures
        r == deposit_precheck(*launch, quote_amount, reserve),
{
    if quote_amount == 0 {
        return Err(LaunchError::ZeroAmount);
    }
    check_pool_and_bundle(launch)?;
    let index = next_seat_index(launch)?;
    check_reserve(reserve)?;
    Ok(index)
}

/// What a vault gained between two readings (zero if it lost).
pub fn vault_gain(before: u64, after: u64) -> (r: u64)
    ensures
        r == if after >= before { after - before } else { 0 },
{
    after.saturating_sub(before)
}

/// Tokens that left the reserve for the position.
pub fn seeded_tokens(reserve_before: u64, reserve_after: u64) -> (r: Result<u64, LaunchError>)
    ensures
        r == if reserve_after <= reserve_before {
            Ok::<u64, LaunchError>((reserve_before - reserve_after) as u64)
        } else {
            Err(LaunchError::MathOverflow)
        },
{
    match reserve_before.checked_sub(reserve_after) {
        Some(v) => Ok(v),
        None => Err(LaunchError::MathOverflow),
    }
}

/// The token limits handed to increase_liquidity: the plan's maxima, capped by what the
/// reserve holds on the token side and by the quote actually funded on the quote side.
pub fn increase_limits(plan: &DepositPlan, token_is_a: bool, reserve_before: u64, quote_funded: u64) -> (r: (u64, u64))
    ensures
        r.0 == if token_is_a { min_u64(plan.max_a, reserve_before) } else { min_u64(plan.max_a, quote_funded) },
        r.1 == if token_is_a { min_u64(plan.max_b, quote_funded) } else { min_u64(plan.max_b, reserve_before) },
{
    let cap_a = if token_is_a { reserve_before } else { quote_funded };
    let cap_b = if token_is_a { quote_funded } else { reserve_before };
    (if plan.max_a < cap_a { plan.max_a } else { cap_a }, if plan.max_b < cap_b { plan.max_b } else { cap_b })
}

pub open spec fn min_u64(a: u64, b: u64) -> u64 {
    if a < b {
        a
    } else {
        b
    }
}

/// The launch totals after a seat opens.
pub open spec fn after_deposit(l: Launch, next: Launch, liquidity: u128, seeded: u64, quote_used: u64) -> bool {
    &&& next == Launch {
        next_index: (l.next_index + 1) as u16,
        total_liquidity: (l.total_liquidity + liquidity) as u128,
        tokens_dispensed: (l.tokens_dispensed + seeded) as u64,
        quote_in: (l.quote_in + quote_used) as u64,
        seats_open: (l.seats_open + 1) as u32,
        ..l
    }
}

impl Launch {
    /// Records a new seat: advances the bundle index and adds the seat to the totals.
    pub fn record_deposit(&mut self, liquidity: u128, seeded: u64, quote_used: u64) -> (r: Result<(), LaunchError>)
        requires
            old(self).next_index < BUNDLE_CAPACITY,
        ensures
            r is Ok <==> (old(self).total_liquidity + liquidity <= u128::MAX
                && old(self).tokens_dispensed + seeded <= u64::MAX
                && old(self).quote_in + quote_used <= u64::MAX
                && old(self).seats_open + 1 <= u32::MAX),
            r is Ok ==> after_deposit(*old(self), *final(self), liquidity, seeded, quote_used),
            r is Err ==> r == Err::<(), LaunchError>(LaunchError::MathOverflow) && *final(self) == *old(self),
    {
        let total = match self.total_liquidity.checked_add(liquidity) {
            Some(v) => v,
            None => return Err(LaunchError::MathOverflow),
        };
        let dispensed = match self.tokens_dispensed.checked_add(seeded) {
            Some(v) => v,
            None => return Err(LaunchError::MathOverflow),
        };
        let quote_in = match self.quote_in.checked_add(quote_used) {
            Some(v) => v,
            None => return Err(LaunchError::MathOverflow),
        };
        let seats = match self.seats_open.checked_add(1) {
            Some(v) => v,
            None => return Err(LaunchError::MathOverflow),
        };
        self.next_index = self.next_index + 1;
        self.total_liquidity = total;
        self.tokens_dispensed = dispensed;
        self.quote_in = quote_in;
        self.seats_open = seats;
        Ok(())
    }
}


/// Recording a seat gives the next deposit the next index in the bundle, adds the seat's
/// liquidity, seeded tokens and quote to the launch totals and one to the open seats, and
/// leaves the flags, addresses and parameters alone; so seats in one bundle get distinct,
/// consecutive indices.
pub proof fn lemma_record_deposit_advances(
    l: Launch,
    next: Launch,
    liquidity: u128,
    seeded: u64,
    quote_used: u64,
    q: u64,
    reserve: u64,
)
    requires
        after_deposit(l, next, liquidity, seeded, quote_used),
        l.next_index < BUNDLE_CAPACITY,
        l.total_liquidity + liquidity <= u128::MAX,
        l.tokens_dispensed + seeded <= u64::MAX,
        l.quote_in + quote_used <= u64::MAX,
        l.seats_open + 1 <= u32::MAX,
    ensures
        next.next_index == l.next_index + 1,
        next.total_liquidity == l.total_liquidity + liquidity,
        next.tokens_dispensed == l.tokens_dispensed + seeded,
        next.quote_in == l.quote_in + quote_used,
        next.seats_open == l.seats_open + 1,
        next.flags == l.flags,
        q > 0 && reserve > RESERVE_DUST && l.flags & FLAG_POOL_INITIALIZED != 0 && l.flags & FLAG_BUNDLE_READY != 0
            && l.next_index + 1 < BUNDLE_CAPACITY ==> deposit_precheck(next, q, reserve) == Ok::<u16, LaunchError>(
            (l.next_index + 1) as u16,
        ),
        (Launch {
            next_index: l.next_index,
            total_liquidity: l.total_liquidity,
            tokens_dispensed: l.tokens_dispensed,
            quote_in: l.quote_in,
            seats_open: l.seats_open,
            ..next
        } == l),
{
}

} // verus!
