//! seed_floor: open a permanently locked, token-only position from a slice of the reserve
//! on the far side of spot (above when the token is A, below when it is B). It guarantees
//! an ask at every price the launch ever trades at; its fees are split creator/treasury by
//! collect_floor_fees.
use vstd::prelude::*;
use crate::constants::{Pubkey, BOTTOM_TICK, TICK_SPACING, TOP_TICK};
use crate::error::LaunchError;
use crate::le::keys_equal;
use crate::math::{
    floor_to_spacing, liquidity_a, liquidity_b, liquidity_from_token_a, liquidity_from_token_b,
    sqrt_price_from_tick_index, to_u128_result,
};
use crate::state::{Launch, FLAG_FLOOR_SEEDED, FLAG_POOL_INITIALIZED, FLAG_TOKEN_IS_A};
use crate::tick_math::{lemma_sqrt_price_bounds, sqrt_price_at};

verus! {

/// Only the creator seeds the floor, once, after the pool exists.
pub fn check_seed_floor(launch: &Launch, creator: &Pubkey) -> (r: Result<(), LaunchError>)
    ensures
        r == if creator@ != launch.creator@ {
            Err(LaunchError::MissingSigner)
        } else if launch.flags & FLAG_POOL_INITIALIZED == 0 {
            Err(LaunchError::PoolNotInitialized)
        } else if launch.flags & FLAG_FLOOR_SEEDED != 0 {
            Err(LaunchError::FloorAlreadySeeded)
        } else {
            Ok::<(), LaunchError>(())
        },
{
    if !keys_equal(creator, &launch.creator) {
        return Err(LaunchError::MissingSigner);
    }
    if !launch.has(FLAG_POOL_INITIALIZED) {
        return Err(LaunchError::PoolNotInitialized);
    }
    if launch.has(FLAG_FLOOR_SEEDED) {
        return Err(LaunchError::FloorAlreadySeeded);
    }
    Ok(())
}

/// The slice of the reserve that goes to the floor: `reserve * floor_bps / 10_000`, kept to
/// its low 64 bits (it exceeds the reserve only when `floor_bps` exceeds 10_000, which a
/// launch never holds).
pub fn floor_amount(reserve: u64, floor_bps: u16) -> (r: Result<u64, LaunchError>)
    ensures
        r == if (reserve * floor_bps / 10_000) as u64 == 0 {
            Err(LaunchError::ZeroAmount)
        } else {
            Ok::<u64, LaunchError>((reserve * floor_bps / 10_000) as u64)
        },
        floor_bps <= 10_000 ==> (r matches Ok(a) ==> a <= reserve),
{
    proof {
        assert(reserve * floor_bps <= 0xffff_ffff_ffff_ffff * 0xffff) by (nonlinear_arith);
        if floor_bps <= 10_000 {
            assert(reserve * floor_bps / 10_000 <= reserve) by (nonlinear_arith)
                requires
                    floor_bps <= 10_000,
            {
                assert(reserve * floor_bps <= reserve * 10_000);
            }
        }
    }
    let amount = (reserve as u128 * floor_bps as u128 / 10_000) as u64;
    if amount == 0 {
        return Err(LaunchError::ZeroAmount);
    }
    Ok(amount)
}

/// The floor's tick range: entirely on the token side of spot, so it needs no quote.
pub open spec fn floor_ticks(token_is_a: bool, tick: int) -> (int, int) {
    let f = (tick / 128) * 128;
    if token_is_a {
        (if f + 128 < TOP_TICK - 128 { f + 128 } else { TOP_TICK - 128 }, TOP_TICK as int)
    } else {
        (BOTTOM_TICK as int, if f > BOTTOM_TICK + 128 { f } else { BOTTOM_TICK + 128 })
    }
}

#[derive(Clone, Copy)]
pub struct FloorPlan {
    pub tick_lower: i32,
    pub tick_upper: i32,
    pub liquidity: u128,
    pub max_a: u64,
    pub max_b: u64,
}

/// The floor position that `amount` reserve tokens buy at pool tick `tick`.
pub open spec fn floor_outcome(token_is_a: bool, tick: int, amount: u64) -> Result<FloorPlan, LaunchError> {
    let lo = floor_ticks(token_is_a, tick).0;
    let hi = floor_ticks(token_is_a, tick).1;
    let sl = sqrt_price_at(lo) as u128;
    let su = sqrt_price_at(hi) as u128;
    let l = if token_is_a {
        to_u128_result(liquidity_a(amount, sl, su))
    } else {
        to_u128_result(liquidity_b(amount, sl, su))
    };
    match l {
        Err(e) => Err(e),
        Ok(l) => if l == 0 {
            Err(LaunchError::ZeroAmount)
        } else {
            Ok(
                FloorPlan {
                    tick_lower: lo as i32,
                    tick_upper: hi as i32,
                    liquidity: l,
                    max_a: if token_is_a { amount } else { 0 },
                    max_b: if token_is_a { 0 } else { amount },
                },
            )
        },
    }
}

/// Plans the floor position from `amount` reserve tokens at the pool's current tick.
pub fn plan_floor(token_is_a: bool, pool_tick: i32, amount: u64) -> (r: Result<FloorPlan, LaunchError>)
    requires
        -443636 <= pool_tick <= 443636,
    ensures
        r == floor_outcome(token_is_a, pool_tick as int, amount),
{
    let base = floor_to_spacing(pool_tick, TICK_SPACING);
    let (tick_lower, tick_upper) = if token_is_a {
        let lo = base + TICK_SPACING;
        (if lo < TOP_TICK - TICK_SPACING { lo } else { TOP_TICK - TICK_SPACING }, TOP_TICK)
    } else {
        (BOTTOM_TICK, if base > BOTTOM_TICK + TICK_SPACING { base } else { BOTTOM_TICK + TICK_SPACING })
    };
    proof {
        assert(BOTTOM_TICK <= tick_lower && tick_upper <= TOP_TICK);
        lemma_sqrt_price_bounds(tick_lower as int);
        lemma_sqrt_price_bounds(tick_upper as int);
    }
    let sqrt_lower = sqrt_price_from_tick_index(tick_lower);
    let sqrt_upper = sqrt_price_from_tick_index(tick_upper);
    let l = if token_is_a {
        proof {
            crate::instructions::deposit::lemma_product_fits(amount, sqrt_lower, sqrt_upper);
        }
        liquidity_from_token_a(amount, sqrt_lower, sqrt_upper)
    } else {
        liquidity_from_token_b(amount, sqrt_lower, sqrt_upper)
    };
    let liquidity = match l {
        Ok(v) => v,
        Err(e) => return Err(e),
    };
    if liquidity == 0 {
        return Err(LaunchError::ZeroAmount);
    }
    let (max_a, max_b) = if token_is_a {
        (amount, 0)
    } else {
        (0, amount)
    };
    Ok(FloorPlan { tick_lower, tick_upper, liquidity, max_a, max_b })
}

/// The floor sits on the token side of spot: above the pool tick when the token is A
/// (unless the pool is at the very top), at or below it when the token is B (unless the
/// pool is at the very bottom); it takes no quote.
pub proof fn lemma_floor_on_token_side(token_is_a: bool, tick: int, amount: u64)
    requires
        -443636 <= tick <= 443636,
        floor_outcome(token_is_a, tick, amount) is Ok,
    ensures
        ({
            let p = floor_outcome(token_is_a, tick, amount)->Ok_0;
            &&& token_is_a ==> p.max_b == 0 && p.tick_upper == TOP_TICK && (p.tick_lower > tick
                || p.tick_lower == TOP_TICK - 128)
            &&& !token_is_a ==> p.max_a == 0 && p.tick_lower == BOTTOM_TICK && (p.tick_upper <= tick
                || p.tick_upper == BOTTOM_TICK + 128)
        }),
{
}

/// The floor's range, stated against the pool tick and the tick spacing: both ends are
/// multiples of the spacing. When the token is A the range runs from the first spacing
/// boundary strictly above the pool tick (but no higher than one spacing below the top
/// tick) to the top tick; when it is B, from the bottom tick to the last boundary at or
/// below the pool tick (but no lower than one spacing above the bottom tick). The
/// liquidity is what the whole amount buys over that range, and only the token's side is
/// funded.
pub proof fn lemma_floor_plan_range(token_is_a: bool, tick: int, amount: u64)
    requires
        -443636 <= tick <= 443636,
        floor_outcome(token_is_a, tick, amount) is Ok,
    ensures
        ({
            let p = floor_outcome(token_is_a, tick, amount)->Ok_0;
            &&& (p.tick_lower as int) % 128 == 0
            &&& (p.tick_upper as int) % 128 == 0
            &&& p.liquidity > 0
            &&& token_is_a ==> {
                &&& p.tick_upper == TOP_TICK
                &&& tick >= TOP_TICK - 256 ==> p.tick_lower == TOP_TICK - 128
                &&& tick < TOP_TICK - 256 ==> tick < p.tick_lower <= tick + 128
                &&& liquidity_a(amount, sqrt_price_at(p.tick_lower as int) as u128, sqrt_price_at(
                    p.tick_upper as int,
                ) as u128) == Some(p.liquidity as nat)
                &&& p.max_a == amount && p.max_b == 0
            }
            &&& !token_is_a ==> {
                &&& p.tick_lower == BOTTOM_TICK
                &&& tick >= BOTTOM_TICK + 256 ==> tick - 128 < p.tick_upper <= tick
                &&& tick < BOTTOM_TICK + 256 ==> p.tick_upper == BOTTOM_TICK + 128
                &&& liquidity_b(amount, sqrt_price_at(p.tick_lower as int) as u128, sqrt_price_at(
                    p.tick_upper as int,
                ) as u128) == Some(p.liquidity as nat)
                &&& p.max_a == 0 && p.max_b == amount
            }
        }),
{
    vstd::arithmetic::div_mod::lemma_fundamental_div_mod(tick, 128);
    vstd::arithmetic::div_mod::lemma_mod_bound(tick, 128);
    let f = (tick / 128) * 128;
    assert(f == 128 * (tick / 128)) by (nonlinear_arith)
        requires f == (tick / 128) * 128;
    vstd::arithmetic::div_mod::lemma_mod_multiples_basic(tick / 128, 128);
    vstd::arithmetic::div_mod::lemma_mod_multiples_basic(tick / 128 + 1, 128);
    assert(128 * (tick / 128 + 1) == f + 128) by (nonlinear_arith)
        requires f == 128 * (tick / 128);
    assert((tick / 128 + 1) * 128 == f + 128) by (nonlinear_arith)
        requires f == 128 * (tick / 128);
    assert((tick / 128) * 128 == f);
    assert((TOP_TICK as int - 128) % 128 == 0);
    assert((TOP_TICK as int) % 128 == 0);
    assert((BOTTOM_TICK as int) % 128 == 0);
    assert((BOTTOM_TICK as int + 128) % 128 == 0);
}

/// The launch after its floor is seeded.
pub open spec fn after_floor(l: Launch, position: Pubkey, seeded: u64) -> Launch {
    Launch {
        floor_position: position,
        tokens_dispensed: if l.tokens_dispensed + seeded > u64::MAX {
            u64::MAX
        } else {
            (l.tokens_dispensed + seeded) as u64
        },
        flags: l.flags | FLAG_FLOOR_SEEDED,
        ..l
    }
}

impl Launch {
    /// Records the seeded floor.
    pub fn record_floor(&mut self, position: &Pubkey, seeded: u64)
        ensures
            *final(self) == after_floor(*old(self), *position, seeded),
    {
        self.floor_position = *position;
        self.tokens_dispensed = self.tokens_dispensed.saturating_add(seeded);
        self.flags = self.flags | FLAG_FLOOR_SEEDED;
    }
}


/// Recording the floor sets the floor flag and the floor position, adds the seeded tokens
/// to those dispensed (saturating), and leaves every other flag bit and field as it was.
pub proof fn lemma_record_floor_keeps_the_rest(l: Launch, position: Pubkey, seeded: u64)
    ensures
        ({
            let a = after_floor(l, position, seeded);
            &&& a.floor_position == position
            &&& a.flags & FLAG_FLOOR_SEEDED != 0
            &&& forall|m: u8| m & FLAG_FLOOR_SEEDED == 0 ==> #[trigger] (a.flags & m) == l.flags & m
            &&& a.tokens_dispensed >= l.tokens_dispensed
            &&& (l.tokens_dispensed + seeded <= u64::MAX ==> a.tokens_dispensed == l.tokens_dispensed + seeded)
            &&& Launch {
                floor_position: l.floor_position,
                flags: l.flags,
                tokens_dispensed: l.tokens_dispensed,
                ..a
            } == l
        }),
{
    assert(forall|x: u8, m: u8| m & 2 == 0 ==> #[trigger] ((x | 2) & m) == x & m) by (bit_vector);
    let x = l.flags;
    assert((x | 2) & 2 != 0) by (bit_vector);
}

} // verus!
