//! init_pool: open the Whirlpool for the launch on the adaptive fee tier. The program
//! orders mints into Whirlpool's A/B by pubkey.
use vstd::prelude::*;
use crate::constants::{Pubkey, BOTTOM_TICK, TICK_SPACING, TOP_TICK};
use crate::error::LaunchError;
use crate::instructions::{arg_at, read_i32};
use crate::le::{from_twos_complement, keys_equal};
use crate::math::sqrt_price_from_tick_index;
use crate::state::whirlpool::PoolView;
use crate::state::{Launch, FLAG_POOL_INITIALIZED, FLAG_TOKEN_IS_A};
use crate::tick_math::sqrt_price_at;

verus! {

/// Only the creator opens the pool, once, for the launch's own mints.
pub fn check_init_pool(launch: &Launch, creator: &Pubkey, token_mint: &Pubkey, quote_mint: &Pubkey) -> (r: Result<(), LaunchError>)
    ensures
        r == if creator@ != launch.creator@ {
            Err(LaunchError::MissingSigner)
        } else if launch.flags & FLAG_POOL_INITIALIZED != 0 {
            Err(LaunchError::AlreadyInitialized)
        } else if token_mint@ != launch.token_mint@ || quote_mint@ != launch.quote_mint@ {
            Err(LaunchError::InvalidMint)
        } else {
            Ok::<(), LaunchError>(())
        },
{
    if !keys_equal(creator, &launch.creator) {
        return Err(LaunchError::MissingSigner);
    }
    if launch.has(FLAG_POOL_INITIALIZED) {
        return Err(LaunchError::AlreadyInitialized);
    }
    if !keys_equal(token_mint, &launch.token_mint) || !keys_equal(quote_mint, &launch.quote_mint) {
        return Err(LaunchError::InvalidMint);
    }
    Ok(())
}

/// The pool's opening tick (first argument) and its sqrt price; the tick must lie strictly
/// inside the usable range.
pub fn initial_price(args: &[u8]) -> (r: Result<(i32, u128), LaunchError>)
    ensures
        match arg_at(args@, 0, 4) {
            Err(e) => r == Err::<(i32, u128), LaunchError>(e),
            Ok(v) => {
                let t = from_twos_complement(v, 32);
                if t <= BOTTOM_TICK || t >= TOP_TICK {
                    r == Err::<(i32, u128), LaunchError>(LaunchError::InvalidArgs)
                } else {
                    r == Ok::<(i32, u128), LaunchError>((t as i32, sqrt_price_at(t) as u128))
                }
            },
        },
{
    let initial_tick = match read_i32(args, 0) {
        Ok(t) => t,
        Err(e) => return Err(e),
    };
    proof {
        crate::le::lemma_pow256_values();
        crate::le::lemma_le_value_bound(args@.subrange(0, 4));
        vstd::arithmetic::power2::lemma2_to64();
        let v = arg_at(args@, 0, 4)->Ok_0;
        assert(i32::MIN <= from_twos_complement(v, 32) <= i32::MAX);
    }
    if initial_tick <= BOTTOM_TICK || initial_tick >= TOP_TICK {
        return Err(LaunchError::InvalidArgs);
    }
    Ok((initial_tick, sqrt_price_from_tick_index(initial_tick)))
}

/// The pool the Whirlpool program created pairs the launch's mints on the right sides,
/// with the launch tick spacing.
pub fn check_pool(pool: &PoolView, token_is_a: bool, token_mint: &Pubkey, quote_mint: &Pubkey) -> (r: Result<(), LaunchError>)
    ensures
        r == if (if token_is_a {
            pool.token_mint_a@ == token_mint@ && pool.token_mint_b@ == quote_mint@
        } else {
            pool.token_mint_b@ == token_mint@ && pool.token_mint_a@ == quote_mint@
        }) && pool.tick_spacing == TICK_SPACING {
            Ok::<(), LaunchError>(())
        } else {
            Err(LaunchError::InvalidWhirlpool)
        },
{
    let ok = if token_is_a {
        keys_equal(&pool.token_mint_a, token_mint) && keys_equal(&pool.token_mint_b, quote_mint)
    } else {
        keys_equal(&pool.token_mint_b, token_mint) && keys_equal(&pool.token_mint_a, quote_mint)
    };
    if !ok || pool.tick_spacing as i32 != TICK_SPACING {
        return Err(LaunchError::InvalidWhirlpool);
    }
    Ok(())
}

/// The launch after its pool opens.
pub open spec fn after_pool(l: Launch, whirlpool: Pubkey) -> Launch {
    Launch { whirlpool: whirlpool, flags: l.flags | FLAG_POOL_INITIALIZED, ..l }
}

impl Launch {
    /// Records the opened pool.
    pub fn record_pool(&mut self, whirlpool: &Pubkey)
        ensures
            *final(self) == after_pool(*old(self), *whirlpool),
    {
        self.whirlpool = *whirlpool;
        self.flags = self.flags | FLAG_POOL_INITIALIZED;
    }
}


/// Recording the pool sets the pool flag and the Whirlpool's address; every other flag
/// bit (which side the token is on, among them) and every other field stays as it was.
pub proof fn lemma_record_pool_keeps_the_rest(l: Launch, whirlpool: Pubkey)
    ensures
        ({
            let a = after_pool(l, whirlpool);
            &&& a.whirlpool == whirlpool
            &&& a.flags & FLAG_POOL_INITIALIZED != 0
            &&& a.flags & FLAG_TOKEN_IS_A == l.flags & FLAG_TOKEN_IS_A
            &&& forall|m: u8| m & FLAG_POOL_INITIALIZED == 0 ==> #[trigger] (a.flags & m) == l.flags & m
            &&& Launch { whirlpool: l.whirlpool, flags: l.flags, ..a } == l
        }),
{
    assert(forall|x: u8, m: u8| m & 1 == 0 ==> #[trigger] ((x | 1) & m) == x & m) by (bit_vector);
    let x = l.flags;
    assert((x | 1) & 1 != 0) by (bit_vector);
    assert((x | 1) & 8 == x & 8) by (bit_vector);
}

} // verus!
