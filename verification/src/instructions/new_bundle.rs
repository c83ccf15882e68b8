//! new_bundle: open a fresh Whirlpool position bundle owned by the launch PDA. Needed once
//! at setup and again every 256 seats.
use vstd::prelude::*;
use crate::constants::{Pubkey, BUNDLE_CAPACITY, RESERVE_DUST};
use crate::instructions::deposit::deposit_precheck;
use crate::error::LaunchError;
use crate::le::keys_equal;
use crate::state::{Launch, FLAG_BUNDLE_READY, FLAG_POOL_INITIALIZED};

verus! {

/// A bundle opens only after the pool, and only when there is no bundle yet or the current
/// one is full.
pub fn check_new_bundle(launch: &Launch) -> (r: Result<(), LaunchError>)
    ensures
        r == if launch.flags & FLAG_POOL_INITIALIZED == 0 {
            Err(LaunchError::PoolNotInitialized)
        } else if launch.flags & FLAG_BUNDLE_READY != 0 && launch.next_index < BUNDLE_CAPACITY {
            Err(LaunchError::InvalidBundle)
        } else {
            Ok::<(), LaunchError>(())
        },
{
    if !launch.has(FLAG_POOL_INITIALIZED) {
        return Err(LaunchError::PoolNotInitialized);
    }
    if launch.has(FLAG_BUNDLE_READY) && launch.next_index < BUNDLE_CAPACITY {
        return Err(LaunchError::InvalidBundle);
    }
    Ok(())
}

/// The bundle the Whirlpool program created is the one for the given mint.
pub fn check_bundle_mint(read: &Pubkey, expected: &Pubkey) -> (r: Result<(), LaunchError>)
    ensures
        r == if read@ == expected@ {
            Ok::<(), LaunchError>(())
        } else {
            Err(LaunchError::InvalidBundle)
        },
{
    if !keys_equal(read, expected) {
        return Err(LaunchError::InvalidBundle);
    }
    Ok(())
}

/// The launch after a new bundle opens: seats start again at index 0.
pub open spec fn after_bundle(l: Launch, bundle_mint: Pubkey) -> Launch {
    Launch {
        bundle_mint: bundle_mint,
        next_index: 0,
        bundle_count: if l.bundle_count == u16::MAX {
            u16::MAX
        } else {
            (l.bundle_count + 1) as u16
        },
        flags: l.flags | FLAG_BUNDLE_READY,
        ..l
    }
}

impl Launch {
    /// Records a new bundle.
    pub fn record_bundle(&mut self, bundle_mint: &Pubkey)
        ensures
            *final(self) == after_bundle(*old(self), *bundle_mint),
    {
        self.bundle_mint = *bundle_mint;
        self.next_index = 0;
        self.bundle_count = self.bundle_count.saturating_add(1);
        self.flags = self.flags | FLAG_BUNDLE_READY;
    }
}


/// A newly recorded bundle has room: its index counter restarts at zero, the bundle is
/// marked ready, and every other flag bit stays; so on a launch with a pool, the next
/// deposit of a nonzero amount against a non-empty reserve is admitted as seat 0 of the
/// new bundle.
pub proof fn lemma_new_bundle_has_room(l: Launch, bundle_mint: Pubkey, q: u64, reserve: u64)
    requires
        l.flags & FLAG_POOL_INITIALIZED != 0,
    ensures
        ({
            let a = after_bundle(l, bundle_mint);
            &&& a.bundle_mint == bundle_mint
            &&& a.next_index == 0
            &&& a.flags & FLAG_BUNDLE_READY != 0
            &&& forall|m: u8| m & FLAG_BUNDLE_READY == 0 ==> #[trigger] (a.flags & m) == l.flags & m
            &&& (q > 0 && reserve > RESERVE_DUST ==> deposit_precheck(a, q, reserve) == Ok::<u16, LaunchError>(0))
        }),
{
    assert(forall|x: u8, m: u8| m & 4 == 0 ==> #[trigger] ((x | 4) & m) == x & m) by (bit_vector);
    let x = l.flags;
    assert((x | 4) & 4 != 0) by (bit_vector);
    assert(x & 1 != 0 ==> (x | 4) & 1 != 0) by (bit_vector);
}

} // verus!
