//! collect_floor_fees: anyone may crank. Collects the locked floor position's fees and
//! splits both tokens between the creator and the treasury by `creator_fee_bps`.
use vstd::prelude::*;
use crate::error::LaunchError;
use crate::state::{Launch, FLAG_FLOOR_SEEDED};

verus! {

/// Only a seeded floor has fees to collect.
pub fn check_floor_seeded(launch: &Launch) -> (r: Result<(), LaunchError>)
    ensures
        r == if launch.flags & FLAG_FLOOR_SEEDED != 0 {
            Ok::<(), LaunchError>(())
        } else {
            Err(LaunchError::NotInitialized)
        },
{
    if !launch.has(FLAG_FLOOR_SEEDED) {
        return Err(LaunchError::NotInitialized);
    }
    Ok(())
}

/// Splits collected fees: the creator's share is `fees * creator_fee_bps / 10_000`
/// (floored), the treasury gets the rest.
pub fn split_floor_fees(fees: u64, creator_fee_bps: u16) -> (r: (u64, u64))
    requires
        creator_fee_bps <= 10_000,
    ensures
        r.0 == fees * creator_fee_bps / 10_000,
        r.0 + r.1 == fees,
{
    proof {
        assert(fees * creator_fee_bps / 10_000 <= fees) by (nonlinear_arith)
            requires
                creator_fee_bps <= 10_000,
        {
            assert(fees * creator_fee_bps <= fees * 10_000);
        }
    }
    let creator = (fees as u128 * creator_fee_bps as u128 / 10_000) as u64;
    (creator, fees - creator)
}

} // verus!
