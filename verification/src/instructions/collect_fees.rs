//! collect_fees: the seat holder collects the position's accrued fees, both tokens.
use vstd::prelude::*;
use crate::error::LaunchError;
use crate::le::keys_equal;
use crate::state::whirlpool::PositionView;
use crate::state::{Launch, Seat};

verus! {

/// The position is the seat's own, in the launch's pool.
pub fn check_seat_position(pos: &PositionView, launch: &Launch, seat: &Seat) -> (r: Result<(), LaunchError>)
    ensures
        r == if pos.whirlpool@ == launch.whirlpool@ && pos.position_mint@ == seat.bundle_mint@ {
            Ok::<(), LaunchError>(())
        } else {
            Err(LaunchError::InvalidSeat)
        },
{
    if !keys_equal(&pos.whirlpool, &launch.whirlpool) || !keys_equal(&pos.position_mint, &seat.bundle_mint) {
        return Err(LaunchError::InvalidSeat);
    }
    Ok(())
}

/// Fees collected into a vault: what it gained between the two readings.
pub fn collected(before: u64, after: u64) -> (r: u64)
    ensures
        r == if after >= before { after - before } else { 0 },
{
    after.saturating_sub(before)
}

} // verus!
