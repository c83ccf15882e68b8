//! exit: burn the seat NFT, pull the position, apply seed-clawback, enforce the minimum
//! age and the per-minute exit cap.
use vstd::prelude::*;
use crate::error::LaunchError;
use crate::le::keys_equal;
use crate::state::whirlpool::PositionView;
use crate::state::{Launch, Seat};

verus! {

/// A holder proves a seat with exactly one seat NFT.
pub fn check_holder(nft_balance: u64) -> (r: Result<(), LaunchError>)
    ensures
        r == if nft_balance == 1 {
            Ok::<(), LaunchError>(())
        } else {
            Err(LaunchError::NotSeatHolder)
        },
{
    if nft_balance != 1 {
        return Err(LaunchError::NotSeatHolder);
    }
    Ok(())
}

/// The position being exited is the seat's own, in the launch's pool, still holding the
/// seat's liquidity.
pub fn check_exit_position(pos: &PositionView, launch: &Launch, seat: &Seat) -> (r: Result<(), LaunchError>)
    ensures
        r == if pos.whirlpool@ == launch.whirlpool@ && pos.position_mint@ == seat.bundle_mint@
            && pos.liquidity == seat.liquidity {
            Ok::<(), LaunchError>(())
        } else {
            Err(LaunchError::InvalidSeat)
        },
{
    if !keys_equal(&pos.whirlpool, &launch.whirlpool) || !keys_equal(&pos.position_mint, &seat.bundle_mint)
        || pos.liquidity != seat.liquidity {
        return Err(LaunchError::InvalidSeat);
    }
    Ok(())
}

/// `x` clamped to the `i64` range.
pub open spec fn clamp_i64(x: int) -> int {
    if x < i64::MIN {
        i64::MIN as int
    } else if x > i64::MAX {
        i64::MAX as int
    } else {
        x
    }
}

/// `x` capped at the largest `u128`.
pub open spec fn cap_u128(x: int) -> u128 {
    if x > u128::MAX {
        u128::MAX
    } else {
        x as u128
    }
}

/// The exit window (minute) that a unix time falls in.
pub open spec fn exit_window(now: i64) -> int {
    now as int / 60
}

/// Liquidity that may exit per window: `exit_cap_bps` of the launch's liquidity.
pub open spec fn exit_budget(l: Launch) -> int {
    (l.total_liquidity / 10_000) * l.exit_cap_bps
}

/// Liquidity already exited in the window of `now`.
pub open spec fn exited_in_window(l: Launch, now: i64) -> u128 {
    if l.window_start == exit_window(now) {
        l.window_liquidity
    } else {
        0
    }
}

/// The verdict on an exit of `liquidity` at `now` by a seat that entered at `entry_ts`.
pub open spec fn exit_verdict(l: Launch, now: i64, entry_ts: i64, liquidity: u128) -> Result<(), LaunchError> {
    if clamp_i64(now - entry_ts) < l.min_age_s {
        Err(LaunchError::SeatTooYoung)
    } else if exited_in_window(l, now) > 0 && cap_u128(exited_in_window(l, now) + liquidity) > exit_budget(l) {
        Err(LaunchError::ExitCapReached)
    } else {
        Ok(())
    }
}

/// The launch after an admitted exit.
pub open spec fn after_exit(l: Launch, now: i64, liquidity: u128) -> Launch {
    Launch {
        window_start: exit_window(now) as i64,
        window_liquidity: cap_u128(exited_in_window(l, now) + liquidity),
        total_liquidity: if l.total_liquidity >= liquidity { (l.total_liquidity - liquidity) as u128 } else { 0 },
        seats_open: if l.seats_open >= 1 { (l.seats_open - 1) as u32 } else { 0 },
        ..l
    }
}

fn sat_sub_i64(a: i64, b: i64) -> (r: i64)
    ensures
        r == clamp_i64(a - b),
{
    let d = a as i128 - b as i128;
    if d < i64::MIN as i128 {
        i64::MIN
    } else if d > i64::MAX as i128 {
        i64::MAX
    } else {
        d as i64
    }
}

impl Launch {
    /// Whether the per-window exit budget, `exit_cap_bps` of the launch's liquidity, is a
    /// `u128` (always, for the caps a launch accepts).
    pub fn exit_budget_fits(&self) -> (b: bool)
        ensures
            b == (self.total_liquidity / 10_000 * self.exit_cap_bps <= u128::MAX),
    {
        (self.total_liquidity / 10_000).checked_mul(self.exit_cap_bps as u128).is_some()
    }

    /// Applies the timing rules to an exit and, when they admit it, records it: the seat
    /// must be at least `min_age_s` old, and unless it is the first exit of the current
    /// minute, the minute's exits must stay within `exit_cap_bps` of the launch's liquidity.
    pub fn apply_exit(&mut self, now: i64, entry_ts: i64, liquidity: u128) -> (r: Result<(), LaunchError>)
        requires
            old(self).total_liquidity / 10_000 * old(self).exit_cap_bps <= u128::MAX,
        ensures
            r == exit_verdict(*old(self), now, entry_ts, liquidity),
            r is Ok ==> *final(self) == after_exit(*old(self), now, liquidity),
            r is Err ==> *final(self) == *old(self),
    {
        if sat_sub_i64(now, entry_ts) < self.min_age_s as i64 {
            return Err(LaunchError::SeatTooYoung);
        }
        let window = now.checked_div_euclid(60).unwrap();
        let used = if self.window_start != window {
            0
        } else {
            self.window_liquidity
        };
        let budget = self.total_liquidity / 10_000 * self.exit_cap_bps as u128;
        if used > 0 && used.saturating_add(liquidity) > budget {
            return Err(LaunchError::ExitCapReached);
        }
        self.window_start = window;
        self.window_liquidity = used.saturating_add(liquidity);
        self.total_liquidity = self.total_liquidity.saturating_sub(liquidity);
        self.seats_open = self.seats_open.saturating_sub(1);
        Ok(())
    }
}

/// A seat old enough to exit always passes when it is the first exit of its minute, so no
/// seat is ever stuck behind the cap.
pub proof fn lemma_first_exit_in_window_passes(l: Launch, now: i64, entry_ts: i64, liquidity: u128)
    requires
        clamp_i64(now - entry_ts) >= l.min_age_s,
        l.window_start != exit_window(now) || l.window_liquidity == 0,
    ensures
        exit_verdict(l, now, entry_ts, liquidity) is Ok,
{
}

/// A seat younger than `min_age_s` never exits.
pub proof fn lemma_young_seat_refused(l: Launch, now: i64, entry_ts: i64, liquidity: u128)
    requires
        clamp_i64(now - entry_ts) < l.min_age_s,
    ensures
        exit_verdict(l, now, entry_ts, liquidity) == Err::<(), LaunchError>(LaunchError::SeatTooYoung),
{
}

/// After any admitted exit that was not the first of its minute, the minute's exited
/// liquidity is within the cap.
pub proof fn lemma_exit_cap_respected(l: Launch, now: i64, entry_ts: i64, liquidity: u128)
    requires
        exit_verdict(l, now, entry_ts, liquidity) is Ok,
        exited_in_window(l, now) > 0,
    ensures
        after_exit(l, now, liquidity).window_liquidity <= exit_budget(l),
{
}

/// What an exit pays out, from the vault readings before the withdrawal (`t0`, `q0`),
/// after it (`t1`, `q1`) and after collecting fees (`t2`, `q2`).
#[derive(Clone, Copy)]
pub struct ExitPayout {
    pub principal_token: u64,
    pub fees_token: u64,
    pub principal_quote: u64,
    pub fees_quote: u64,
    /// Tokens to the holder: the principal beyond the seed, plus all token fees.
    pub user_token: u64,
    /// Quote to the holder: all of it.
    pub user_quote: u64,
}

pub open spec fn sat_sub_u64(a: u64, b: u64) -> u64 {
    if a >= b {
        (a - b) as u64
    } else {
        0
    }
}

pub open spec fn sat_add_u64(a: u64, b: u64) -> u64 {
    if a + b > u64::MAX {
        u64::MAX
    } else {
        (a + b) as u64
    }
}

/// Seed clawback: seeded tokens stay in the reserve; the rest and all quote go to the holder.
pub fn exit_payout(t0: u64, t1: u64, t2: u64, q0: u64, q1: u64, q2: u64, seeded: u64) -> (p: ExitPayout)
    ensures
        p.principal_token == sat_sub_u64(t1, t0),
        p.fees_token == sat_sub_u64(t2, t1),
        p.principal_quote == sat_sub_u64(q1, q0),
        p.fees_quote == sat_sub_u64(q2, q1),
        p.user_token == sat_add_u64(sat_sub_u64(p.principal_token, seeded), p.fees_token),
        p.user_quote == sat_add_u64(p.principal_quote, p.fees_quote),
{
    let principal_token = t1.saturating_sub(t0);
    let fees_token = t2.saturating_sub(t1);
    let principal_quote = q1.saturating_sub(q0);
    let fees_quote = q2.saturating_sub(q1);
    ExitPayout {
        principal_token,
        fees_token,
        principal_quote,
        fees_quote,
        user_token: principal_token.saturating_sub(seeded).saturating_add(fees_token),
        user_quote: principal_quote.saturating_add(fees_quote),
    }
}

/// Of the principal tokens an exit withdraws, the holder gets exactly the part beyond the
/// seed and the reserve keeps the rest, which is never more than the seed.
pub proof fn lemma_seed_clawback(principal_token: u64, seeded: u64)
    ensures
        sat_sub_u64(principal_token, seeded) + (if principal_token < seeded { principal_token } else { seeded })
            == principal_token,
        (if principal_token < seeded { principal_token } else { seeded }) <= seeded,
{
}

/// An exit undoes what the seat's deposit added to the launch's liquidity and open-seat
/// count.
pub proof fn lemma_exit_undoes_deposit(
    before: Launch,
    seated: Launch,
    now: i64,
    entry_ts: i64,
    liquidity: u128,
    seeded: u64,
    quote_used: u64,
)
    requires
        before.total_liquidity + liquidity <= u128::MAX,
        before.seats_open + 1 <= u32::MAX,
        crate::instructions::deposit::after_deposit(before, seated, liquidity, seeded, quote_used),
        exit_verdict(seated, now, entry_ts, liquidity) is Ok,
    ensures
        after_exit(seated, now, liquidity).total_liquidity == before.total_liquidity,
        after_exit(seated, now, liquidity).seats_open == before.seats_open,
{
}

} // verus!
