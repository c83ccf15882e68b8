//! create_launch: validates the launch parameters and writes the initial launch state.
//! (Creating the Token-2022 mint with its metadata, minting the fixed supply into the
//! reserve, revoking the authorities and creating the vaults are invocations of other
//! programs, made by the caller.)
//!
//! Args: decimals u8 | supply u64 | min_age_s u32 | exit_cap_bps u16 | lower_delta_ticks i32
//!       | floor_bps u16 | creator_fee_bps u16 | name_len u8 | name | symbol_len u8 | symbol
//!       | uri_len u8 | uri   (limits: name 32, symbol 10, uri 200 bytes)
use vstd::prelude::*;
use crate::constants::Pubkey;
use crate::error::LaunchError;
use crate::instructions::{arg_at, read_i32, read_u16, read_u32, read_u64};
use crate::le::{from_twos_complement, key_less, key_lt, keys_equal, le_value};
use crate::state::{Launch, FLAG_TOKEN_IS_A, LAUNCH_DISC};

verus! {

/// The length-prefixed byte string at `at`: the bounds `(start, end)` of its bytes.
pub open spec fn prefixed_at(a: Seq<u8>, at: nat) -> Option<(nat, nat)> {
    if at < a.len() && at + 1 + a[at as int] <= a.len() {
        Some(((at + 1) as nat, (at + 1 + a[at as int]) as nat))
    } else {
        None
    }
}

/// Length-prefixed (u8) byte string at `at`; returns the bounds of its bytes (the rest of
/// the arguments start at the end bound).
fn read_bytes(a: &[u8], at: usize) -> (r: Result<(usize, usize), LaunchError>)
    requires
        at <= usize::MAX - 300,
    ensures
        match prefixed_at(a@, at as nat) {
            Some(b) => r == Ok::<(usize, usize), LaunchError>((b.0 as usize, b.1 as usize)),
            None => r == Err::<(usize, usize), LaunchError>(LaunchError::InvalidArgs),
        },
{
    if at >= a.len() {
        return Err(LaunchError::InvalidArgs);
    }
    let n = a[at] as usize;
    if a.len() < at + 1 + n {
        return Err(LaunchError::InvalidArgs);
    }
    Ok((at + 1, at + 1 + n))
}

fn copy_bytes(a: &[u8], start: usize, end: usize) -> (v: Vec<u8>)
    requires
        start <= end <= a@.len(),
    ensures
        v@ == a@.subrange(start as int, end as int),
{
    let mut v: Vec<u8> = Vec::new();
    let mut i = start;
    while i < end
        invariant
            start <= i <= end <= a@.len(),
            v@ == a@.subrange(start as int, i as int),
        decreases end - i,
    {
        v.push(a[i]);
        i = i + 1;
        proof {
            assert(v@ =~= a@.subrange(start as int, i as int));
        }
    }
    v
}

pub struct CreateLaunchArgs {
    pub decimals: u8,
    pub supply: u64,
    pub min_age_s: u32,
    pub exit_cap_bps: u16,
    pub lower_delta_ticks: i32,
    pub floor_bps: u16,
    pub creator_fee_bps: u16,
    pub name: Vec<u8>,
    pub symbol: Vec<u8>,
    pub uri: Vec<u8>,
}

/// The three strings' bounds, when the arguments hold the whole layout.
pub open spec fn string_bounds(a: Seq<u8>) -> Option<((nat, nat), (nat, nat), (nat, nat))> {
    if a.len() < 23 {
        None
    } else {
        match prefixed_at(a, 23) {
            None => None,
            Some(n) => match prefixed_at(a, n.1) {
                None => None,
                Some(s) => match prefixed_at(a, s.1) {
                    None => None,
                    Some(u) => Some((n, s, u)),
                },
            },
        }
    }
}

/// The parameters are within the bounds a launch accepts.
pub open spec fn params_ok(supply: nat, exit_cap_bps: nat, lower_delta_ticks: int, floor_bps: nat, creator_fee_bps: nat) -> bool {
    &&& supply != 0
    &&& 0 < exit_cap_bps <= 10_000
    &&& floor_bps < 5_000
    &&& creator_fee_bps <= 10_000
    &&& lower_delta_ticks < 0
}

/// The metadata strings fit their limits: name 32 bytes, symbol 10, uri 200.
pub open spec fn strings_ok(b: ((nat, nat), (nat, nat), (nat, nat))) -> bool {
    &&& b.0.1 - b.0.0 <= 32
    &&& b.1.1 - b.1.0 <= 10
    &&& b.2.1 - b.2.0 <= 200
}

/// The arguments parse and their parameters are accepted.
pub open spec fn create_args_ok(a: Seq<u8>) -> bool {
    &&& string_bounds(a) is Some
    &&& strings_ok(string_bounds(a)->Some_0)
    &&& params_ok(
        le_value(a.subrange(1, 9)),
        le_value(a.subrange(13, 15)),
        from_twos_complement(le_value(a.subrange(15, 19)), 32),
        le_value(a.subrange(19, 21)),
        le_value(a.subrange(21, 23)),
    )
}

/// `x` is what the arguments `a` say.
pub open spec fn create_args_fields(a: Seq<u8>, x: CreateLaunchArgs) -> bool {
    let b = string_bounds(a)->Some_0;
    &&& x.decimals == a[0]
    &&& x.supply == le_value(a.subrange(1, 9))
    &&& x.min_age_s == le_value(a.subrange(9, 13))
    &&& x.exit_cap_bps == le_value(a.subrange(13, 15))
    &&& x.lower_delta_ticks == from_twos_complement(le_value(a.subrange(15, 19)), 32)
    &&& x.floor_bps == le_value(a.subrange(19, 21))
    &&& x.creator_fee_bps == le_value(a.subrange(21, 23))
    &&& x.name@ == a.subrange(b.0.0 as int, b.0.1 as int)
    &&& x.symbol@ == a.subrange(b.1.0 as int, b.1.1 as int)
    &&& x.uri@ == a.subrange(b.2.0 as int, b.2.1 as int)
}

/// Parses and validates the create_launch arguments; every refusal is `InvalidArgs`.
pub fn parse_create_launch_args(args: &[u8]) -> (r: Result<CreateLaunchArgs, LaunchError>)
    requires
        args@.len() <= usize::MAX - 1000,
    ensures
        r is Ok <==> create_args_ok(args@),
        r is Err ==> r == Err::<CreateLaunchArgs, LaunchError>(LaunchError::InvalidArgs),
        r matches Ok(x) ==> create_args_fields(args@, x),
{
    if args.len() < 1 {
        return Err(LaunchError::InvalidArgs);
    }
    let decimals = args[0];
    let supply = match read_u64(args, 1) {
        Ok(v) => v,
        Err(e) => return Err(e),
    };
    let min_age_s = match read_u32(args, 9) {
        Ok(v) => v,
        Err(e) => return Err(e),
    };
    let exit_cap_bps = match read_u16(args, 13) {
        Ok(v) => v,
        Err(e) => return Err(e),
    };
    let lower_delta_ticks = match read_i32(args, 15) {
        Ok(v) => v,
        Err(e) => return Err(e),
    };
    let floor_bps = match read_u16(args, 19) {
        Ok(v) => v,
        Err(e) => return Err(e),
    };
    let creator_fee_bps = match read_u16(args, 21) {
        Ok(v) => v,
        Err(e) => return Err(e),
    };
    let (n0, n1) = match read_bytes(args, 23) {
        Ok(b) => b,
        Err(e) => return Err(e),
    };
    let (s0, s1) = match read_bytes(args, n1) {
        Ok(b) => b,
        Err(e) => return Err(e),
    };
    let (u0, u1) = match read_bytes(args, s1) {
        Ok(b) => b,
        Err(e) => return Err(e),
    };
    proof {
        crate::le::lemma_pow256_values();
        crate::le::lemma_le_value_bound(args@.subrange(1, 9));
        crate::le::lemma_le_value_bound(args@.subrange(9, 13));
        crate::le::lemma_le_value_bound(args@.subrange(13, 15));
        crate::le::lemma_le_value_bound(args@.subrange(15, 19));
        crate::le::lemma_le_value_bound(args@.subrange(19, 21));
        crate::le::lemma_le_value_bound(args@.subrange(21, 23));
        vstd::arithmetic::power2::lemma2_to64();
    }
    if supply == 0 || exit_cap_bps == 0 || exit_cap_bps > 10_000 || floor_bps >= 5_000 || creator_fee_bps > 10_000
        || lower_delta_ticks >= 0 {
        return Err(LaunchError::InvalidArgs);
    }
    if n1 - n0 > 32 || s1 - s0 > 10 || u1 - u0 > 200 {
        return Err(LaunchError::InvalidArgs);
    }
    Ok(CreateLaunchArgs {
        decimals,
        supply,
        min_age_s,
        exit_cap_bps,
        lower_delta_ticks,
        floor_bps,
        creator_fee_bps,
        name: copy_bytes(args, n0, n1),
        symbol: copy_bytes(args, s0, s1),
        uri: copy_bytes(args, u0, u1),
    })
}

/// Whether the launch token is Whirlpool token A: its mint sorts below the quote mint.
/// The two mints must differ.
pub fn token_side(token_mint: &Pubkey, quote_mint: &Pubkey) -> (r: Result<bool, LaunchError>)
    ensures
        r == if token_mint@ == quote_mint@ {
            Err(LaunchError::InvalidMint)
        } else {
            Ok::<bool, LaunchError>(key_less(token_mint@, quote_mint@))
        },
{
    if keys_equal(token_mint, quote_mint) {
        return Err(LaunchError::InvalidMint);
    }
    Ok(key_lt(token_mint, quote_mint))
}

/// The addresses a new launch records.
pub struct LaunchKeys {
    pub token_mint: Pubkey,
    pub quote_mint: Pubkey,
    pub quote_token_program: Pubkey,
    pub reserve_vault: Pubkey,
    pub quote_vault: Pubkey,
    pub creator: Pubkey,
    pub treasury: Pubkey,
}

impl Launch {
    /// The state of a new launch: its addresses and parameters, no pool, bundle, floor or
    /// seat yet, and every counter at zero.
    pub fn new_launch(bump: u8, keys: &LaunchKeys, quote_decimals: u8, args: &CreateLaunchArgs, token_is_a: bool) -> (l: Launch)
        requires
            params_ok(args.supply as nat, args.exit_cap_bps as nat, args.lower_delta_ticks as int, args.floor_bps as nat, args.creator_fee_bps as nat),
        ensures
            l.params_valid(),
            l.bump == bump,
            l.token_mint == keys.token_mint,
            l.quote_mint == keys.quote_mint,
            l.quote_token_program == keys.quote_token_program,
            l.reserve_vault == keys.reserve_vault,
            l.quote_vault == keys.quote_vault,
            l.creator == keys.creator,
            l.treasury == keys.treasury,
            l.whirlpool@ == seq![0u8; 32],
            l.floor_position@ == seq![0u8; 32],
            l.bundle_mint@ == seq![0u8; 32],
            l.quote_decimals == quote_decimals,
            l.min_age_s == args.min_age_s,
            l.exit_cap_bps == args.exit_cap_bps,
            l.lower_delta_ticks == args.lower_delta_ticks,
            l.floor_bps == args.floor_bps,
            l.creator_fee_bps == args.creator_fee_bps,
            l.next_index == 0 && l.bundle_count == 0 && l.window_start == 0 && l.window_liquidity == 0,
            l.total_liquidity == 0 && l.tokens_dispensed == 0 && l.quote_in == 0 && l.seats_open == 0,
            l.flags == if token_is_a { FLAG_TOKEN_IS_A } else { 0 },
    {
        let zero = [0u8; 32];
        proof {
            assert(zero@ =~= seq![0u8; 32]);
        }
        Launch {
            disc: LAUNCH_DISC,
            bump,
            token_mint: keys.token_mint,
            quote_mint: keys.quote_mint,
            whirlpool: zero,
            reserve_vault: keys.reserve_vault,
            quote_vault: keys.quote_vault,
            creator: keys.creator,
            treasury: keys.treasury,
            floor_position: zero,
            bundle_mint: zero,
            quote_token_program: keys.quote_token_program,
            next_index: 0,
            bundle_count: 0,
            min_age_s: args.min_age_s,
            exit_cap_bps: args.exit_cap_bps,
            lower_delta_ticks: args.lower_delta_ticks,
            floor_bps: args.floor_bps,
            creator_fee_bps: args.creator_fee_bps,
            window_start: 0,
            window_liquidity: 0,
            total_liquidity: 0,
            tokens_dispensed: 0,
            quote_in: 0,
            seats_open: 0,
            flags: if token_is_a { FLAG_TOKEN_IS_A } else { 0 },
            quote_decimals,
        }
    }
}

} // verus!
