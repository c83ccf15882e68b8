//! Program ids, mints and the numeric parameters of every launch.
use vstd::prelude::*;

verus! {

/// A 32-byte account address.
pub type Pubkey = [u8; 32];

/// The Orca Whirlpool program.
pub const WHIRLPOOL_PROGRAM: Pubkey = [14, 3, 104, 95, 142, 144, 144, 83, 228, 88, 18, 28, 102, 245, 167, 106, 237, 199, 112, 106, 161, 28, 130, 248, 170, 149, 42, 143, 43, 120, 121, 169];

/// The SPL Token program.
pub const TOKEN_PROGRAM: Pubkey = [6, 221, 246, 225, 215, 101, 161, 147, 217, 203, 225, 70, 206, 235, 121, 172, 28, 180, 133, 237, 95, 91, 55, 145, 58, 140, 245, 133, 126, 255, 0, 169];

/// The Token-2022 program.
pub const TOKEN_2022_PROGRAM: Pubkey = [6, 221, 246, 225, 238, 117, 143, 222, 24, 66, 93, 188, 228, 108, 205, 218, 182, 26, 252, 77, 131, 185, 13, 39, 254, 189, 249, 40, 216, 161, 139, 252];

/// The associated token account program.
pub const ATA_PROGRAM: Pubkey = [140, 151, 37, 143, 78, 36, 137, 241, 187, 61, 16, 41, 20, 142, 13, 131, 11, 90, 19, 153, 218, 255, 16, 132, 4, 142, 123, 216, 219, 233, 248, 89];

/// The memo program.
pub const MEMO_PROGRAM: Pubkey = [5, 74, 83, 90, 153, 41, 33, 6, 77, 36, 232, 113, 96, 218, 56, 124, 124, 53, 181, 221, 188, 146, 187, 129, 228, 31, 168, 64, 65, 5, 68, 141];

/// The system program.
pub const SYSTEM_PROGRAM: Pubkey = [0, 0, 0, 0, 0, 0, 0, 0, 0, 0, 0, 0, 0, 0, 0, 0, 0, 0, 0, 0, 0, 0, 0, 0, 0, 0, 0, 0, 0, 0, 0, 0];

/// The rent sysvar.
pub const RENT_SYSVAR: Pubkey = [6, 167, 213, 23, 25, 44, 92, 81, 33, 140, 201, 76, 61, 74, 241, 127, 88, 218, 238, 8, 155, 161, 253, 68, 227, 219, 217, 138, 0, 0, 0, 0];

/// The wrapped SOL mint.
pub const WSOL_MINT: Pubkey = [6, 155, 136, 87, 254, 171, 129, 132, 251, 104, 127, 99, 70, 24, 192, 53, 218, 196, 57, 220, 26, 235, 59, 85, 152, 160, 240, 0, 0, 0, 0, 1];

/// WhirlpoolsConfig with the 25% protocol fee that hosts every launch pool.
pub const WHIRLPOOLS_CONFIG: Pubkey = [0, 129, 105, 85, 209, 166, 138, 17, 199, 140, 223, 21, 210, 118, 121, 109, 30, 191, 236, 165, 21, 27, 180, 27, 160, 54, 171, 107, 247, 182, 241, 205];

/// Adaptive fee tier on that config: tick spacing 128, 1% base, index 1032.
pub const ADAPTIVE_FEE_TIER: Pubkey = [82, 248, 29, 231, 185, 254, 216, 73, 228, 0, 45, 33, 157, 31, 74, 33, 105, 137, 161, 183, 165, 150, 7, 22, 95, 11, 247, 46, 79, 116, 65, 92];

/// This program's id.
pub const ID: Pubkey = [227, 90, 164, 10, 95, 13, 23, 65, 40, 180, 78, 228, 14, 8, 82, 38, 57, 130, 255, 12, 44, 94, 244, 145, 76, 36, 55, 177, 151, 141, 233, 119];

/// Fee tier index of [`ADAPTIVE_FEE_TIER`].
pub const FEE_TIER_INDEX: u16 = 1032;
pub const TICK_SPACING: i32 = 128;
pub const TICK_ARRAY_SIZE: i32 = 88;
pub const MAX_TICK_INDEX: i32 = 443636;
pub const MIN_TICK_INDEX: i32 = -443636;
/// Highest tick usable with tick spacing 128 (floor(MAX_TICK / 128) * 128).
pub const TOP_TICK: i32 = 443520;
/// Lowest tick usable with tick spacing 128.
pub const BOTTOM_TICK: i32 = -443520;
/// Lower bound offset for a 90% token / 10% quote position with an open top:
/// ln(1 / (9/8)^2) / ln(1.0001) = -2355.9, floored to the tick spacing.
pub const DEFAULT_LOWER_DELTA_TICKS: i32 = -2432;
/// A reserve at or below this many base units counts as empty (liquidity rounding dust).
pub const RESERVE_DUST: u64 = 1000;
/// Whirlpool position bundle capacity.
pub const BUNDLE_CAPACITY: u16 = 256;

/// Seed of the launch PDA: ["launch", token_mint].
pub const LAUNCH_SEED: [u8; 6] = [108, 97, 117, 110, 99, 104];
/// Seed of a seat PDA: ["seat", launch, bundle_mint, bundle_index_le].
pub const SEAT_SEED: [u8; 4] = [115, 101, 97, 116];

} // verus!
