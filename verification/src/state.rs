//! Account state. Every multi-byte field is stored little-endian so the layouts are
//! alignment-free; `decode` and `encode` are the two directions of that layout.
pub mod whirlpool;

use vstd::prelude::*;
use crate::constants::{Pubkey, ID};
use crate::error::{LaunchError, ProgramFault};
use crate::le::{
    i32_bits, i32_from_bits, i64_bits, i64_from_bits, keys_equal, le_bytes, le_value,
    lemma_le_roundtrip, lemma_le_value_bound, lemma_pow256_values,
    lemma_twos_complement_roundtrip, read_key, read_le, twos_complement, from_twos_complement,
    write_key, write_le,
};

verus! {

pub const LAUNCH_DISC: u8 = 1;
pub const SEAT_DISC: u8 = 2;

pub const FLAG_POOL_INITIALIZED: u8 = 1;
pub const FLAG_FLOOR_SEEDED: u8 = 2;
pub const FLAG_BUNDLE_READY: u8 = 4;
/// The launch token is Whirlpool token A (its pubkey sorts below the quote mint's).
pub const FLAG_TOKEN_IS_A: u8 = 8;

/// One per launched token. PDA: ["launch", token_mint].
#[derive(Clone, Copy)]
pub struct Launch {
    pub disc: u8,
    pub bump: u8,
    pub token_mint: Pubkey,
    pub quote_mint: Pubkey,
    pub whirlpool: Pubkey,
    pub reserve_vault: Pubkey,
    pub quote_vault: Pubkey,
    pub creator: Pubkey,
    pub treasury: Pubkey,
    pub floor_position: Pubkey,
    pub bundle_mint: Pubkey,
    pub quote_token_program: Pubkey,
    /// Index of the next seat in the current position bundle.
    pub next_index: u16,
    /// Position bundles opened so far.
    pub bundle_count: u16,
    /// Seconds a seat must be held before it may exit.
    pub min_age_s: u32,
    /// Share of the launch's liquidity that may exit per minute, in basis points.
    pub exit_cap_bps: u16,
    /// Offset (negative) of a seat's lower tick from spot on the quote side.
    pub lower_delta_ticks: i32,
    /// Share of the reserve seeded into the locked floor position, in basis points.
    pub floor_bps: u16,
    /// Creator's share of the floor position's fees, in basis points.
    pub creator_fee_bps: u16,
    /// Minute (unix time / 60) of the current exit window.
    pub window_start: i64,
    /// Liquidity exited in the current window.
    pub window_liquidity: u128,
    /// Liquidity of all open seats.
    pub total_liquidity: u128,
    /// Tokens moved out of the reserve into positions.
    pub tokens_dispensed: u64,
    /// Quote paid in by all seats.
    pub quote_in: u64,
    /// Seats not yet exited.
    pub seats_open: u32,
    pub flags: u8,
    pub quote_decimals: u8,
}

/// The account bytes that hold `x` (408 bytes; every multi-byte field little-endian).
pub open spec fn launch_bytes(x: Launch) -> Seq<u8> {
    seq![x.disc]
        + seq![x.bump]
        + x.token_mint@
        + x.quote_mint@
        + x.whirlpool@
        + x.reserve_vault@
        + x.quote_vault@
        + x.creator@
        + x.treasury@
        + x.floor_position@
        + x.bundle_mint@
        + x.quote_token_program@
        + le_bytes(x.next_index as nat, 2)
        + le_bytes(x.bundle_count as nat, 2)
        + le_bytes(x.min_age_s as nat, 4)
        + le_bytes(x.exit_cap_bps as nat, 2)
        + le_bytes(twos_complement(x.lower_delta_ticks as int, 32), 4)
        + le_bytes(x.floor_bps as nat, 2)
        + le_bytes(x.creator_fee_bps as nat, 2)
        + le_bytes(twos_complement(x.window_start as int, 64), 8)
        + le_bytes(x.window_liquidity as nat, 16)
        + le_bytes(x.total_liquidity as nat, 16)
        + le_bytes(x.tokens_dispensed as nat, 8)
        + le_bytes(x.quote_in as nat, 8)
        + le_bytes(x.seats_open as nat, 4)
        + seq![x.flags]
        + seq![x.quote_decimals]
        + seq![0u8, 0u8, 0u8, 0u8, 0u8, 0u8]
}

/// `x` is what the account bytes `d` hold.
pub open spec fn launch_decodes_to(d: Seq<u8>, x: Launch) -> bool {
    &&& d.len() >= 408
    &&& x.disc == d[0]
    &&& x.bump == d[1]
    &&& x.token_mint@ == d.subrange(2, 34)
    &&& x.quote_mint@ == d.subrange(34, 66)
    &&& x.whirlpool@ == d.subrange(66, 98)
    &&& x.reserve_vault@ == d.subrange(98, 130)
    &&& x.quote_vault@ == d.subrange(130, 162)
    &&& x.creator@ == d.subrange(162, 194)
    &&& x.treasury@ == d.subrange(194, 226)
    &&& x.floor_position@ == d.subrange(226, 258)
    &&& x.bundle_mint@ == d.subrange(258, 290)
    &&& x.quote_token_program@ == d.subrange(290, 322)
    &&& x.next_index == le_value(d.subrange(322, 324))
    &&& x.bundle_count == le_value(d.subrange(324, 326))
    &&& x.min_age_s == le_value(d.subrange(326, 330))
    &&& x.exit_cap_bps == le_value(d.subrange(330, 332))
    &&& x.lower_delta_ticks == from_twos_complement(le_value(d.subrange(332, 336)), 32)
    &&& x.floor_bps == le_value(d.subrange(336, 338))
    &&& x.creator_fee_bps == le_value(d.subrange(338, 340))
    &&& x.window_start == from_twos_complement(le_value(d.subrange(340, 348)), 64)
    &&& x.window_liquidity == le_value(d.subrange(348, 364))
    &&& x.total_liquidity == le_value(d.subrange(364, 380))
    &&& x.tokens_dispensed == le_value(d.subrange(380, 388))
    &&& x.quote_in == le_value(d.subrange(388, 396))
    &&& x.seats_open == le_value(d.subrange(396, 400))
    &&& x.flags == d[400]
    &&& x.quote_decimals == d[401]
}

impl Launch {
    pub const LEN: usize = 408;

    /// Reads the fields out of account bytes (no check of owner or discriminator).
    pub fn decode(data: &[u8]) -> (r: Launch)
        requires
            data@.len() >= 408,
        ensures
            launch_decodes_to(data@, r),
    {
        proof {
            lemma_pow256_values();
            lemma_le_value_bound(data@.subrange(322, 324));
            lemma_le_value_bound(data@.subrange(324, 326));
            lemma_le_value_bound(data@.subrange(326, 330));
            lemma_le_value_bound(data@.subrange(330, 332));
            lemma_le_value_bound(data@.subrange(332, 336));
            lemma_le_value_bound(data@.subrange(336, 338));
            lemma_le_value_bound(data@.subrange(338, 340));
            lemma_le_value_bound(data@.subrange(340, 348));
            lemma_le_value_bound(data@.subrange(348, 364));
            lemma_le_value_bound(data@.subrange(364, 380));
            lemma_le_value_bound(data@.subrange(380, 388));
            lemma_le_value_bound(data@.subrange(388, 396));
            lemma_le_value_bound(data@.subrange(396, 400));
        }
        Launch {
            disc: data[0],
            bump: data[1],
            token_mint: read_key(data, 2),
            quote_mint: read_key(data, 34),
            whirlpool: read_key(data, 66),
            reserve_vault: read_key(data, 98),
            quote_vault: read_key(data, 130),
            creator: read_key(data, 162),
            treasury: read_key(data, 194),
            floor_position: read_key(data, 226),
            bundle_mint: read_key(data, 258),
            quote_token_program: read_key(data, 290),
            next_index: read_le(data, 322, 2) as u16,
            bundle_count: read_le(data, 324, 2) as u16,
            min_age_s: read_le(data, 326, 4) as u32,
            exit_cap_bps: read_le(data, 330, 2) as u16,
            lower_delta_ticks: i32_from_bits(read_le(data, 332, 4) as u32),
            floor_bps: read_le(data, 336, 2) as u16,
            creator_fee_bps: read_le(data, 338, 2) as u16,
            window_start: i64_from_bits(read_le(data, 340, 8) as u64),
            window_liquidity: read_le(data, 348, 16) as u128,
            total_liquidity: read_le(data, 364, 16) as u128,
            tokens_dispensed: read_le(data, 380, 8) as u64,
            quote_in: read_le(data, 388, 8) as u64,
            seats_open: read_le(data, 396, 4) as u32,
            flags: data[400],
            quote_decimals: data[401],
        }
    }

    /// The account bytes that hold this value.
    pub fn encode(&self) -> (r: Vec<u8>)
        ensures
            r@ == launch_bytes(*self),
    {
        let mut out: Vec<u8> = Vec::new();
        out.push(self.disc);
        out.push(self.bump);
        write_key(&mut out, &self.token_mint);
        write_key(&mut out, &self.quote_mint);
        write_key(&mut out, &self.whirlpool);
        write_key(&mut out, &self.reserve_vault);
        write_key(&mut out, &self.quote_vault);
        write_key(&mut out, &self.creator);
        write_key(&mut out, &self.treasury);
        write_key(&mut out, &self.floor_position);
        write_key(&mut out, &self.bundle_mint);
        write_key(&mut out, &self.quote_token_program);
        write_le(&mut out, self.next_index as u128, 2);
        write_le(&mut out, self.bundle_count as u128, 2);
        write_le(&mut out, self.min_age_s as u128, 4);
        write_le(&mut out, self.exit_cap_bps as u128, 2);
        write_le(&mut out, i32_bits(self.lower_delta_ticks) as u128, 4);
        write_le(&mut out, self.floor_bps as u128, 2);
        write_le(&mut out, self.creator_fee_bps as u128, 2);
        write_le(&mut out, i64_bits(self.window_start) as u128, 8);
        write_le(&mut out, self.window_liquidity as u128, 16);
        write_le(&mut out, self.total_liquidity as u128, 16);
        write_le(&mut out, self.tokens_dispensed as u128, 8);
        write_le(&mut out, self.quote_in as u128, 8);
        write_le(&mut out, self.seats_open as u128, 4);
        out.push(self.flags);
        out.push(self.quote_decimals);
        out.push(0);
        out.push(0);
        out.push(0);
        out.push(0);
        out.push(0);
        out.push(0);
        proof {
            assert(out@ =~= launch_bytes(*self));
        }
        out
    }
}

/// Reading back the bytes that hold `x` gives `x`, and nothing else.
pub proof fn lemma_launch_roundtrip(x: Launch, y: Launch)
    ensures
        launch_bytes(x).len() == 408,
        launch_decodes_to(launch_bytes(x), x),
        launch_decodes_to(launch_bytes(x), y) ==> y == x,
{
    lemma_pow256_values();
    vstd::arithmetic::power2::lemma2_to64();
    vstd::arithmetic::power2::lemma2_to64_rest();
    let b = launch_bytes(x);
    lemma_le_roundtrip(x.next_index as nat, 2);
    lemma_le_roundtrip(x.bundle_count as nat, 2);
    lemma_le_roundtrip(x.min_age_s as nat, 4);
    lemma_le_roundtrip(x.exit_cap_bps as nat, 2);
    lemma_twos_complement_roundtrip(x.lower_delta_ticks as int, 32);
    lemma_le_roundtrip(twos_complement(x.lower_delta_ticks as int, 32), 4);
    lemma_le_roundtrip(x.floor_bps as nat, 2);
    lemma_le_roundtrip(x.creator_fee_bps as nat, 2);
    lemma_twos_complement_roundtrip(x.window_start as int, 64);
    lemma_le_roundtrip(twos_complement(x.window_start as int, 64), 8);
    lemma_le_roundtrip(x.window_liquidity as nat, 16);
    lemma_le_roundtrip(x.total_liquidity as nat, 16);
    lemma_le_roundtrip(x.tokens_dispensed as nat, 8);
    lemma_le_roundtrip(x.quote_in as nat, 8);
    lemma_le_roundtrip(x.seats_open as nat, 4);
    assert(b.len() == 408);
    assert(b[0] == x.disc);
    assert(b[1] == x.bump);
    assert(b.subrange(2, 34) =~= x.token_mint@);
    assert(b.subrange(34, 66) =~= x.quote_mint@);
    assert(b.subrange(66, 98) =~= x.whirlpool@);
    assert(b.subrange(98, 130) =~= x.reserve_vault@);
    assert(b.subrange(130, 162) =~= x.quote_vault@);
    assert(b.subrange(162, 194) =~= x.creator@);
    assert(b.subrange(194, 226) =~= x.treasury@);
    assert(b.subrange(226, 258) =~= x.floor_position@);
    assert(b.subrange(258, 290) =~= x.bundle_mint@);
    assert(b.subrange(290, 322) =~= x.quote_token_program@);
    assert(b.subrange(322, 324) =~= le_bytes(x.next_index as nat, 2));
    assert(b.subrange(324, 326) =~= le_bytes(x.bundle_count as nat, 2));
    assert(b.subrange(326, 330) =~= le_bytes(x.min_age_s as nat, 4));
    assert(b.subrange(330, 332) =~= le_bytes(x.exit_cap_bps as nat, 2));
    assert(b.subrange(332, 336) =~= le_bytes(twos_complement(x.lower_delta_ticks as int, 32), 4));
    assert(b.subrange(336, 338) =~= le_bytes(x.floor_bps as nat, 2));
    assert(b.subrange(338, 340) =~= le_bytes(x.creator_fee_bps as nat, 2));
    assert(b.subrange(340, 348) =~= le_bytes(twos_complement(x.window_start as int, 64), 8));
    assert(b.subrange(348, 364) =~= le_bytes(x.window_liquidity as nat, 16));
    assert(b.subrange(364, 380) =~= le_bytes(x.total_liquidity as nat, 16));
    assert(b.subrange(380, 388) =~= le_bytes(x.tokens_dispensed as nat, 8));
    assert(b.subrange(388, 396) =~= le_bytes(x.quote_in as nat, 8));
    assert(b.subrange(396, 400) =~= le_bytes(x.seats_open as nat, 4));
    assert(b[400] == x.flags);
    assert(b[401] == x.quote_decimals);
    if launch_decodes_to(b, y) {
        assert(y.token_mint =~= x.token_mint);
        assert(y.quote_mint =~= x.quote_mint);
        assert(y.whirlpool =~= x.whirlpool);
        assert(y.reserve_vault =~= x.reserve_vault);
        assert(y.quote_vault =~= x.quote_vault);
        assert(y.creator =~= x.creator);
        assert(y.treasury =~= x.treasury);
        assert(y.floor_position =~= x.floor_position);
        assert(y.bundle_mint =~= x.bundle_mint);
        assert(y.quote_token_program =~= x.quote_token_program);
    }
}

/// One per deposit. PDA: ["seat", launch, bundle_mint, bundle_index_le].
#[derive(Clone, Copy)]
pub struct Seat {
    pub disc: u8,
    pub bump: u8,
    pub launch: Pubkey,
    pub bundle_mint: Pubkey,
    pub bundle_index: u16,
    pub nft_mint: Pubkey,
    /// Unix time of the deposit.
    pub entry_ts: i64,
    /// Reserve tokens the deposit placed in the position.
    pub seeded_tokens: u64,
    /// Quote the position took.
    pub quote_in: u64,
    /// Liquidity of the position.
    pub liquidity: u128,
    pub tick_lower: i32,
    pub tick_upper: i32,
}

/// The account bytes that hold `x` (148 bytes; every multi-byte field little-endian).
pub open spec fn seat_bytes(x: Seat) -> Seq<u8> {
    seq![x.disc]
        + seq![x.bump]
        + x.launch@
        + x.bundle_mint@
        + le_bytes(x.bundle_index as nat, 2)
        + x.nft_mint@
        + le_bytes(twos_complement(x.entry_ts as int, 64), 8)
        + le_bytes(x.seeded_tokens as nat, 8)
        + le_bytes(x.quote_in as nat, 8)
        + le_bytes(x.liquidity as nat, 16)
        + le_bytes(twos_complement(x.tick_lower as int, 32), 4)
        + le_bytes(twos_complement(x.tick_upper as int, 32), 4)
}

/// `x` is what the account bytes `d` hold.
pub open spec fn seat_decodes_to(d: Seq<u8>, x: Seat) -> bool {
    &&& d.len() >= 148
    &&& x.disc == d[0]
    &&& x.bump == d[1]
    &&& x.launch@ == d.subrange(2, 34)
    &&& x.bundle_mint@ == d.subrange(34, 66)
    &&& x.bundle_index == le_value(d.subrange(66, 68))
    &&& x.nft_mint@ == d.subrange(68, 100)
    &&& x.entry_ts == from_twos_complement(le_value(d.subrange(100, 108)), 64)
    &&& x.seeded_tokens == le_value(d.subrange(108, 116))
    &&& x.quote_in == le_value(d.subrange(116, 124))
    &&& x.liquidity == le_value(d.subrange(124, 140))
    &&& x.tick_lower == from_twos_complement(le_value(d.subrange(140, 144)), 32)
    &&& x.tick_upper == from_twos_complement(le_value(d.subrange(144, 148)), 32)
}

impl Seat {
    pub const LEN: usize = 148;

    /// Reads the fields out of account bytes (no check of owner or discriminator).
    pub fn decode(data: &[u8]) -> (r: Seat)
        requires
            data@.len() >= 148,
        ensures
            seat_decodes_to(data@, r),
    {
        proof {
            lemma_pow256_values();
            lemma_le_value_bound(data@.subrange(66, 68));
            lemma_le_value_bound(data@.subrange(100, 108));
            lemma_le_value_bound(data@.subrange(108, 116));
            lemma_le_value_bound(data@.subrange(116, 124));
            lemma_le_value_bound(data@.subrange(124, 140));
            lemma_le_value_bound(data@.subrange(140, 144));
            lemma_le_value_bound(data@.subrange(144, 148));
        }
        Seat {
            disc: data[0],
            bump: data[1],
            launch: read_key(data, 2),
            bundle_mint: read_key(data, 34),
            bundle_index: read_le(data, 66, 2) as u16,
            nft_mint: read_key(data, 68),
            entry_ts: i64_from_bits(read_le(data, 100, 8) as u64),
            seeded_tokens: read_le(data, 108, 8) as u64,
            quote_in: read_le(data, 116, 8) as u64,
            liquidity: read_le(data, 124, 16) as u128,
            tick_lower: i32_from_bits(read_le(data, 140, 4) as u32),
            tick_upper: i32_from_bits(read_le(data, 144, 4) as u32),
        }
    }

    /// The account bytes that hold this value.
    pub fn encode(&self) -> (r: Vec<u8>)
        ensures
            r@ == seat_bytes(*self),
    {
        let mut out: Vec<u8> = Vec::new();
        out.push(self.disc);
        out.push(self.bump);
        write_key(&mut out, &self.launch);
        write_key(&mut out, &self.bundle_mint);
        write_le(&mut out, self.bundle_index as u128, 2);
        write_key(&mut out, &self.nft_mint);
        write_le(&mut out, i64_bits(self.entry_ts) as u128, 8);
        write_le(&mut out, self.seeded_tokens as u128, 8);
        write_le(&mut out, self.quote_in as u128, 8);
        write_le(&mut out, self.liquidity as u128, 16);
        write_le(&mut out, i32_bits(self.tick_lower) as u128, 4);
        write_le(&mut out, i32_bits(self.tick_upper) as u128, 4);
        proof {
            assert(out@ =~= seat_bytes(*self));
        }
        out
    }
}

/// Reading back the bytes that hold `x` gives `x`, and nothing else.
pub proof fn lemma_seat_roundtrip(x: Seat, y: Seat)
    ensures
        seat_bytes(x).len() == 148,
        seat_decodes_to(seat_bytes(x), x),
        seat_decodes_to(seat_bytes(x), y) ==> y == x,
{
    lemma_pow256_values();
    vstd::arithmetic::power2::lemma2_to64();
    vstd::arithmetic::power2::lemma2_to64_rest();
    let b = seat_bytes(x);
    lemma_le_roundtrip(x.bundle_index as nat, 2);
    lemma_twos_complement_roundtrip(x.entry_ts as int, 64);
    lemma_le_roundtrip(twos_complement(x.entry_ts as int, 64), 8);
    lemma_le_roundtrip(x.seeded_tokens as nat, 8);
    lemma_le_roundtrip(x.quote_in as nat, 8);
    lemma_le_roundtrip(x.liquidity as nat, 16);
    lemma_twos_complement_roundtrip(x.tick_lower as int, 32);
    lemma_le_roundtrip(twos_complement(x.tick_lower as int, 32), 4);
    lemma_twos_complement_roundtrip(x.tick_upper as int, 32);
    lemma_le_roundtrip(twos_complement(x.tick_upper as int, 32), 4);
    assert(b.len() == 148);
    assert(b[0] == x.disc);
    assert(b[1] == x.bump);
    assert(b.subrange(2, 34) =~= x.launch@);
    assert(b.subrange(34, 66) =~= x.bundle_mint@);
    assert(b.subrange(66, 68) =~= le_bytes(x.bundle_index as nat, 2));
    assert(b.subrange(68, 100) =~= x.nft_mint@);
    assert(b.subrange(100, 108) =~= le_bytes(twos_complement(x.entry_ts as int, 64), 8));
    assert(b.subrange(108, 116) =~= le_bytes(x.seeded_tokens as nat, 8));
    assert(b.subrange(116, 124) =~= le_bytes(x.quote_in as nat, 8));
    assert(b.subrange(124, 140) =~= le_bytes(x.liquidity as nat, 16));
    assert(b.subrange(140, 144) =~= le_bytes(twos_complement(x.tick_lower as int, 32), 4));
    assert(b.subrange(144, 148) =~= le_bytes(twos_complement(x.tick_upper as int, 32), 4));
    if seat_decodes_to(b, y) {
        assert(y.launch =~= x.launch);
        assert(y.bundle_mint =~= x.bundle_mint);
        assert(y.nft_mint =~= x.nft_mint);
    }
}

impl Launch {
    /// Whether `flag` is set.
    #[inline(always)]
    pub fn has(&self, flag: u8) -> (b: bool)
        ensures
            b == (self.flags & flag != 0),
    {
        self.flags & flag != 0
    }

    /// The parameters chosen at creation are within the bounds `create_launch` enforces.
    pub open spec fn params_valid(self) -> bool {
        &&& self.disc == LAUNCH_DISC
        &&& 0 < self.exit_cap_bps <= 10_000
        &&& self.floor_bps < 5_000
        &&& self.creator_fee_bps <= 10_000
        &&& self.lower_delta_ticks < 0
    }

    /// Reads an initialized launch out of a program-owned account. (The PDA check needs
    /// the runtime and is made by the caller.)
    pub fn load(owner: &Pubkey, data: &[u8]) -> (r: Result<Launch, ProgramFault>)
        ensures
            owner@ != ID@ ==> r == Err::<Launch, ProgramFault>(
                ProgramFault::Launch(LaunchError::InvalidAccountOwner),
            ),
            owner@ == ID@ && data@.len() < Launch::LEN ==> r == Err::<Launch, ProgramFault>(
                ProgramFault::InvalidAccountData,
            ),
            owner@ == ID@ && data@.len() >= Launch::LEN ==> (r is Ok <==> data@[0] == LAUNCH_DISC),
            owner@ == ID@ && data@.len() >= Launch::LEN && data@[0] != LAUNCH_DISC ==> r
                == Err::<Launch, ProgramFault>(ProgramFault::Launch(LaunchError::NotInitialized)),
            r matches Ok(l) ==> launch_decodes_to(data@, l) && l.disc == LAUNCH_DISC,
    {
        if !keys_equal(owner, &ID) {
            return Err(ProgramFault::Launch(LaunchError::InvalidAccountOwner));
        }
        if data.len() < Launch::LEN {
            return Err(ProgramFault::InvalidAccountData);
        }
        let launch = Launch::decode(data);
        if launch.disc != LAUNCH_DISC {
            return Err(ProgramFault::Launch(LaunchError::NotInitialized));
        }
        Ok(launch)
    }
}

impl Seat {
    /// Reads a seat of `launch` out of a program-owned account.
    pub fn load(owner: &Pubkey, data: &[u8], launch: &Pubkey) -> (r: Result<Seat, ProgramFault>)
        ensures
            owner@ != ID@ ==> r == Err::<Seat, ProgramFault>(
                ProgramFault::Launch(LaunchError::InvalidAccountOwner),
            ),
            owner@ == ID@ && data@.len() < Seat::LEN ==> r == Err::<Seat, ProgramFault>(
                ProgramFault::InvalidAccountData,
            ),
            owner@ == ID@ && data@.len() >= Seat::LEN ==> (r is Ok <==> (data@[0] == SEAT_DISC
                && data@.subrange(2, 34) == launch@)),
            owner@ == ID@ && data@.len() >= Seat::LEN && !(data@[0] == SEAT_DISC
                && data@.subrange(2, 34) == launch@) ==> r == Err::<Seat, ProgramFault>(
                ProgramFault::Launch(LaunchError::InvalidSeat),
            ),
            r matches Ok(s) ==> seat_decodes_to(data@, s),
    {
        if !keys_equal(owner, &ID) {
            return Err(ProgramFault::Launch(LaunchError::InvalidAccountOwner));
        }
        if data.len() < Seat::LEN {
            return Err(ProgramFault::InvalidAccountData);
        }
        let seat = Seat::decode(data);
        if seat.disc != SEAT_DISC || !keys_equal(&seat.launch, launch) {
            return Err(ProgramFault::Launch(LaunchError::InvalidSeat));
        }
        Ok(seat)
    }
}

} // verus!
