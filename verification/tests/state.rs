use ladder_launch::constants::{Pubkey, ID, WHIRLPOOL_PROGRAM};
use ladder_launch::error::{LaunchError, ProgramFault};
use ladder_launch::state::whirlpool::{read_bundle_mint, read_pool, read_position, WHIRLPOOL_LEN};
use ladder_launch::state::{Launch, Seat, FLAG_BUNDLE_READY, FLAG_TOKEN_IS_A, LAUNCH_DISC, SEAT_DISC};

fn key(b: u8) -> Pubkey {
    let mut k = [0u8; 32];
    for (i, x) in k.iter_mut().enumerate() {
        *x = b.wrapping_add(i as u8);
    }
    k
}

fn sample_launch() -> Launch {
    Launch {
        disc: LAUNCH_DISC,
        bump: 254,
        token_mint: key(1),
        quote_mint: key(2),
        whirlpool: key(3),
        reserve_vault: key(4),
        quote_vault: key(5),
        creator: key(6),
        treasury: key(7),
        floor_position: key(8),
        bundle_mint: key(9),
        quote_token_program: key(10),
        next_index: 17,
        bundle_count: 3,
        min_age_s: 3600,
        exit_cap_bps: 500,
        lower_delta_ticks: -2432,
        floor_bps: 1000,
        creator_fee_bps: 5000,
        window_start: -12345,
        window_liquidity: 1u128 << 100,
        total_liquidity: u128::MAX - 7,
        tokens_dispensed: 42,
        quote_in: u64::MAX,
        seats_open: 9,
        flags: FLAG_TOKEN_IS_A | FLAG_BUNDLE_READY,
        quote_decimals: 9,
    }
}

fn sample_seat() -> Seat {
    Seat {
        disc: SEAT_DISC,
        bump: 251,
        launch: key(20),
        bundle_mint: key(21),
        bundle_index: 255,
        nft_mint: key(22),
        entry_ts: -1,
        seeded_tokens: 8_734_225_716,
        quote_in: 1_000_000_000,
        liquidity: 987_654_321_987_654_321,
        tick_lower: -2432,
        tick_upper: 443520,
    }
}

#[test]
fn launch_layout() {
    assert_eq!(Launch::LEN, 408, "Launch::LEN = {}", Launch::LEN);
    let l = sample_launch();
    let bytes = l.encode();
    assert_eq!(bytes.len(), Launch::LEN);
    // flags sit at byte 400
    assert_eq!(bytes[400], l.flags);
    assert_eq!(bytes[401], l.quote_decimals);
    assert_eq!(Seat::LEN, 148);
    assert_eq!(sample_seat().encode().len(), Seat::LEN);
}

#[test]
fn launch_encode_decode_round_trip() {
    let l = sample_launch();
    let bytes = l.encode();
    let back = Launch::decode(&bytes);
    assert_eq!(back.encode(), bytes);
    assert_eq!(back.total_liquidity, l.total_liquidity);
    assert_eq!(back.window_start, -12345);
    assert_eq!(back.lower_delta_ticks, -2432);
    assert_eq!(back.quote_token_program, key(10));
}

#[test]
fn seat_encode_decode_round_trip() {
    let s = sample_seat();
    let bytes = s.encode();
    let back = Seat::decode(&bytes);
    assert_eq!(back.encode(), bytes);
    assert_eq!(back.entry_ts, -1);
    assert_eq!(back.tick_lower, -2432);
    assert_eq!(back.liquidity, 987_654_321_987_654_321);
    // little-endian bundle index right after the two keys
    assert_eq!(bytes[66], 255);
    assert_eq!(bytes[67], 0);
}

#[test]
fn launch_load_checks_owner_size_and_discriminator() {
    let bytes = sample_launch().encode();
    assert!(matches!(
        Launch::load(&key(99), &bytes),
        Err(ProgramFault::Launch(LaunchError::InvalidAccountOwner))
    ));
    assert!(matches!(Launch::load(&ID, &bytes[..407]), Err(ProgramFault::InvalidAccountData)));
    let mut blank = bytes.clone();
    blank[0] = 0;
    assert!(matches!(Launch::load(&ID, &blank), Err(ProgramFault::Launch(LaunchError::NotInitialized))));
    let ok = Launch::load(&ID, &bytes).ok().unwrap();
    assert_eq!(ok.encode(), bytes);
}

#[test]
fn seat_load_checks_the_launch() {
    let s = sample_seat();
    let bytes = s.encode();
    assert!(Seat::load(&ID, &bytes, &key(20)).is_ok());
    assert!(matches!(
        Seat::load(&ID, &bytes, &key(21)),
        Err(ProgramFault::Launch(LaunchError::InvalidSeat))
    ));
    assert!(matches!(Seat::load(&ID, &bytes[..100], &key(20)), Err(ProgramFault::InvalidAccountData)));
    assert!(matches!(
        Seat::load(&WHIRLPOOL_PROGRAM, &bytes, &key(20)),
        Err(ProgramFault::Launch(LaunchError::InvalidAccountOwner))
    ));
}

#[test]
fn whirlpool_accounts_are_read_at_their_offsets() {
    let mut d = vec![0u8; WHIRLPOOL_LEN];
    d[41] = 128;
    d[65..81].copy_from_slice(&(1u128 << 64).to_le_bytes());
    d[81..85].copy_from_slice(&(-2432i32).to_le_bytes());
    d[101..133].copy_from_slice(&key(1));
    d[181..213].copy_from_slice(&key(2));
    let p = read_pool(&WHIRLPOOL_PROGRAM, &d).ok().unwrap();
    assert_eq!(p.tick_spacing, 128);
    assert_eq!(p.sqrt_price, 1u128 << 64);
    assert_eq!(p.tick_current_index, -2432);
    assert_eq!(p.token_mint_a, key(1));
    assert_eq!(p.token_mint_b, key(2));
    assert!(matches!(read_pool(&ID, &d), Err(ProgramFault::Launch(LaunchError::InvalidAccountOwner))));
    assert!(matches!(read_pool(&WHIRLPOOL_PROGRAM, &d[..600]), Err(ProgramFault::InvalidAccountData)));

    let mut pos = vec![0u8; 216];
    pos[8..40].copy_from_slice(&key(3));
    pos[40..72].copy_from_slice(&key(4));
    pos[72..88].copy_from_slice(&77u128.to_le_bytes());
    pos[112..120].copy_from_slice(&5u64.to_le_bytes());
    pos[136..144].copy_from_slice(&6u64.to_le_bytes());
    let v = read_position(&WHIRLPOOL_PROGRAM, &pos).ok().unwrap();
    assert_eq!(v.whirlpool, key(3));
    assert_eq!(v.position_mint, key(4));
    assert_eq!(v.liquidity, 77);
    assert_eq!((v.fee_owed_a, v.fee_owed_b), (5, 6));

    let mut bundle = vec![0u8; 136];
    bundle[8..40].copy_from_slice(&key(5));
    assert_eq!(read_bundle_mint(&WHIRLPOOL_PROGRAM, &bundle).ok().unwrap(), key(5));
}
