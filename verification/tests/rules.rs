use ladder_launch::constants::{Pubkey, ID, TOKEN_2022_PROGRAM, TOKEN_PROGRAM, WHIRLPOOL_PROGRAM};
use ladder_launch::cpi::{
    bare_data, check_quote_mint, close_bundled_position_data, collect_fees_v2_data, initialize_pool_data,
    invoke_accounts, liquidity_v2_data, open_bundled_position_data, transfer_checked_data, D_COLLECT_FEES_V2,
    D_INCREASE_LIQUIDITY_V2, D_UPDATE_FEES_AND_REWARDS,
};
use ladder_launch::cpi::{
    credit_lamports, initialize_pool_metas, liquidity_v2_metas, transfer_checked_metas, transfer_wanted,
    InitPoolAccounts, LiquidityAccounts,
    initialize_metadata_pointer_data, initialize_mint2_data, metadata_mint_space, metadata_update_authority_none_data,
    mint_to_data, revoke_authority_data, token_metadata_initialize_data, D_METADATA_INITIALIZE,
    D_METADATA_UPDATE_AUTHORITY, MINT_WITH_POINTER_LEN,
};
use ladder_launch::error::{LaunchError, ProgramFault};
use ladder_launch::instructions::collect_floor_fees::split_floor_fees;
use ladder_launch::instructions::create_launch::{parse_create_launch_args, token_side, LaunchKeys};
use ladder_launch::instructions::deposit::{
    check_deposit, check_reserve, deposit_tick_in_range, increase_limits, next_seat_index, plan_deposit, seat_range, seeded_tokens,
};
use ladder_launch::instructions::exit::{check_holder, exit_payout};
use ladder_launch::instructions::seed_floor::{floor_amount, plan_floor};
use ladder_launch::instructions::{read_i32, read_u16, read_u32, read_u64};
use ladder_launch::math::{amount_delta_a, amount_delta_b, liquidity_from_token_b, sqrt_price_from_tick_index};
use ladder_launch::state::{Launch, FLAG_BUNDLE_READY, FLAG_POOL_INITIALIZED, FLAG_TOKEN_IS_A};
use ladder_launch::{decode_instruction, Instruction};

fn key(b: u8) -> Pubkey {
    [b; 32]
}

fn create_args(supply: u64, exit_cap_bps: u16, delta: i32, floor_bps: u16, creator_fee_bps: u16) -> Vec<u8> {
    create_args_with(supply, exit_cap_bps, delta, floor_bps, creator_fee_bps, b"Ladder", b"LDR", b"https://x.y/z.json")
}

#[allow(clippy::too_many_arguments)]
fn create_args_with(
    supply: u64,
    exit_cap_bps: u16,
    delta: i32,
    floor_bps: u16,
    creator_fee_bps: u16,
    name: &[u8],
    symbol: &[u8],
    uri: &[u8],
) -> Vec<u8> {
    let mut a = vec![9u8];
    a.extend_from_slice(&supply.to_le_bytes());
    a.extend_from_slice(&3600u32.to_le_bytes());
    a.extend_from_slice(&exit_cap_bps.to_le_bytes());
    a.extend_from_slice(&delta.to_le_bytes());
    a.extend_from_slice(&floor_bps.to_le_bytes());
    a.extend_from_slice(&creator_fee_bps.to_le_bytes());
    for s in [name, symbol, uri] {
        a.push(s.len() as u8);
        a.extend_from_slice(s);
    }
    a
}

fn fresh_launch(token_is_a: bool) -> Launch {
    let args = parse_create_launch_args(&create_args(1_000_000_000_000_000, 500, -2432, 1000, 5000)).unwrap();
    let keys = LaunchKeys {
        token_mint: key(1),
        quote_mint: key(2),
        quote_token_program: TOKEN_PROGRAM,
        reserve_vault: key(3),
        quote_vault: key(4),
        creator: key(5),
        treasury: key(6),
    };
    Launch::new_launch(255, &keys, 9, &args, token_is_a)
}

#[test]
fn rejects_transfer_hook_quote() {
    // a Token-2022 mint whose only extension is TransferHook (type 14, 64 bytes)
    let mut d = vec![0u8; 165];
    d[44] = 6; // decimals
    d[45] = 1; // initialized
    d.push(1); // account type: mint
    d.extend_from_slice(&14u16.to_le_bytes());
    d.extend_from_slice(&64u16.to_le_bytes());
    d.extend_from_slice(&[0u8; 64]);
    let r = check_quote_mint(&TOKEN_2022_PROGRAM, &d);
    assert_eq!(r, Err(LaunchError::UnsupportedQuoteMint), "must be rejected: {:?}", r);
    assert_eq!(LaunchError::UnsupportedQuoteMint.code(), 24);
}

#[test]
fn accepts_benign_token_2022_quote() {
    let mut d = vec![0u8; 165];
    d.push(1);
    // MetadataPointer (18), then a zero type that ends the walk
    d.extend_from_slice(&18u16.to_le_bytes());
    d.extend_from_slice(&64u16.to_le_bytes());
    d.extend_from_slice(&[7u8; 64]);
    d.extend_from_slice(&[0u8; 4]);
    assert_eq!(check_quote_mint(&TOKEN_2022_PROGRAM, &d), Ok(()));
    assert_eq!(check_quote_mint(&TOKEN_2022_PROGRAM, &d[..82]), Ok(()));
    assert_eq!(check_quote_mint(&TOKEN_PROGRAM, &d), Ok(()));
    assert_eq!(check_quote_mint(&key(9), &d), Err(LaunchError::InvalidMint));
    let mut not_mint = d.clone();
    not_mint[165] = 2;
    assert_eq!(check_quote_mint(&TOKEN_2022_PROGRAM, &not_mint), Err(LaunchError::InvalidMint));
}

#[test]
fn error_codes_follow_declaration_order() {
    assert_eq!(LaunchError::InvalidAccountOwner.code(), 0);
    assert_eq!(LaunchError::MathOverflow.code(), 13);
    assert_eq!(LaunchError::SeatTooYoung.code(), 15);
    assert_eq!(LaunchError::ExitCapReached.code(), 16);
    assert_eq!(LaunchError::InvalidArgs.code(), 23);
}

#[test]
fn instructions_are_routed_by_tag() {
    assert_eq!(decode_instruction(&ID, &[0]), Ok(Instruction::CreateLaunch));
    assert_eq!(decode_instruction(&ID, &[4, 1, 2, 3]), Ok(Instruction::Deposit));
    assert_eq!(decode_instruction(&ID, &[7]), Ok(Instruction::CollectFloorFees));
    assert_eq!(decode_instruction(&ID, &[8]), Err(ProgramFault::InvalidInstructionData));
    assert_eq!(decode_instruction(&ID, &[]), Err(ProgramFault::InvalidInstructionData));
    assert_eq!(decode_instruction(&WHIRLPOOL_PROGRAM, &[0]), Err(ProgramFault::IncorrectProgramId));
}

#[test]
fn args_are_read_little_endian_with_bounds() {
    let a = [1u8, 2, 3, 4, 5, 6, 7, 8, 0xff, 0xff, 0xff, 0xff];
    assert_eq!(read_u64(&a, 0), Ok(0x0807060504030201));
    assert_eq!(read_u32(&a, 8), Ok(u32::MAX));
    assert_eq!(read_i32(&a, 8), Ok(-1));
    assert_eq!(read_u16(&a, 1), Ok(0x0302));
    assert_eq!(read_u64(&a, 5), Err(LaunchError::InvalidArgs));
    assert_eq!(read_u16(&a, 11), Err(LaunchError::InvalidArgs));
}

#[test]
fn create_launch_args_parse_and_validate() {
    let a = parse_create_launch_args(&create_args(10, 500, -2432, 1000, 5000)).unwrap();
    assert_eq!(a.decimals, 9);
    assert_eq!(a.supply, 10);
    assert_eq!(a.min_age_s, 3600);
    assert_eq!(a.lower_delta_ticks, -2432);
    assert_eq!(a.name, b"Ladder".to_vec());
    assert_eq!(a.symbol, b"LDR".to_vec());
    assert_eq!(a.uri, b"https://x.y/z.json".to_vec());
    for bad in [
        create_args(0, 500, -2432, 1000, 5000),
        create_args(10, 0, -2432, 1000, 5000),
        create_args(10, 10_001, -2432, 1000, 5000),
        create_args(10, 500, 0, 1000, 5000),
        create_args(10, 500, -2432, 5000, 5000),
        create_args(10, 500, -2432, 1000, 10_001),
    ] {
        assert!(matches!(parse_create_launch_args(&bad), Err(LaunchError::InvalidArgs)));
    }
    let full = create_args(10, 500, -2432, 1000, 5000);
    assert!(matches!(parse_create_launch_args(&full[..full.len() - 1]), Err(LaunchError::InvalidArgs)));
}

#[test]
fn token_side_orders_the_mints() {
    assert_eq!(token_side(&key(1), &key(2)), Ok(true));
    assert_eq!(token_side(&key(2), &key(1)), Ok(false));
    assert_eq!(token_side(&key(2), &key(2)), Err(LaunchError::InvalidMint));
}

#[test]
fn new_launch_starts_empty() {
    let l = fresh_launch(true);
    assert!(l.has(FLAG_TOKEN_IS_A));
    assert!(!l.has(FLAG_POOL_INITIALIZED));
    assert_eq!((l.total_liquidity, l.seats_open, l.next_index), (0, 0, 0));
    assert_eq!(l.whirlpool, [0u8; 32]);
    assert!(!fresh_launch(false).has(FLAG_TOKEN_IS_A));
}

#[test]
fn deposit_plan_is_ninety_ten_at_spot() {
    let mut l = fresh_launch(true);
    l.flags |= FLAG_POOL_INITIALIZED | FLAG_BUNDLE_READY;
    let s = sqrt_price_from_tick_index(0);
    let plan = plan_deposit(&l, 0, s, 1_000_000_000, 1_000_000_000_000_000).ok().unwrap();
    assert_eq!((plan.tick_lower, plan.tick_upper), (-2432, 443520));
    let lo = sqrt_price_from_tick_index(-2432);
    let hi = sqrt_price_from_tick_index(443520);
    let liq = liquidity_from_token_b(1_000_000_000, lo, s).unwrap();
    assert_eq!(plan.liquidity, liq);
    assert_eq!(plan.need_token, amount_delta_a(s, hi, liq, true).unwrap());
    assert_eq!(plan.need_quote, amount_delta_b(lo, s, liq, true).unwrap());
    assert!(plan.need_quote <= 1_000_000_000);
    assert_eq!((plan.max_a, plan.max_b), (plan.need_token, plan.need_quote));
    assert!(plan.need_token > 8_600_000_000 && plan.need_token < 8_900_000_000);
}

#[test]
fn deposit_plan_shrinks_to_the_reserve() {
    let mut l = fresh_launch(true);
    l.flags |= FLAG_POOL_INITIALIZED | FLAG_BUNDLE_READY;
    let s = sqrt_price_from_tick_index(0);
    let plan = plan_deposit(&l, 0, s, 1_000_000_000, 1_000_000_000).ok().unwrap();
    assert!(plan.need_token <= 1_000_000_000);
    assert!(plan.need_quote < 200_000_000);
    assert!(matches!(plan_deposit(&l, 0, s, 0, 1_000_000_000), Err(LaunchError::ZeroAmount)));
}

#[test]
fn deposit_when_token_is_b_mirrors_the_range() {
    let mut l = fresh_launch(false);
    l.flags |= FLAG_POOL_INITIALIZED | FLAG_BUNDLE_READY;
    assert_eq!(seat_range(false, 0, -2432), (-443520, 2432));
    assert_eq!(seat_range(true, 100, -2432), (-2432, 443520));
    let s = sqrt_price_from_tick_index(0);
    let plan = plan_deposit(&l, 0, s, 1_000_000_000, u64::MAX).ok().unwrap();
    assert_eq!((plan.tick_lower, plan.tick_upper), (-443520, 2432));
    assert_eq!((plan.max_a, plan.max_b), (plan.need_quote, plan.need_token));
    assert!(plan.need_quote <= 1_000_000_000);
}

#[test]
fn deposit_bookkeeping() {
    let mut l = fresh_launch(true);
    assert_eq!(next_seat_index(&l), Ok(0));
    l.next_index = 256;
    assert_eq!(next_seat_index(&l), Err(LaunchError::BundleFull));
    l.next_index = 3;
    assert_eq!(check_reserve(1000), Err(LaunchError::ReserveEmpty));
    assert_eq!(check_reserve(1001), Ok(()));
    assert_eq!(seeded_tokens(100, 40), Ok(60));
    assert_eq!(seeded_tokens(40, 100), Err(LaunchError::MathOverflow));
    assert_eq!(l.record_deposit(500, 60, 7), Ok(()));
    assert_eq!((l.next_index, l.total_liquidity, l.tokens_dispensed, l.quote_in, l.seats_open), (4, 500, 60, 7, 1));
    l.total_liquidity = u128::MAX;
    assert_eq!(l.record_deposit(1, 0, 0), Err(LaunchError::MathOverflow));
    assert_eq!(l.next_index, 4);
}

#[test]
fn increase_limits_cap_by_funds() {
    let mut l = fresh_launch(true);
    l.flags |= FLAG_POOL_INITIALIZED | FLAG_BUNDLE_READY;
    let s = sqrt_price_from_tick_index(0);
    let plan = plan_deposit(&l, 0, s, 1_000_000_000, u64::MAX).ok().unwrap();
    assert_eq!(increase_limits(&plan, true, 5, 7), (5, 7));
    assert_eq!(increase_limits(&plan, true, u64::MAX, u64::MAX), (plan.max_a, plan.max_b));
}

#[test]
fn exit_is_refused_for_young_seats() {
    let mut l = fresh_launch(true);
    l.total_liquidity = 1_000_000;
    let before = l.encode();
    assert_eq!(l.apply_exit(1_000, 0, 10), Err(LaunchError::SeatTooYoung));
    assert_eq!(l.encode(), before);
    assert_eq!(l.apply_exit(3_600, 0, 10), Ok(()));
}

#[test]
fn first_exit_of_a_minute_always_passes() {
    let mut l = fresh_launch(true);
    l.total_liquidity = 1_000_000;
    l.seats_open = 3;
    // far over the 5% cap, but the first exit of its minute
    assert_eq!(l.apply_exit(7_200, 0, 900_000), Ok(()));
    assert_eq!((l.window_start, l.window_liquidity, l.total_liquidity, l.seats_open), (120, 900_000, 100_000, 2));
    // a second exit in the same minute is held to the cap
    assert_eq!(l.apply_exit(7_230, 0, 1), Err(LaunchError::ExitCapReached));
    // the next minute opens a new window
    assert_eq!(l.apply_exit(7_260, 0, 1), Ok(()));
    assert_eq!((l.window_start, l.window_liquidity), (121, 1));
}

#[test]
fn exit_cap_admits_within_budget() {
    let mut l = fresh_launch(true);
    l.total_liquidity = 1_000_000;
    l.seats_open = 5;
    assert_eq!(l.apply_exit(3_600, 0, 20_000), Ok(()));
    // budget is 980_000 / 10_000 * 500 = 49_000; 20_000 used
    assert_eq!(l.apply_exit(3_610, 0, 29_000), Ok(()));
    assert_eq!(l.apply_exit(3_620, 0, 1), Err(LaunchError::ExitCapReached));
}

#[test]
fn exit_pays_back_beyond_the_seed() {
    let p = exit_payout(100, 1_100, 1_150, 10, 510, 530, 800);
    assert_eq!((p.principal_token, p.fees_token, p.principal_quote, p.fees_quote), (1_000, 50, 500, 20));
    assert_eq!(p.user_token, 250);
    assert_eq!(p.user_quote, 520);
    // price moved up: fewer tokens than seeded come back, the holder gets only fees
    let q = exit_payout(0, 300, 310, 0, 2_000, 2_000, 800);
    assert_eq!(q.user_token, 10);
    assert_eq!(check_holder(1), Ok(()));
    assert_eq!(check_holder(0), Err(LaunchError::NotSeatHolder));
}

#[test]
fn floor_fees_split_by_creator_share() {
    assert_eq!(split_floor_fees(1_000, 5_000), (500, 500));
    assert_eq!(split_floor_fees(999, 3_333), (332, 667));
    assert_eq!(split_floor_fees(u64::MAX, 10_000), (u64::MAX, 0));
    assert_eq!(split_floor_fees(7, 0), (0, 7));
}

#[test]
fn floor_takes_a_slice_of_the_reserve() {
    assert_eq!(floor_amount(1_000_000, 1_000), Ok(100_000));
    assert_eq!(floor_amount(9, 1_000), Err(LaunchError::ZeroAmount));
    let f = plan_floor(true, 0, 100_000_000).ok().unwrap();
    assert_eq!((f.tick_lower, f.tick_upper), (128, 443520));
    assert_eq!((f.max_a, f.max_b), (100_000_000, 0));
    assert!(f.liquidity > 0);
    let g = plan_floor(false, -300, 100_000_000).ok().unwrap();
    assert_eq!((g.tick_lower, g.tick_upper), (-443520, -384));
    assert_eq!((g.max_a, g.max_b), (0, 100_000_000));
}

#[test]
fn cpi_data_layouts() {
    let d = liquidity_v2_data(&D_INCREASE_LIQUIDITY_V2, 0x0102, 3, 4);
    assert_eq!(d.len(), 8 + 16 + 8 + 8 + 1);
    assert_eq!(&d[..8], &D_INCREASE_LIQUIDITY_V2);
    assert_eq!(&d[8..10], &[2, 1]);
    assert_eq!(d[24], 3);
    assert_eq!(d[32], 4);
    assert_eq!(d[40], 0);
    let c = collect_fees_v2_data();
    assert_eq!(&c[..8], &D_COLLECT_FEES_V2);
    assert_eq!(c.len(), 9);
    assert_eq!(bare_data(&D_UPDATE_FEES_AND_REWARDS), D_UPDATE_FEES_AND_REWARDS.to_vec());
    let o = open_bundled_position_data(258, -2432, 443520);
    assert_eq!(&o[8..10], &[2, 1]);
    assert_eq!(&o[10..14], &(-2432i32).to_le_bytes());
    assert_eq!(&o[14..18], &443520i32.to_le_bytes());
    assert_eq!(close_bundled_position_data(7)[8..], [7, 0]);
    let p = initialize_pool_data(1u128 << 64);
    assert_eq!(&p[8..24], &(1u128 << 64).to_le_bytes());
    assert_eq!(p.len(), 25);
    assert_eq!(transfer_checked_data(5, 9), vec![12, 5, 0, 0, 0, 0, 0, 0, 0, 9]);
}

#[test]
fn invoke_accounts_drops_repeated_addresses() {
    let keys = vec![key(1), key(2), key(1), key(3), key(2)];
    assert_eq!(invoke_accounts(&keys, &keys), Ok(vec![0, 1, 3]));
    let other = vec![key(1), key(2), key(9), key(3), key(2)];
    assert_eq!(invoke_accounts(&keys, &other), Err(ProgramFault::InvalidArgument));
    assert_eq!(invoke_accounts(&keys, &keys[..4].to_vec()), Err(ProgramFault::InvalidArgument));
    let many = vec![key(1); 25];
    assert_eq!(invoke_accounts(&many, &many), Err(ProgramFault::InvalidArgument));
}

#[test]
fn token_2022_mint_data_layouts() {
    let p = initialize_metadata_pointer_data(&key(1), &key(2));
    assert_eq!(p.len(), 66);
    assert_eq!(&p[..2], &[39, 0]);
    assert_eq!(&p[2..34], &key(1));
    assert_eq!(&p[34..], &key(2));
    let m = initialize_mint2_data(6, &key(3), &key(4));
    assert_eq!(m.len(), 67);
    assert_eq!(&m[..2], &[20, 6]);
    assert_eq!(m[34], 1);
    assert_eq!(&m[35..], &key(4));
    assert_eq!(mint_to_data(258), vec![7, 2, 1, 0, 0, 0, 0, 0, 0]);
    assert_eq!(revoke_authority_data(1), vec![6, 1, 0]);
    let md = token_metadata_initialize_data(&b"Ab".to_vec(), &b"C".to_vec(), &Vec::new());
    let mut expected = D_METADATA_INITIALIZE.to_vec();
    expected.extend_from_slice(&[2, 0, 0, 0, b'A', b'b', 1, 0, 0, 0, b'C', 0, 0, 0, 0]);
    assert_eq!(md, expected);
    let u = metadata_update_authority_none_data();
    assert_eq!(&u[..8], &D_METADATA_UPDATE_AUTHORITY);
    assert_eq!(&u[8..], &[0u8; 32]);
    assert_eq!(MINT_WITH_POINTER_LEN, 234);
    assert_eq!(metadata_mint_space(6, 3, 18), 234 + 4 + 64 + 4 + 6 + 4 + 3 + 4 + 18 + 4);
}

#[test]
fn exit_budget_fits_for_accepted_caps() {
    let mut l = fresh_launch(true);
    l.total_liquidity = u128::MAX;
    assert!(l.exit_budget_fits());
    l.exit_cap_bps = u16::MAX;
    assert!(!l.exit_budget_fits());
}

#[test]
fn deposit_ticks_in_range() {
    assert!(deposit_tick_in_range(true, 0, -2432));
    assert!(deposit_tick_in_range(false, 443636, -2432));
    assert!(!deposit_tick_in_range(true, 443637, -2432));
    assert!(!deposit_tick_in_range(true, 0, 0));
    // the quote-side edge rounds below the bottom tick: the range would be inverted
    assert!(!deposit_tick_in_range(false, -443636, -1));
}

#[test]
fn create_launch_strings_have_limits() {
    let ok = create_args_with(10, 500, -2432, 1000, 5000, &[b'n'; 32], &[b's'; 10], &[b'u'; 200]);
    assert!(parse_create_launch_args(&ok).is_ok());
    for bad in [
        create_args_with(10, 500, -2432, 1000, 5000, &[b'n'; 33], b"S", b"u"),
        create_args_with(10, 500, -2432, 1000, 5000, b"n", &[b's'; 11], b"u"),
        create_args_with(10, 500, -2432, 1000, 5000, b"n", b"S", &[b'u'; 201]),
    ] {
        assert!(matches!(parse_create_launch_args(&bad), Err(LaunchError::InvalidArgs)));
    }
}

#[test]
fn deposit_checks_run_in_order() {
    let mut l = fresh_launch(true);
    // nothing set up yet: a zero amount is refused first
    assert_eq!(check_deposit(&l, 0, 0), Err(LaunchError::ZeroAmount));
    assert_eq!(check_deposit(&l, 5, 0), Err(LaunchError::PoolNotInitialized));
    l.flags |= FLAG_POOL_INITIALIZED | FLAG_BUNDLE_READY;
    l.next_index = 256;
    assert_eq!(check_deposit(&l, 5, 0), Err(LaunchError::BundleFull));
    l.next_index = 9;
    assert_eq!(check_deposit(&l, 5, 1000), Err(LaunchError::ReserveEmpty));
    assert_eq!(check_deposit(&l, 5, 1001), Ok(9));
}

#[test]
fn closing_credits_lamports() {
    assert_eq!(credit_lamports(5, 7), Ok(12));
    assert_eq!(credit_lamports(u64::MAX, 1), Err(LaunchError::MathOverflow));
}

#[test]
fn account_lists_keep_order_and_flags() {
    let a = LiquidityAccounts {
        whirlpool: 0u8,
        position_authority: 1,
        position: 2,
        position_token_account: 3,
        token_mint_a: 4,
        token_mint_b: 5,
        token_owner_account_a: 6,
        token_owner_account_b: 7,
        token_vault_a: 8,
        token_vault_b: 9,
        tick_array_lower: 10,
        tick_array_upper: 11,
        token_program_a: 12,
        token_program_b: 13,
        memo_program: 14,
        whirlpool_program: 15,
    };
    let m = liquidity_v2_metas(&a);
    assert_eq!(m.len(), 15);
    assert_eq!(m[0], (0, true, false));
    assert_eq!(m[4], (1, false, true));
    assert_eq!(m[14], (11, true, false));
    assert!(m.iter().all(|x| x.0 != 15));
    let p = InitPoolAccounts {
        whirlpools_config: 0u8,
        token_mint_a: 1,
        token_mint_b: 2,
        token_badge_a: 3,
        token_badge_b: 4,
        funder: 5,
        initialize_pool_authority: 6,
        whirlpool: 7,
        oracle: 8,
        token_vault_a: 9,
        token_vault_b: 10,
        adaptive_fee_tier: 11,
        token_program_a: 12,
        token_program_b: 13,
        system_program: 14,
        rent: 15,
        whirlpool_program: 16,
    };
    let signers: Vec<u8> = initialize_pool_metas(&p).iter().filter(|x| x.2).map(|x| x.0).collect();
    assert_eq!(signers, vec![5, 6, 9, 10]);
    assert_eq!(transfer_checked_metas(1u8, 2, 3, 4), vec![(1, true, false), (2, false, false), (3, true, false), (4, false, true)]);
    assert_eq!(transfer_wanted(&TOKEN_PROGRAM, 0), Ok(false));
    assert_eq!(transfer_wanted(&key(9), 0), Ok(false));
    assert_eq!(transfer_wanted(&key(9), 5), Err(LaunchError::InvalidProgram));
    assert_eq!(transfer_wanted(&TOKEN_2022_PROGRAM, 5), Ok(true));
}
