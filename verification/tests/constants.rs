use ladder_launch::constants::{
    ADAPTIVE_FEE_TIER, ATA_PROGRAM, ID, MEMO_PROGRAM, RENT_SYSVAR, SYSTEM_PROGRAM, TOKEN_2022_PROGRAM, TOKEN_PROGRAM,
    WHIRLPOOLS_CONFIG, WHIRLPOOL_PROGRAM, WSOL_MINT,
};
use pinocchio_pubkey::from_str;

#[test]
fn addresses_match_their_base58_names() {
    assert_eq!(WHIRLPOOL_PROGRAM, from_str("whirLbMiicVdio4qvUfM5KAg6Ct8VwpYzGff3uctyCc"));
    assert_eq!(TOKEN_PROGRAM, from_str("TokenkegQfeZyiNwAJbNbGKPFXCWuBvf9Ss623VQ5DA"));
    assert_eq!(TOKEN_2022_PROGRAM, from_str("TokenzQdBNbLqP5VEhdkAS6EPFLC1PHnBqCXEpPxuEb"));
    assert_eq!(ATA_PROGRAM, from_str("ATokenGPvbdGVxr1b2hvZbsiqW5xWH25efTNsLJA8knL"));
    assert_eq!(MEMO_PROGRAM, from_str("MemoSq4gqABAXKb96qnH8TysNcWxMyWCqXgDLGmfcHr"));
    assert_eq!(SYSTEM_PROGRAM, from_str("11111111111111111111111111111111"));
    assert_eq!(RENT_SYSVAR, from_str("SysvarRent111111111111111111111111111111111"));
    assert_eq!(WSOL_MINT, from_str("So11111111111111111111111111111111111111112"));
    assert_eq!(WHIRLPOOLS_CONFIG, from_str("12yTE48QR6bGK4EMcyY8XsARbX1TRTEbwHYSuuxR1Hp8"));
    assert_eq!(ADAPTIVE_FEE_TIER, from_str("6assHYd5438D91RXfMUrETNqGHmcbfzFCJsBjHmbkeu9"));
    assert_eq!(ID, from_str("GJViDKnTV3pZMwgMCqjwj1hC8JozuJR69QntyVGeGrj8"));
}
