//! What the program hands to and reads back from other programs: Whirlpool
//! instruction data (Anchor discriminators + borsh args), SPL Token / Token-2022 data and
//! account layouts, and the account list that an invocation passes to the runtime.
use vstd::prelude::*;
use crate::constants::{Pubkey, TOKEN_2022_PROGRAM, TOKEN_PROGRAM};
use crate::error::{LaunchError, ProgramFault};
use crate::le::{
    i32_bits, keys_equal, le_bytes, le_value, lemma_le_value_bound, lemma_pow256_values,
    read_key, read_le, twos_complement, write_key, write_le,
};

verus! {

// sha256("global:<name>")[..8]
pub const D_OPEN_BUNDLED_POSITION: [u8; 8] = [169, 113, 126, 171, 213, 172, 212, 49];
pub const D_INCREASE_LIQUIDITY_V2: [u8; 8] = [133, 29, 89, 223, 69, 238, 176, 10];
pub const D_DECREASE_LIQUIDITY_V2: [u8; 8] = [58, 127, 188, 62, 79, 82, 196, 96];
pub const D_COLLECT_FEES_V2: [u8; 8] = [207, 117, 95, 191, 229, 180, 226, 15];
pub const D_CLOSE_BUNDLED_POSITION: [u8; 8] = [41, 36, 216, 245, 27, 85, 103, 67];
pub const D_INITIALIZE_POSITION_BUNDLE: [u8; 8] = [117, 45, 241, 149, 24, 18, 194, 65];
pub const D_INITIALIZE_POOL_WITH_ADAPTIVE_FEE: [u8; 8] = [143, 94, 96, 76, 172, 124, 119, 199];
pub const D_INITIALIZE_DYNAMIC_TICK_ARRAY: [u8; 8] = [41, 33, 165, 200, 120, 231, 142, 50];
pub const D_UPDATE_FEES_AND_REWARDS: [u8; 8] = [154, 230, 250, 13, 236, 209, 75, 223];
pub const D_LOCK_POSITION: [u8; 8] = [227, 62, 2, 252, 247, 10, 171, 185];
pub const D_OPEN_POSITION_WITH_TOKEN_EXTENSIONS: [u8; 8] = [212, 47, 95, 92, 114, 102, 131, 250];

/// Most accounts one invocation may pass to the runtime.
pub const MAX_CPI_ACCOUNTS: usize = 24;

/// Appends the 8 bytes of an instruction discriminator.
fn write_disc(out: &mut Vec<u8>, d: &[u8; 8])
    ensures
        final(out)@ == old(out)@ + d@,
{
    let ghost start = out@;
    let mut i: usize = 0;
    while i < 8
        invariant
            i <= 8,
            out@ == start + d@.take(i as int),
        decreases 8 - i,
    {
        out.push(d[i]);
        i = i + 1;
        proof {
            assert(out@ =~= start + d@.take(i as int));
        }
    }
    proof {
        assert(d@.take(8) =~= d@);
    }
}

/// increase/decrease_liquidity_v2 data: liquidity, the two token limits, and no
/// remaining-accounts info.
pub fn liquidity_v2_data(disc: &[u8; 8], liquidity: u128, lim_a: u64, lim_b: u64) -> (r: Vec<u8>)
    ensures
        r@ == disc@ + le_bytes(liquidity as nat, 16) + le_bytes(lim_a as nat, 8) + le_bytes(
            lim_b as nat,
            8,
        ) + seq![0u8],
{
    let mut out: Vec<u8> = Vec::new();
    write_disc(&mut out, disc);
    write_le(&mut out, liquidity, 16);
    write_le(&mut out, lim_a as u128, 8);
    write_le(&mut out, lim_b as u128, 8);
    out.push(0);
    out
}

/// collect_fees_v2 data: no remaining-accounts info.
pub fn collect_fees_v2_data() -> (r: Vec<u8>)
    ensures
        r@ == D_COLLECT_FEES_V2@ + seq![0u8],
{
    let mut out: Vec<u8> = Vec::new();
    write_disc(&mut out, &D_COLLECT_FEES_V2);
    out.push(0);
    out
}

/// Data of an instruction that carries no arguments.
pub fn bare_data(disc: &[u8; 8]) -> (r: Vec<u8>)
    ensures
        r@ == disc@,
{
    let mut out: Vec<u8> = Vec::new();
    write_disc(&mut out, disc);
    proof {
        assert(out@ =~= disc@);
    }
    out
}

/// open_bundled_position data: bundle index and the tick range.
pub fn open_bundled_position_data(bundle_index: u16, tick_lower: i32, tick_upper: i32) -> (r: Vec<u8>)
    ensures
        r@ == D_OPEN_BUNDLED_POSITION@ + le_bytes(bundle_index as nat, 2) + le_bytes(
            twos_complement(tick_lower as int, 32),
            4,
        ) + le_bytes(twos_complement(tick_upper as int, 32), 4),
{
    let mut out: Vec<u8> = Vec::new();
    write_disc(&mut out, &D_OPEN_BUNDLED_POSITION);
    write_le(&mut out, bundle_index as u128, 2);
    write_le(&mut out, i32_bits(tick_lower) as u128, 4);
    write_le(&mut out, i32_bits(tick_upper) as u128, 4);
    out
}

/// close_bundled_position data: bundle index.
pub fn close_bundled_position_data(bundle_index: u16) -> (r: Vec<u8>)
    ensures
        r@ == D_CLOSE_BUNDLED_POSITION@ + le_bytes(bundle_index as nat, 2),
{
    let mut out: Vec<u8> = Vec::new();
    write_disc(&mut out, &D_CLOSE_BUNDLED_POSITION);
    write_le(&mut out, bundle_index as u128, 2);
    out
}

/// initialize_pool_with_adaptive_fee data: initial sqrt price, no trade-enable timestamp.
pub fn initialize_pool_data(initial_sqrt_price: u128) -> (r: Vec<u8>)
    ensures
        r@ == D_INITIALIZE_POOL_WITH_ADAPTIVE_FEE@ + le_bytes(initial_sqrt_price as nat, 16) + seq![0u8],
{
    let mut out: Vec<u8> = Vec::new();
    write_disc(&mut out, &D_INITIALIZE_POOL_WITH_ADAPTIVE_FEE);
    write_le(&mut out, initial_sqrt_price, 16);
    out.push(0);
    out
}

/// initialize_dynamic_tick_array data: start tick, idempotent flag set.
pub fn initialize_dynamic_tick_array_data(start_tick_index: i32) -> (r: Vec<u8>)
    ensures
        r@ == D_INITIALIZE_DYNAMIC_TICK_ARRAY@ + le_bytes(twos_complement(start_tick_index as int, 32), 4)
            + seq![1u8],
{
    let mut out: Vec<u8> = Vec::new();
    write_disc(&mut out, &D_INITIALIZE_DYNAMIC_TICK_ARRAY);
    write_le(&mut out, i32_bits(start_tick_index) as u128, 4);
    out.push(1);
    out
}

/// open_position_with_token_extensions data: tick range, no token metadata extension.
pub fn open_position_with_token_extensions_data(tick_lower: i32, tick_upper: i32) -> (r: Vec<u8>)
    ensures
        r@ == D_OPEN_POSITION_WITH_TOKEN_EXTENSIONS@ + le_bytes(twos_complement(tick_lower as int, 32), 4)
            + le_bytes(twos_complement(tick_upper as int, 32), 4) + seq![0u8],
{
    let mut out: Vec<u8> = Vec::new();
    write_disc(&mut out, &D_OPEN_POSITION_WITH_TOKEN_EXTENSIONS);
    write_le(&mut out, i32_bits(tick_lower) as u128, 4);
    write_le(&mut out, i32_bits(tick_upper) as u128, 4);
    out.push(0);
    out
}

/// lock_position data: lock type Permanent.
pub fn lock_position_permanent_data() -> (r: Vec<u8>)
    ensures
        r@ == D_LOCK_POSITION@ + seq![0u8],
{
    let mut out: Vec<u8> = Vec::new();
    write_disc(&mut out, &D_LOCK_POSITION);
    out.push(0);
    out
}

/// SPL Token / Token-2022 TransferChecked data.
pub fn transfer_checked_data(amount: u64, decimals: u8) -> (r: Vec<u8>)
    ensures
        r@ == seq![12u8] + le_bytes(amount as nat, 8) + seq![decimals],
{
    let mut out: Vec<u8> = Vec::new();
    out.push(12);
    write_le(&mut out, amount as u128, 8);
    out.push(decimals);
    out
}

// ------------------------------------------------------------------ Token-2022 launch mint

/// sha256("spl_token_metadata_interface:initialize_account")[..8]
pub const D_METADATA_INITIALIZE: [u8; 8] = [210, 225, 30, 162, 88, 184, 77, 141];
/// sha256("spl_token_metadata_interface:update_the_authority")[..8]
pub const D_METADATA_UPDATE_AUTHORITY: [u8; 8] = [215, 228, 166, 228, 84, 100, 86, 123];
/// A Token-2022 mint with one MetadataPointer extension: the base mint padded to an
/// account's size, the account-type byte, and the extension's type-length-value entry.
pub const MINT_WITH_POINTER_LEN: usize = 234;

/// Token-2022 InitializeMetadataPointer data: the pointer's authority and the address
/// that holds the metadata.
pub fn initialize_metadata_pointer_data(authority: &Pubkey, metadata: &Pubkey) -> (r: Vec<u8>)
    ensures
        r@ == seq![39u8, 0u8] + authority@ + metadata@,
{
    let mut out: Vec<u8> = Vec::new();
    out.push(39);
    out.push(0);
    write_key(&mut out, authority);
    write_key(&mut out, metadata);
    out
}

/// SPL Token / Token-2022 InitializeMint2 data, with a freeze authority.
pub fn initialize_mint2_data(decimals: u8, mint_authority: &Pubkey, freeze_authority: &Pubkey) -> (r: Vec<u8>)
    ensures
        r@ == seq![20u8, decimals] + mint_authority@ + seq![1u8] + freeze_authority@,
{
    let mut out: Vec<u8> = Vec::new();
    out.push(20);
    out.push(decimals);
    write_key(&mut out, mint_authority);
    out.push(1);
    write_key(&mut out, freeze_authority);
    out
}

/// SPL Token / Token-2022 MintTo data.
pub fn mint_to_data(amount: u64) -> (r: Vec<u8>)
    ensures
        r@ == seq![7u8] + le_bytes(amount as nat, 8),
{
    let mut out: Vec<u8> = Vec::new();
    out.push(7);
    write_le(&mut out, amount as u128, 8);
    out
}

/// SPL Token / Token-2022 SetAuthority data that removes the authority of the given type
/// (0: mint tokens, 1: freeze accounts).
pub fn revoke_authority_data(authority_type: u8) -> (r: Vec<u8>)
    ensures
        r@ == seq![6u8, authority_type, 0u8],
{
    let mut out: Vec<u8> = Vec::new();
    out.push(6);
    out.push(authority_type);
    out.push(0);
    out
}

/// A borsh byte string: its length as a little-endian `u32`, then its bytes.
pub open spec fn borsh_bytes(s: Seq<u8>) -> Seq<u8> {
    le_bytes(s.len(), 4) + s
}

fn write_borsh_bytes(out: &mut Vec<u8>, s: &Vec<u8>)
    requires
        s@.len() <= u32::MAX,
    ensures
        final(out)@ == old(out)@ + borsh_bytes(s@),
{
    let ghost start = out@;
    write_le(out, s.len() as u128, 4);
    let ghost mid = out@;
    let mut i: usize = 0;
    while i < s.len()
        invariant
            i <= s@.len(),
            mid == start + le_bytes(s@.len(), 4),
            out@ == mid + s@.take(i as int),
        decreases s@.len() - i,
    {
        out.push(s[i]);
        i = i + 1;
        proof {
            assert(out@ =~= mid + s@.take(i as int));
        }
    }
    proof {
        assert(s@.take(s@.len() as int) =~= s@);
        assert(out@ =~= start + borsh_bytes(s@));
    }
}

/// Token metadata interface Initialize data: name, symbol and uri.
pub fn token_metadata_initialize_data(name: &Vec<u8>, symbol: &Vec<u8>, uri: &Vec<u8>) -> (r: Vec<u8>)
    requires
        name@.len() <= u32::MAX,
        symbol@.len() <= u32::MAX,
        uri@.len() <= u32::MAX,
    ensures
        r@ == D_METADATA_INITIALIZE@ + borsh_bytes(name@) + borsh_bytes(symbol@) + borsh_bytes(uri@),
{
    let mut out: Vec<u8> = Vec::new();
    write_disc(&mut out, &D_METADATA_INITIALIZE);
    write_borsh_bytes(&mut out, name);
    write_borsh_bytes(&mut out, symbol);
    write_borsh_bytes(&mut out, uri);
    out
}

/// Token metadata interface UpdateAuthority data that leaves the metadata without an
/// update authority (immutable).
pub fn metadata_update_authority_none_data() -> (r: Vec<u8>)
    ensures
        r@ == D_METADATA_UPDATE_AUTHORITY@ + seq![0u8; 32],
{
    let mut out: Vec<u8> = Vec::new();
    write_disc(&mut out, &D_METADATA_UPDATE_AUTHORITY);
    let none = [0u8; 32];
    proof {
        assert(none@ =~= seq![0u8; 32]);
    }
    write_key(&mut out, &none);
    out
}

/// Size of the launch mint once its metadata is written: the mint with its pointer, then
/// the metadata entry (type-length header, update authority, mint, the three borsh
/// strings, and an empty list of additional fields).
pub fn metadata_mint_space(name_len: usize, symbol_len: usize, uri_len: usize) -> (r: usize)
    requires
        name_len <= 255,
        symbol_len <= 255,
        uri_len <= 255,
    ensures
        r == MINT_WITH_POINTER_LEN + 4 + 32 + 32 + (4 + name_len) + (4 + symbol_len) + (4 + uri_len) + 4,
{
    MINT_WITH_POINTER_LEN + 4 + 32 + 32 + (4 + name_len) + (4 + symbol_len) + (4 + uri_len) + 4
}


pub fn check_program(key: &Pubkey, expected: &Pubkey) -> (r: Result<(), LaunchError>)
    ensures
        r == if key@ == expected@ {
            Ok::<(), LaunchError>(())
        } else {
            Err(LaunchError::InvalidProgram)
        },
{
    if !keys_equal(key, expected) {
        return Err(LaunchError::InvalidProgram);
    }
    Ok(())
}

/// The address is one of the two token programs.
pub open spec fn is_token_program(key: Seq<u8>) -> bool {
    key == TOKEN_PROGRAM@ || key == TOKEN_2022_PROGRAM@
}

/// A transfer goes through one of the two token programs.
pub fn check_token_program(key: &Pubkey) -> (r: Result<(), LaunchError>)
    ensures
        r == if is_token_program(key@) {
            Ok::<(), LaunchError>(())
        } else {
            Err(LaunchError::InvalidProgram)
        },
{
    if !keys_equal(key, &TOKEN_PROGRAM) && !keys_equal(key, &TOKEN_2022_PROGRAM) {
        return Err(LaunchError::InvalidProgram);
    }
    Ok(())
}

/// Parsed view of an SPL Token or Token-2022 token account (base layout is identical).
pub struct TokenView {
    pub mint: Pubkey,
    pub owner: Pubkey,
    pub amount: u64,
}

/// An initialized token account of either token program.
pub open spec fn token_account_ok(program: Seq<u8>, d: Seq<u8>) -> bool {
    is_token_program(program) && d.len() >= 165 && d[108] == 1
}

pub fn read_token_account(program: &Pubkey, data: &[u8]) -> (r: Result<TokenView, LaunchError>)
    ensures
        !token_account_ok(program@, data@) ==> r == Err::<TokenView, LaunchError>(
            LaunchError::InvalidTokenAccount,
        ),
        token_account_ok(program@, data@) ==> (r matches Ok(v) && v.mint@ == data@.subrange(0, 32)
            && v.owner@ == data@.subrange(32, 64) && v.amount == le_value(data@.subrange(64, 72))),
{
    if !keys_equal(program, &TOKEN_PROGRAM) && !keys_equal(program, &TOKEN_2022_PROGRAM) {
        return Err(LaunchError::InvalidTokenAccount);
    }
    if data.len() < 165 || data[108] != 1 {
        return Err(LaunchError::InvalidTokenAccount);  // state must be Initialized
    }
    proof {
        lemma_pow256_values();
        lemma_le_value_bound(data@.subrange(64, 72));
    }
    Ok(TokenView { mint: read_key(data, 0), owner: read_key(data, 32), amount: read_le(data, 64, 8) as u64 })
}

pub fn token_amount(program: &Pubkey, data: &[u8]) -> (r: Result<u64, LaunchError>)
    ensures
        !token_account_ok(program@, data@) ==> r == Err::<u64, LaunchError>(
            LaunchError::InvalidTokenAccount,
        ),
        token_account_ok(program@, data@) ==> r == Ok::<u64, LaunchError>(
            le_value(data@.subrange(64, 72)) as u64,
        ),
{
    Ok(read_token_account(program, data)?.amount)
}

/// An initialized mint of either token program.
pub open spec fn mint_ok(program: Seq<u8>, d: Seq<u8>) -> bool {
    is_token_program(program) && d.len() >= 82 && d[45] == 1
}

/// Mint decimals for SPL Token or Token-2022 mints.
pub fn mint_decimals(program: &Pubkey, data: &[u8]) -> (r: Result<u8, LaunchError>)
    ensures
        r == if mint_ok(program@, data@) {
            Ok::<u8, LaunchError>(data@[44])
        } else {
            Err(LaunchError::InvalidMint)
        },
{
    if !keys_equal(program, &TOKEN_PROGRAM) && !keys_equal(program, &TOKEN_2022_PROGRAM) {
        return Err(LaunchError::InvalidMint);
    }
    if data.len() < 82 || data[45] != 1 {
        return Err(LaunchError::InvalidMint);
    }
    Ok(data[44])
}

/// Token-2022 mint extensions this launchpad refuses as a quote token: MintCloseAuthority,
/// ConfidentialTransferMint, DefaultAccountState, NonTransferable, PermanentDelegate,
/// TransferHook, ConfidentialTransferFeeConfig, ConfidentialMintBurn, Pausable.
pub open spec fn rejected_extension(ext: nat) -> bool {
    ext == 3 || ext == 4 || ext == 6 || ext == 9 || ext == 12 || ext == 14 || ext == 16 || ext == 24
        || ext == 26
}

const REJECTED_EXTENSIONS: [u16; 9] = [3, 4, 6, 9, 12, 14, 16, 24, 26];

fn is_rejected(ext: u16) -> (b: bool)
    ensures
        b == rejected_extension(ext as nat),
{
    let mut i: usize = 0;
    while i < 9
        invariant
            i <= 9,
            forall|j: int| 0 <= j < i ==> REJECTED_EXTENSIONS@[j] != ext,
        decreases 9 - i,
    {
        if REJECTED_EXTENSIONS[i] == ext {
            return true;
        }
        i = i + 1;
    }
    false
}

/// Walks the TLV extension entries from offset `i`: `true` when the walk reaches the end
/// (or a zero type) without meeting a refused extension.
pub open spec fn extensions_accepted(d: Seq<u8>, i: nat) -> bool
    decreases (if i <= d.len() { d.len() - i } else { 0 }),
{
    if i + 4 > d.len() {
        true
    } else {
        let ext = le_value(d.subrange(i as int, i + 2int));
        let len = le_value(d.subrange(i + 2int, i + 4int));
        if ext == 0 {
            true
        } else if rejected_extension(ext) {
            false
        } else {
            extensions_accepted(d, i + 4 + len)
        }
    }
}

/// The verdict on a quote mint: any SPL Token mint, or a Token-2022 mint whose
/// extensions are all benign.
pub open spec fn quote_mint_verdict(program: Seq<u8>, d: Seq<u8>) -> Result<(), LaunchError> {
    if program == TOKEN_PROGRAM@ {
        Ok(())
    } else if program != TOKEN_2022_PROGRAM@ {
        Err(LaunchError::InvalidMint)
    } else if d.len() <= 165 {
        Ok(())
    } else if d[165] != 1 {
        Err(LaunchError::InvalidMint)
    } else if extensions_accepted(d, 166) {
        Ok(())
    } else {
        Err(LaunchError::UnsupportedQuoteMint)
    }
}

/// One type-length-value extension entry of a Token-2022 mint: the type and the payload's
/// length as little-endian `u16`s, then the payload.
pub open spec fn tlv_entry(ext: nat, payload: Seq<u8>) -> Seq<u8> {
    le_bytes(ext, 2) + le_bytes(payload.len(), 2) + payload
}

/// The walk over the entries reads only the bytes from its position on.
proof fn lemma_walk_shift(p: Seq<u8>, r: Seq<u8>, j: nat)
    ensures
        extensions_accepted(p + r, p.len() + j) == extensions_accepted(r, j),
    decreases (if j <= r.len() { r.len() - j } else { 0 }),
{
    let d = p + r;
    let i = p.len() + j;
    if i + 4 <= d.len() {
        let ii = i as int;
        let jj = j as int;
        assert(d.subrange(ii, ii + 2) =~= r.subrange(jj, jj + 2));
        assert(d.subrange(ii + 2, ii + 4) =~= r.subrange(jj + 2, jj + 4));
        let len = le_value(r.subrange(jj + 2, jj + 4));
        lemma_walk_shift(p, r, j + 4 + len);
        assert(p.len() + (j + 4 + len) == i + 4 + len);
    }
}

proof fn lemma_token_programs_differ()
    ensures
        TOKEN_2022_PROGRAM@ != TOKEN_PROGRAM@,
{
    assert(TOKEN_2022_PROGRAM@[4] != TOKEN_PROGRAM@[4]);
}

/// Reading the first entry of a mint whose extension area starts with `tlv_entry(ext, payload)`.
proof fn lemma_first_entry(base: Seq<u8>, ext: nat, payload: Seq<u8>, rest: Seq<u8>)
    requires
        base.len() == 165,
        ext < 0x1_0000,
        payload.len() < 0x1_0000,
    ensures
        ({
            let d = base + seq![1u8] + tlv_entry(ext, payload) + rest;
            &&& d.len() > 165
            &&& d[165] == 1
            &&& 166 + 4 <= d.len()
            &&& le_value(d.subrange(166, 168)) == ext
            &&& le_value(d.subrange(168, 170)) == payload.len()
            &&& d == (base + seq![1u8] + tlv_entry(ext, payload)) + rest
            &&& (base + seq![1u8] + tlv_entry(ext, payload)).len() == 166 + 4 + payload.len()
        }),
{
    lemma_pow256_values();
    crate::le::lemma_le_roundtrip(ext, 2);
    crate::le::lemma_le_roundtrip(payload.len(), 2);
    let d = base + seq![1u8] + tlv_entry(ext, payload) + rest;
    assert(d.subrange(166, 168) =~= le_bytes(ext, 2));
    assert(d.subrange(168, 170) =~= le_bytes(payload.len(), 2));
    assert(d[165] == 1);
}

/// A benign extension entry is passed over: the verdict on a Token-2022 mint is the same
/// with or without that entry in front of the rest of its extension list.
pub proof fn lemma_benign_extension_skipped(base: Seq<u8>, ext: nat, payload: Seq<u8>, rest: Seq<u8>)
    requires
        base.len() == 165,
        0 < ext < 0x1_0000,
        !rejected_extension(ext),
        payload.len() < 0x1_0000,
    ensures
        quote_mint_verdict(TOKEN_2022_PROGRAM@, base + seq![1u8] + tlv_entry(ext, payload) + rest)
            == quote_mint_verdict(TOKEN_2022_PROGRAM@, base + seq![1u8] + rest),
{
    lemma_token_programs_differ();
    lemma_first_entry(base, ext, payload, rest);
    let p = base + seq![1u8] + tlv_entry(ext, payload);
    let d = p + rest;
    lemma_walk_shift(p, rest, 0);
    let q = base + seq![1u8];
    let d2 = q + rest;
    assert(d2[165] == 1);
    lemma_walk_shift(q, rest, 0);
}

/// A refused extension entry refuses the mint.
pub proof fn lemma_refused_extension_refuses(base: Seq<u8>, ext: nat, payload: Seq<u8>, rest: Seq<u8>)
    requires
        base.len() == 165,
        ext < 0x1_0000,
        rejected_extension(ext),
        payload.len() < 0x1_0000,
    ensures
        quote_mint_verdict(TOKEN_2022_PROGRAM@, base + seq![1u8] + tlv_entry(ext, payload) + rest)
            == Err::<(), LaunchError>(LaunchError::UnsupportedQuoteMint),
{
    lemma_token_programs_differ();
    lemma_first_entry(base, ext, payload, rest);
}

/// A zero type ends the extension list: nothing after it is read.
pub proof fn lemma_zero_type_ends_list(base: Seq<u8>, tail: Seq<u8>)
    requires
        base.len() == 165,
        tail.len() >= 2,
    ensures
        quote_mint_verdict(TOKEN_2022_PROGRAM@, base + seq![1u8, 0u8, 0u8] + tail) == Ok::<(), LaunchError>(()),
{
    lemma_token_programs_differ();
    lemma_pow256_values();
    let d = base + seq![1u8, 0u8, 0u8] + tail;
    assert(d.subrange(166, 168) =~= seq![0u8, 0u8]);
    assert(d[165] == 1);
    crate::le::lemma_le_roundtrip(0, 2);
    assert(le_bytes(0, 2) =~= seq![0u8, 0u8]) by {
        reveal_with_fuel(le_bytes, 3);
    }
}

/// Accept any SPL Token mint, or a Token-2022 mint whose extensions are all benign.
pub fn check_quote_mint(program: &Pubkey, data: &[u8]) -> (r: Result<(), LaunchError>)
    requires
        data@.len() + 0x1_0010 <= usize::MAX,
    ensures
        r == quote_mint_verdict(program@, data@),
{
    if keys_equal(program, &TOKEN_PROGRAM) {
        return Ok(());
    }
    if !keys_equal(program, &TOKEN_2022_PROGRAM) {
        return Err(LaunchError::InvalidMint);
    }
    if data.len() <= 165 {
        return Ok(());  // no extensions
    }
    if data[165] != 1 {
        return Err(LaunchError::InvalidMint);  // account type must be Mint
    }
    let mut i: usize = 166;
    while i + 4 <= data.len()
        invariant
            data@.len() + 0x1_0010 <= usize::MAX,
            i <= data@.len() + 0x1_0004,
            extensions_accepted(data@, 166) == extensions_accepted(data@, i as nat),
            quote_mint_verdict(program@, data@) == (if extensions_accepted(data@, 166) {
                Ok::<(), LaunchError>(())
            } else {
                Err(LaunchError::UnsupportedQuoteMint)
            }),
        ensures
            quote_mint_verdict(program@, data@) == Ok::<(), LaunchError>(()),
        decreases data@.len() + 0x1_0004 - i,
    {
        proof {
            lemma_pow256_values();
            lemma_le_value_bound(data@.subrange(i as int, i + 2));
            lemma_le_value_bound(data@.subrange(i + 2, i + 4));
        }
        let ext = read_le(data, i, 2) as u16;
        let len = read_le(data, i + 2, 2) as usize;
        proof {
            assert(extensions_accepted(data@, i as nat) == if ext == 0 {
                true
            } else if rejected_extension(ext as nat) {
                false
            } else {
                extensions_accepted(data@, (i + 4 + len) as nat)
            });
        }
        if ext == 0 {
            break;
        }
        if is_rejected(ext) {
            return Err(LaunchError::UnsupportedQuoteMint);
        }
        i = i + 4 + len;
    }
    Ok(())
}

/// The accounts of a Whirlpool liquidity instruction (increase, decrease, collect fees).
pub struct LiquidityAccounts<T> {
    pub whirlpool: T,
    pub position_authority: T,
    pub position: T,
    pub position_token_account: T,
    pub token_mint_a: T,
    pub token_mint_b: T,
    pub token_owner_account_a: T,
    pub token_owner_account_b: T,
    pub token_vault_a: T,
    pub token_vault_b: T,
    pub tick_array_lower: T,
    pub tick_array_upper: T,
    pub token_program_a: T,
    pub token_program_b: T,
    pub memo_program: T,
    pub whirlpool_program: T,
}

/// The position of `k` has no earlier equal address in `keys`.
pub open spec fn first_of_its_kind(keys: Seq<Pubkey>, i: int) -> bool {
    forall|j: int| 0 <= j < i ==> keys[j]@ != keys[i]@
}

/// Which of the listed accounts an invocation passes to the runtime: each address once,
/// at its first position (Whirlpool legitimately lists the same account twice, and the
/// runtime rejects an account list that repeats one). Refused when the account list does
/// not match the instruction's metas or is longer than the runtime buffer.
pub fn invoke_accounts(meta_keys: &Vec<Pubkey>, info_keys: &Vec<Pubkey>) -> (r: Result<Vec<usize>, ProgramFault>)
    ensures
        (meta_keys@.len() != info_keys@.len() || info_keys@.len() > MAX_CPI_ACCOUNTS || exists|i: int|
            0 <= i < info_keys@.len() && #[trigger] info_keys@[i]@ != meta_keys@[i]@) ==> r == Err::<
            Vec<usize>,
            ProgramFault,
        >(ProgramFault::InvalidArgument),
        (meta_keys@.len() == info_keys@.len() && info_keys@.len() <= MAX_CPI_ACCOUNTS && forall|i: int|
            0 <= i < info_keys@.len() ==> #[trigger] info_keys@[i]@ == meta_keys@[i]@) ==> r is Ok,
        r matches Ok(v) ==> {
            &&& meta_keys@.len() == info_keys@.len()
            &&& forall|i: int| 0 <= i < info_keys@.len() ==> #[trigger] info_keys@[i]@ == meta_keys@[i]@
            &&& forall|a: int, b: int| 0 <= a < b < v@.len() ==> v@[a] < v@[b]
            &&& forall|a: int| 0 <= a < v@.len() ==> v@[a] < info_keys@.len() && first_of_its_kind(info_keys@, v@[a] as int)
            &&& forall|i: int| 0 <= i < info_keys@.len() && first_of_its_kind(info_keys@, i) ==> v@.contains(i as usize)
        },
{
    if meta_keys.len() != info_keys.len() || info_keys.len() > MAX_CPI_ACCOUNTS {
        return Err(ProgramFault::InvalidArgument);
    }
    let mut out: Vec<usize> = Vec::new();
    let mut i: usize = 0;
    while i < info_keys.len()
        invariant
            meta_keys@.len() == info_keys@.len(),
            i <= info_keys@.len(),
            forall|k: int| 0 <= k < i ==> #[trigger] info_keys@[k]@ == meta_keys@[k]@,
            forall|a: int, b: int| 0 <= a < b < out@.len() ==> out@[a] < out@[b],
            forall|a: int| 0 <= a < out@.len() ==> out@[a] < i && first_of_its_kind(info_keys@, out@[a] as int),
            forall|k: int| 0 <= k < i && first_of_its_kind(info_keys@, k) ==> out@.contains(k as usize),
            forall|k: int| 0 <= k < i ==> exists|a: int| 0 <= a < out@.len() && info_keys@[out@[a] as int]@ == #[trigger] info_keys@[k]@,
        decreases info_keys@.len() - i,
    {
        if !keys_equal(&info_keys[i], &meta_keys[i]) {
            proof {
                assert(info_keys@[i as int]@ != meta_keys@[i as int]@);
            }
            return Err(ProgramFault::InvalidArgument);
        }
        let mut seen = false;
        let mut j: usize = 0;
        while j < out.len()
            invariant
                i < info_keys@.len(),
                j <= out@.len(),
                forall|a: int| 0 <= a < out@.len() ==> out@[a] < i,
                !seen ==> forall|a: int| 0 <= a < j ==> info_keys@[out@[a] as int]@ != info_keys@[i as int]@,
                seen ==> exists|a: int| 0 <= a < out@.len() && info_keys@[out@[a] as int]@ == info_keys@[i as int]@,
            decreases out@.len() - j,
        {
            if keys_equal(&info_keys[out[j]], &info_keys[i]) {
                seen = true;
            }
            j = j + 1;
        }
        let ghost old_out = out@;
        let ghost ii = i as int;
        if !seen {
            proof {
                assert forall|k: int| 0 <= k < ii implies info_keys@[k]@ != info_keys@[ii]@ by {
                    if info_keys@[k]@ == info_keys@[ii]@ {
                        let a = choose|a: int| 0 <= a < out@.len() && info_keys@[out@[a] as int]@ == #[trigger] info_keys@[k]@;
                        assert(info_keys@[out@[a] as int]@ != info_keys@[ii]@);
                    }
                }
                assert(first_of_its_kind(info_keys@, ii));
            }
            out.push(i);
            proof {
                assert(out@[out@.len() - 1] == i);
            }
        } else {
            proof {
                let a = choose|a: int| 0 <= a < out@.len() && info_keys@[out@[a] as int]@ == info_keys@[ii]@;
                assert(!first_of_its_kind(info_keys@, ii));
            }
        }
        proof {
            assert forall|k: int| 0 <= k < ii + 1 && first_of_its_kind(info_keys@, k) implies out@.contains(k as usize) by {
                if k < ii {
                    let a = choose|a: int| 0 <= a < old_out.len() && old_out[a] == k as usize;
                    assert(out@[a] == k as usize);
                } else {
                    assert(out@[out@.len() - 1] == i);
                }
            }
            assert forall|k: int| 0 <= k < ii + 1 implies exists|a: int| 0 <= a < out@.len() && info_keys@[out@[a] as int]@ == #[trigger] info_keys@[k]@ by {
                if k < ii {
                    let a = choose|a: int| 0 <= a < old_out.len() && info_keys@[old_out[a] as int]@ == #[trigger] info_keys@[k]@;
                    assert(out@[a] == old_out[a]);
                } else if seen {
                    let a = choose|a: int| 0 <= a < old_out.len() && info_keys@[old_out[a] as int]@ == info_keys@[ii]@;
                    assert(out@[a] == old_out[a]);
                } else {
                    assert(out@[out@.len() - 1] == i);
                }
            }
        }
        i = i + 1;
    }
    proof {
        assert forall|k: int| 0 <= k < info_keys@.len() implies #[trigger] info_keys@[k]@ == meta_keys@[k]@ by {}
    }
    Ok(out)
}


// ------------------------------------------------------------------ account lists

// An instruction's accounts, in the order the callee reads them, each with its writable
// and signer flags: `(account, writable, signer)`.

/// Accounts of Whirlpool open_bundled_position.
pub struct OpenBundledAccounts<T> {
    pub bundled_position: T,
    pub position_bundle: T,
    pub position_bundle_token_account: T,
    pub position_bundle_authority: T,
    pub whirlpool: T,
    pub funder: T,
    pub system_program: T,
    pub rent: T,
    pub whirlpool_program: T,
}

/// Accounts of Whirlpool initialize_position_bundle.
pub struct InitBundleAccounts<T> {
    pub position_bundle: T,
    pub position_bundle_mint: T,
    pub position_bundle_token_account: T,
    pub position_bundle_owner: T,
    pub funder: T,
    pub token_program: T,
    pub system_program: T,
    pub rent: T,
    pub ata_program: T,
    pub whirlpool_program: T,
}

/// Accounts of Whirlpool initialize_pool_with_adaptive_fee.
pub struct InitPoolAccounts<T> {
    pub whirlpools_config: T,
    pub token_mint_a: T,
    pub token_mint_b: T,
    pub token_badge_a: T,
    pub token_badge_b: T,
    pub funder: T,
    pub initialize_pool_authority: T,
    pub whirlpool: T,
    pub oracle: T,
    pub token_vault_a: T,
    pub token_vault_b: T,
    pub adaptive_fee_tier: T,
    pub token_program_a: T,
    pub token_program_b: T,
    pub system_program: T,
    pub rent: T,
    pub whirlpool_program: T,
}

/// Accounts of Whirlpool open_position_with_token_extensions.
pub struct OpenPositionTeAccounts<T> {
    pub funder: T,
    pub owner: T,
    pub position: T,
    pub position_mint: T,
    pub position_token_account: T,
    pub whirlpool: T,
    pub token_2022_program: T,
    pub system_program: T,
    pub ata_program: T,
    pub metadata_update_auth: T,
    pub whirlpool_program: T,
}

/// Accounts of Whirlpool lock_position.
pub struct LockAccounts<T> {
    pub funder: T,
    pub position_authority: T,
    pub position: T,
    pub position_mint: T,
    pub position_token_account: T,
    pub lock_config: T,
    pub whirlpool: T,
    pub token_2022_program: T,
    pub system_program: T,
    pub whirlpool_program: T,
}

/// The accounts of increase/decrease_liquidity_v2, with their writable and signer flags.
pub fn liquidity_v2_metas<T: Copy>(a: &LiquidityAccounts<T>) -> (m: Vec<(T, bool, bool)>)
    ensures
        m@ == seq![(a.whirlpool, true, false), (a.token_program_a, false, false), (a.token_program_b, false, false), (a.memo_program, false, false), (a.position_authority, false, true), (a.position, true, false), (a.position_token_account, false, false), (a.token_mint_a, false, false), (a.token_mint_b, false, false), (a.token_owner_account_a, true, false), (a.token_owner_account_b, true, false), (a.token_vault_a, true, false), (a.token_vault_b, true, false), (a.tick_array_lower, true, false), (a.tick_array_upper, true, false)],
{
    let mut m: Vec<(T, bool, bool)> = Vec::new();
    m.push((a.whirlpool, true, false));
    m.push((a.token_program_a, false, false));
    m.push((a.token_program_b, false, false));
    m.push((a.memo_program, false, false));
    m.push((a.position_authority, false, true));
    m.push((a.position, true, false));
    m.push((a.position_token_account, false, false));
    m.push((a.token_mint_a, false, false));
    m.push((a.token_mint_b, false, false));
    m.push((a.token_owner_account_a, true, false));
    m.push((a.token_owner_account_b, true, false));
    m.push((a.token_vault_a, true, false));
    m.push((a.token_vault_b, true, false));
    m.push((a.tick_array_lower, true, false));
    m.push((a.tick_array_upper, true, false));
    proof {
        assert(m@ =~= seq![(a.whirlpool, true, false), (a.token_program_a, false, false), (a.token_program_b, false, false), (a.memo_program, false, false), (a.position_authority, false, true), (a.position, true, false), (a.position_token_account, false, false), (a.token_mint_a, false, false), (a.token_mint_b, false, false), (a.token_owner_account_a, true, false), (a.token_owner_account_b, true, false), (a.token_vault_a, true, false), (a.token_vault_b, true, false), (a.tick_array_lower, true, false), (a.tick_array_upper, true, false)]);
    }
    m
}

/// The accounts of collect_fees_v2, with their writable and signer flags.
pub fn collect_fees_v2_metas<T: Copy>(a: &LiquidityAccounts<T>) -> (m: Vec<(T, bool, bool)>)
    ensures
        m@ == seq![(a.whirlpool, true, false), (a.position_authority, false, true), (a.position, true, false), (a.position_token_account, false, false), (a.token_mint_a, false, false), (a.token_mint_b, false, false), (a.token_owner_account_a, true, false), (a.token_vault_a, true, false), (a.token_owner_account_b, true, false), (a.token_vault_b, true, false), (a.token_program_a, false, false), (a.token_program_b, false, false), (a.memo_program, false, false)],
{
    let mut m: Vec<(T, bool, bool)> = Vec::new();
    m.push((a.whirlpool, true, false));
    m.push((a.position_authority, false, true));
    m.push((a.position, true, false));
    m.push((a.position_token_account, false, false));
    m.push((a.token_mint_a, false, false));
    m.push((a.token_mint_b, false, false));
    m.push((a.token_owner_account_a, true, false));
    m.push((a.token_vault_a, true, false));
    m.push((a.token_owner_account_b, true, false));
    m.push((a.token_vault_b, true, false));
    m.push((a.token_program_a, false, false));
    m.push((a.token_program_b, false, false));
    m.push((a.memo_program, false, false));
    proof {
        assert(m@ =~= seq![(a.whirlpool, true, false), (a.position_authority, false, true), (a.position, true, false), (a.position_token_account, false, false), (a.token_mint_a, false, false), (a.token_mint_b, false, false), (a.token_owner_account_a, true, false), (a.token_vault_a, true, false), (a.token_owner_account_b, true, false), (a.token_vault_b, true, false), (a.token_program_a, false, false), (a.token_program_b, false, false), (a.memo_program, false, false)]);
    }
    m
}

/// The accounts of open_bundled_position, with their writable and signer flags.
pub fn open_bundled_position_metas<T: Copy>(a: &OpenBundledAccounts<T>) -> (m: Vec<(T, bool, bool)>)
    ensures
        m@ == seq![(a.bundled_position, true, false), (a.position_bundle, true, false), (a.position_bundle_token_account, false, false), (a.position_bundle_authority, false, true), (a.whirlpool, false, false), (a.funder, true, true), (a.system_program, false, false), (a.rent, false, false)],
{
    let mut m: Vec<(T, bool, bool)> = Vec::new();
    m.push((a.bundled_position, true, false));
    m.push((a.position_bundle, true, false));
    m.push((a.position_bundle_token_account, false, false));
    m.push((a.position_bundle_authority, false, true));
    m.push((a.whirlpool, false, false));
    m.push((a.funder, true, true));
    m.push((a.system_program, false, false));
    m.push((a.rent, false, false));
    proof {
        assert(m@ =~= seq![(a.bundled_position, true, false), (a.position_bundle, true, false), (a.position_bundle_token_account, false, false), (a.position_bundle_authority, false, true), (a.whirlpool, false, false), (a.funder, true, true), (a.system_program, false, false), (a.rent, false, false)]);
    }
    m
}

/// The accounts of initialize_position_bundle, with their writable and signer flags.
pub fn initialize_position_bundle_metas<T: Copy>(a: &InitBundleAccounts<T>) -> (m: Vec<(T, bool, bool)>)
    ensures
        m@ == seq![(a.position_bundle, true, false), (a.position_bundle_mint, true, true), (a.position_bundle_token_account, true, false), (a.position_bundle_owner, false, false), (a.funder, true, true), (a.token_program, false, false), (a.system_program, false, false), (a.rent, false, false), (a.ata_program, false, false)],
{
    let mut m: Vec<(T, bool, bool)> = Vec::new();
    m.push((a.position_bundle, true, false));
    m.push((a.position_bundle_mint, true, true));
    m.push((a.position_bundle_token_account, true, false));
    m.push((a.position_bundle_owner, false, false));
    m.push((a.funder, true, true));
    m.push((a.token_program, false, false));
    m.push((a.system_program, false, false));
    m.push((a.rent, false, false));
    m.push((a.ata_program, false, false));
    proof {
        assert(m@ =~= seq![(a.position_bundle, true, false), (a.position_bundle_mint, true, true), (a.position_bundle_token_account, true, false), (a.position_bundle_owner, false, false), (a.funder, true, true), (a.token_program, false, false), (a.system_program, false, false), (a.rent, false, false), (a.ata_program, false, false)]);
    }
    m
}

/// The accounts of initialize_pool_with_adaptive_fee, with their writable and signer flags.
pub fn initialize_pool_metas<T: Copy>(a: &InitPoolAccounts<T>) -> (m: Vec<(T, bool, bool)>)
    ensures
        m@ == seq![(a.whirlpools_config, false, false), (a.token_mint_a, false, false), (a.token_mint_b, false, false), (a.token_badge_a, false, false), (a.token_badge_b, false, false), (a.funder, true, true), (a.initialize_pool_authority, false, true), (a.whirlpool, true, false), (a.oracle, true, false), (a.token_vault_a, true, true), (a.token_vault_b, true, true), (a.adaptive_fee_tier, false, false), (a.token_program_a, false, false), (a.token_program_b, false, false), (a.system_program, false, false), (a.rent, false, false)],
{
    let mut m: Vec<(T, bool, bool)> = Vec::new();
    m.push((a.whirlpools_config, false, false));
    m.push((a.token_mint_a, false, false));
    m.push((a.token_mint_b, false, false));
    m.push((a.token_badge_a, false, false));
    m.push((a.token_badge_b, false, false));
    m.push((a.funder, true, true));
    m.push((a.initialize_pool_authority, false, true));
    m.push((a.whirlpool, true, false));
    m.push((a.oracle, true, false));
    m.push((a.token_vault_a, true, true));
    m.push((a.token_vault_b, true, true));
    m.push((a.adaptive_fee_tier, false, false));
    m.push((a.token_program_a, false, false));
    m.push((a.token_program_b, false, false));
    m.push((a.system_program, false, false));
    m.push((a.rent, false, false));
    proof {
        assert(m@ =~= seq![(a.whirlpools_config, false, false), (a.token_mint_a, false, false), (a.token_mint_b, false, false), (a.token_badge_a, false, false), (a.token_badge_b, false, false), (a.funder, true, true), (a.initialize_pool_authority, false, true), (a.whirlpool, true, false), (a.oracle, true, false), (a.token_vault_a, true, true), (a.token_vault_b, true, true), (a.adaptive_fee_tier, false, false), (a.token_program_a, false, false), (a.token_program_b, false, false), (a.system_program, false, false), (a.rent, false, false)]);
    }
    m
}

/// The accounts of open_position_with_token_extensions, with their writable and signer flags.
pub fn open_position_with_token_extensions_metas<T: Copy>(a: &OpenPositionTeAccounts<T>) -> (m: Vec<(T, bool, bool)>)
    ensures
        m@ == seq![(a.funder, true, true), (a.owner, false, false), (a.position, true, false), (a.position_mint, true, true), (a.position_token_account, true, false), (a.whirlpool, false, false), (a.token_2022_program, false, false), (a.system_program, false, false), (a.ata_program, false, false), (a.metadata_update_auth, false, false)],
{
    let mut m: Vec<(T, bool, bool)> = Vec::new();
    m.push((a.funder, true, true));
    m.push((a.owner, false, false));
    m.push((a.position, true, false));
    m.push((a.position_mint, true, true));
    m.push((a.position_token_account, true, false));
    m.push((a.whirlpool, false, false));
    m.push((a.token_2022_program, false, false));
    m.push((a.system_program, false, false));
    m.push((a.ata_program, false, false));
    m.push((a.metadata_update_auth, false, false));
    proof {
        assert(m@ =~= seq![(a.funder, true, true), (a.owner, false, false), (a.position, true, false), (a.position_mint, true, true), (a.position_token_account, true, false), (a.whirlpool, false, false), (a.token_2022_program, false, false), (a.system_program, false, false), (a.ata_program, false, false), (a.metadata_update_auth, false, false)]);
    }
    m
}

/// The accounts of lock_position (permanent), with their writable and signer flags.
pub fn lock_position_permanent_metas<T: Copy>(a: &LockAccounts<T>) -> (m: Vec<(T, bool, bool)>)
    ensures
        m@ == seq![(a.funder, true, true), (a.position_authority, false, true), (a.position, true, false), (a.position_mint, false, false), (a.position_token_account, true, false), (a.lock_config, true, false), (a.whirlpool, false, false), (a.token_2022_program, false, false), (a.system_program, false, false)],
{
    let mut m: Vec<(T, bool, bool)> = Vec::new();
    m.push((a.funder, true, true));
    m.push((a.position_authority, false, true));
    m.push((a.position, true, false));
    m.push((a.position_mint, false, false));
    m.push((a.position_token_account, true, false));
    m.push((a.lock_config, true, false));
    m.push((a.whirlpool, false, false));
    m.push((a.token_2022_program, false, false));
    m.push((a.system_program, false, false));
    proof {
        assert(m@ =~= seq![(a.funder, true, true), (a.position_authority, false, true), (a.position, true, false), (a.position_mint, false, false), (a.position_token_account, true, false), (a.lock_config, true, false), (a.whirlpool, false, false), (a.token_2022_program, false, false), (a.system_program, false, false)]);
    }
    m
}

/// The accounts of update_fees_and_rewards, with their writable and signer flags.
pub fn update_fees_and_rewards_metas<T: Copy>(whirlpool: T, position: T, tick_array_lower: T, tick_array_upper: T) -> (m: Vec<(T, bool, bool)>)
    ensures
        m@ == seq![(whirlpool, true, false), (position, true, false), (tick_array_lower, false, false), (tick_array_upper, false, false)],
{
    let mut m: Vec<(T, bool, bool)> = Vec::new();
    m.push((whirlpool, true, false));
    m.push((position, true, false));
    m.push((tick_array_lower, false, false));
    m.push((tick_array_upper, false, false));
    proof {
        assert(m@ =~= seq![(whirlpool, true, false), (position, true, false), (tick_array_lower, false, false), (tick_array_upper, false, false)]);
    }
    m
}

/// The accounts of close_bundled_position, with their writable and signer flags.
pub fn close_bundled_position_metas<T: Copy>(bundled_position: T, position_bundle: T, position_bundle_token_account: T, position_bundle_authority: T, receiver: T) -> (m: Vec<(T, bool, bool)>)
    ensures
        m@ == seq![(bundled_position, true, false), (position_bundle, true, false), (position_bundle_token_account, false, false), (position_bundle_authority, false, true), (receiver, true, false)],
{
    let mut m: Vec<(T, bool, bool)> = Vec::new();
    m.push((bundled_position, true, false));
    m.push((position_bundle, true, false));
    m.push((position_bundle_token_account, false, false));
    m.push((position_bundle_authority, false, true));
    m.push((receiver, true, false));
    proof {
        assert(m@ =~= seq![(bundled_position, true, false), (position_bundle, true, false), (position_bundle_token_account, false, false), (position_bundle_authority, false, true), (receiver, true, false)]);
    }
    m
}

/// The accounts of initialize_dynamic_tick_array, with their writable and signer flags.
pub fn initialize_dynamic_tick_array_metas<T: Copy>(whirlpool: T, funder: T, tick_array: T, system_program: T) -> (m: Vec<(T, bool, bool)>)
    ensures
        m@ == seq![(whirlpool, false, false), (funder, true, true), (tick_array, true, false), (system_program, false, false)],
{
    let mut m: Vec<(T, bool, bool)> = Vec::new();
    m.push((whirlpool, false, false));
    m.push((funder, true, true));
    m.push((tick_array, true, false));
    m.push((system_program, false, false));
    proof {
        assert(m@ =~= seq![(whirlpool, false, false), (funder, true, true), (tick_array, true, false), (system_program, false, false)]);
    }
    m
}

/// The accounts of SPL Token / Token-2022 TransferChecked, with their writable and signer flags.
pub fn transfer_checked_metas<T: Copy>(from: T, mint: T, to: T, authority: T) -> (m: Vec<(T, bool, bool)>)
    ensures
        m@ == seq![(from, true, false), (mint, false, false), (to, true, false), (authority, false, true)],
{
    let mut m: Vec<(T, bool, bool)> = Vec::new();
    m.push((from, true, false));
    m.push((mint, false, false));
    m.push((to, true, false));
    m.push((authority, false, true));
    proof {
        assert(m@ =~= seq![(from, true, false), (mint, false, false), (to, true, false), (authority, false, true)]);
    }
    m
}

/// The accounts of the associated token account program's CreateIdempotent, with their writable and signer flags.
pub fn create_ata_idempotent_metas<T: Copy>(payer: T, ata: T, owner: T, mint: T, system_program: T, token_program: T) -> (m: Vec<(T, bool, bool)>)
    ensures
        m@ == seq![(payer, true, true), (ata, true, false), (owner, false, false), (mint, false, false), (system_program, false, false), (token_program, false, false)],
{
    let mut m: Vec<(T, bool, bool)> = Vec::new();
    m.push((payer, true, true));
    m.push((ata, true, false));
    m.push((owner, false, false));
    m.push((mint, false, false));
    m.push((system_program, false, false));
    m.push((token_program, false, false));
    proof {
        assert(m@ =~= seq![(payer, true, true), (ata, true, false), (owner, false, false), (mint, false, false), (system_program, false, false), (token_program, false, false)]);
    }
    m
}

/// The lamports of the account that receives a closed account's `amount`, unless the sum
/// overflows.
pub fn credit_lamports(balance: u64, amount: u64) -> (r: Result<u64, LaunchError>)
    ensures
        r == if balance + amount <= u64::MAX {
            Ok::<u64, LaunchError>((balance + amount) as u64)
        } else {
            Err(LaunchError::MathOverflow)
        },
{
    match balance.checked_add(amount) {
        Some(v) => Ok(v),
        None => Err(LaunchError::MathOverflow),
    }
}

/// Whether a TransferChecked is made: not for a zero amount, and only through SPL Token or
/// Token-2022.
pub fn transfer_wanted(program: &Pubkey, amount: u64) -> (r: Result<bool, LaunchError>)
    ensures
        r == if amount == 0 {
            Ok::<bool, LaunchError>(false)
        } else if !is_token_program(program@) {
            Err(LaunchError::InvalidProgram)
        } else {
            Ok(true)
        },
{
    if amount == 0 {
        return Ok(false);
    }
    check_token_program(program)?;
    Ok(true)
}

/// The accounts of Token-2022 InitializeMetadataPointer and InitializeMint2, with their writable and signer flags.
pub fn mint_setup_metas<T: Copy>(mint: T) -> (m: Vec<(T, bool, bool)>)
    ensures
        m@ == seq![(mint, true, false)],
{
    let mut m: Vec<(T, bool, bool)> = Vec::new();
    m.push((mint, true, false));
    proof {
        assert(m@ =~= seq![(mint, true, false)]);
    }
    m
}

/// The accounts of the token metadata interface Initialize (the mint holds its own metadata), with their writable and signer flags.
pub fn metadata_initialize_metas<T: Copy>(mint: T, update_authority: T, mint_authority: T) -> (m: Vec<(T, bool, bool)>)
    ensures
        m@ == seq![(mint, true, false), (update_authority, false, false), (mint, false, false), (mint_authority, false, true)],
{
    let mut m: Vec<(T, bool, bool)> = Vec::new();
    m.push((mint, true, false));
    m.push((update_authority, false, false));
    m.push((mint, false, false));
    m.push((mint_authority, false, true));
    proof {
        assert(m@ =~= seq![(mint, true, false), (update_authority, false, false), (mint, false, false), (mint_authority, false, true)]);
    }
    m
}

/// The accounts of SetAuthority and the metadata UpdateAuthority, with their writable and signer flags.
pub fn authority_change_metas<T: Copy>(target: T, authority: T) -> (m: Vec<(T, bool, bool)>)
    ensures
        m@ == seq![(target, true, false), (authority, false, true)],
{
    let mut m: Vec<(T, bool, bool)> = Vec::new();
    m.push((target, true, false));
    m.push((authority, false, true));
    proof {
        assert(m@ =~= seq![(target, true, false), (authority, false, true)]);
    }
    m
}

/// The accounts of MintTo, with their writable and signer flags.
pub fn mint_to_metas<T: Copy>(mint: T, account: T, mint_authority: T) -> (m: Vec<(T, bool, bool)>)
    ensures
        m@ == seq![(mint, true, false), (account, true, false), (mint_authority, false, true)],
{
    let mut m: Vec<(T, bool, bool)> = Vec::new();
    m.push((mint, true, false));
    m.push((account, true, false));
    m.push((mint_authority, false, true));
    proof {
        assert(m@ =~= seq![(mint, true, false), (account, true, false), (mint_authority, false, true)]);
    }
    m
}

} // verus!
