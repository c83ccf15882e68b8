//! Reads of Whirlpool program accounts (Anchor/borsh field order).
use vstd::prelude::*;
use crate::constants::{Pubkey, WHIRLPOOL_PROGRAM};
use crate::error::{LaunchError, ProgramFault};
use crate::le::{
    from_twos_complement, i32_from_bits, keys_equal, le_value, lemma_le_value_bound,
    lemma_pow256_values, read_key, read_le,
};

verus! {

pub const WHIRLPOOL_LEN: usize = 653;
pub const POSITION_LEN: usize = 216;
pub const POSITION_BUNDLE_LEN: usize = 136;

/// The outcome of the ownership and size check of a Whirlpool account.
pub open spec fn check_result(owner: Seq<u8>, len: nat, min_len: nat) -> Result<(), ProgramFault> {
    if owner != WHIRLPOOL_PROGRAM@ {
        Err(ProgramFault::Launch(LaunchError::InvalidAccountOwner))
    } else if len < min_len {
        Err(ProgramFault::InvalidAccountData)
    } else {
        Ok(())
    }
}

fn check(owner: &Pubkey, data: &[u8], len: usize) -> (r: Result<(), ProgramFault>)
    ensures
        r == check_result(owner@, data@.len(), len as nat),
{
    if !keys_equal(owner, &WHIRLPOOL_PROGRAM) {
        return Err(ProgramFault::Launch(LaunchError::InvalidAccountOwner));
    }
    if data.len() < len {
        return Err(ProgramFault::InvalidAccountData);
    }
    Ok(())
}

fn u128_at(d: &[u8], o: usize) -> (r: u128)
    requires
        o + 16 <= d@.len(),
    ensures
        r == le_value(d@.subrange(o as int, o + 16)),
{
    read_le(d, o, 16)
}

fn u64_at(d: &[u8], o: usize) -> (r: u64)
    requires
        o + 8 <= d@.len(),
    ensures
        r == le_value(d@.subrange(o as int, o + 8)),
{
    proof {
        lemma_pow256_values();
        lemma_le_value_bound(d@.subrange(o as int, o + 8));
    }
    read_le(d, o, 8) as u64
}

fn i32_at(d: &[u8], o: usize) -> (r: i32)
    requires
        o + 4 <= d@.len(),
    ensures
        r == from_twos_complement(le_value(d@.subrange(o as int, o + 4)), 32),
{
    proof {
        lemma_pow256_values();
        lemma_le_value_bound(d@.subrange(o as int, o + 4));
    }
    i32_from_bits(read_le(d, o, 4) as u32)
}

fn key_at(d: &[u8], o: usize) -> (r: Pubkey)
    requires
        o + 32 <= d@.len(),
    ensures
        r@ == d@.subrange(o as int, o + 32),
{
    read_key(d, o)
}

pub struct PoolView {
    pub tick_spacing: u16,
    pub liquidity: u128,
    pub sqrt_price: u128,
    pub tick_current_index: i32,
    pub token_mint_a: Pubkey,
    pub token_vault_a: Pubkey,
    pub token_mint_b: Pubkey,
    pub token_vault_b: Pubkey,
}

/// `p` is the pool that the Whirlpool account bytes `d` hold.
pub open spec fn pool_decodes_to(d: Seq<u8>, p: PoolView) -> bool {
    &&& p.tick_spacing == le_value(d.subrange(41, 43))
    &&& p.liquidity == le_value(d.subrange(49, 65))
    &&& p.sqrt_price == le_value(d.subrange(65, 81))
    &&& p.tick_current_index == from_twos_complement(le_value(d.subrange(81, 85)), 32)
    &&& p.token_mint_a@ == d.subrange(101, 133)
    &&& p.token_vault_a@ == d.subrange(133, 165)
    &&& p.token_mint_b@ == d.subrange(181, 213)
    &&& p.token_vault_b@ == d.subrange(213, 245)
}

/// Reads a Whirlpool account.
pub fn read_pool(owner: &Pubkey, data: &[u8]) -> (r: Result<PoolView, ProgramFault>)
    ensures
        check_result(owner@, data@.len(), WHIRLPOOL_LEN as nat) is Err ==> r == Err::<PoolView, ProgramFault>(
            check_result(owner@, data@.len(), WHIRLPOOL_LEN as nat)->Err_0,
        ),
        check_result(owner@, data@.len(), WHIRLPOOL_LEN as nat) is Ok ==> r is Ok,
        r matches Ok(p) ==> pool_decodes_to(data@, p),
{
    check(owner, data, WHIRLPOOL_LEN)?;
    proof {
        lemma_pow256_values();
        lemma_le_value_bound(data@.subrange(41, 43));
    }
    Ok(PoolView {
        tick_spacing: read_le(data, 41, 2) as u16,
        liquidity: u128_at(data, 49),
        sqrt_price: u128_at(data, 65),
        tick_current_index: i32_at(data, 81),
        token_mint_a: key_at(data, 101),
        token_vault_a: key_at(data, 133),
        token_mint_b: key_at(data, 181),
        token_vault_b: key_at(data, 213),
    })
}

pub struct PositionView {
    pub whirlpool: Pubkey,
    pub position_mint: Pubkey,
    pub liquidity: u128,
    pub tick_lower_index: i32,
    pub tick_upper_index: i32,
    pub fee_owed_a: u64,
    pub fee_owed_b: u64,
}

/// `p` is the position that the Whirlpool position account bytes `d` hold.
pub open spec fn position_decodes_to(d: Seq<u8>, p: PositionView) -> bool {
    &&& p.whirlpool@ == d.subrange(8, 40)
    &&& p.position_mint@ == d.subrange(40, 72)
    &&& p.liquidity == le_value(d.subrange(72, 88))
    &&& p.tick_lower_index == from_twos_complement(le_value(d.subrange(88, 92)), 32)
    &&& p.tick_upper_index == from_twos_complement(le_value(d.subrange(92, 96)), 32)
    &&& p.fee_owed_a == le_value(d.subrange(112, 120))
    &&& p.fee_owed_b == le_value(d.subrange(136, 144))
}

/// Reads a Whirlpool position account.
pub fn read_position(owner: &Pubkey, data: &[u8]) -> (r: Result<PositionView, ProgramFault>)
    ensures
        check_result(owner@, data@.len(), POSITION_LEN as nat) is Err ==> r == Err::<PositionView, ProgramFault>(
            check_result(owner@, data@.len(), POSITION_LEN as nat)->Err_0,
        ),
        check_result(owner@, data@.len(), POSITION_LEN as nat) is Ok ==> r is Ok,
        r matches Ok(p) ==> position_decodes_to(data@, p),
{
    check(owner, data, POSITION_LEN)?;
    Ok(PositionView {
        whirlpool: key_at(data, 8),
        position_mint: key_at(data, 40),
        liquidity: u128_at(data, 72),
        tick_lower_index: i32_at(data, 88),
        tick_upper_index: i32_at(data, 92),
        fee_owed_a: u64_at(data, 112),
        fee_owed_b: u64_at(data, 136),
    })
}

/// Reads the mint of a Whirlpool position bundle account.
pub fn read_bundle_mint(owner: &Pubkey, data: &[u8]) -> (r: Result<Pubkey, ProgramFault>)
    ensures
        check_result(owner@, data@.len(), POSITION_BUNDLE_LEN as nat) is Err ==> r == Err::<Pubkey, ProgramFault>(
            check_result(owner@, data@.len(), POSITION_BUNDLE_LEN as nat)->Err_0,
        ),
        check_result(owner@, data@.len(), POSITION_BUNDLE_LEN as nat) is Ok ==> r is Ok,
        r matches Ok(k) ==> k@ == data@.subrange(8, 40),
{
    check(owner, data, POSITION_BUNDLE_LEN)?;
    Ok(key_at(data, 8))
}

} // verus!
