//! The program's instructions: the checks and decisions each one makes. The account
//! plumbing around them (borrows, invocations of other programs) is the caller's.
pub mod collect_fees;
pub mod collect_floor_fees;
pub mod create_launch;
pub mod deposit;
pub mod exit;
pub mod init_pool;
pub mod new_bundle;
pub mod seed_floor;

use vstd::prelude::*;
use crate::constants::{Pubkey, TOKEN_2022_PROGRAM, TOKEN_PROGRAM};
use crate::cpi::{check_program, read_token_account, token_account_ok, LiquidityAccounts};
use crate::error::LaunchError;
use crate::le::{keys_equal, le_value, lemma_le_value_bound, lemma_pow256_values, read_le};

verus! {

#[inline(always)]
pub fn signer(is_signer: bool) -> (r: Result<(), LaunchError>)
    ensures
        r == if is_signer {
            Ok::<(), LaunchError>(())
        } else {
            Err(LaunchError::MissingSigner)
        },
{
    if !is_signer {
        return Err(LaunchError::MissingSigner);
    }
    Ok(())
}

#[inline(always)]
pub fn same(key: &Pubkey, expected: &Pubkey, err: LaunchError) -> (r: Result<(), LaunchError>)
    ensures
        r == if key@ == expected@ {
            Ok::<(), LaunchError>(())
        } else {
            Err(err)
        },
{
    if !keys_equal(key, expected) {
        return Err(err);
    }
    Ok(())
}

/// The outcome of checking that a token account holds `mint` for `owner`: its balance.
pub open spec fn token_account_check(program: Seq<u8>, d: Seq<u8>, mint: Seq<u8>, owner: Seq<u8>) -> Result<u64, LaunchError> {
    if !token_account_ok(program, d) || d.subrange(0, 32) != mint || d.subrange(32, 64) != owner {
        Err(LaunchError::InvalidTokenAccount)
    } else {
        Ok(le_value(d.subrange(64, 72)) as u64)
    }
}

/// Verify `data` is a token account (either program) for `mint` owned by `owner`;
/// returns its balance.
pub fn token_account_of(program: &Pubkey, data: &[u8], mint: &Pubkey, owner: &Pubkey) -> (r: Result<u64, LaunchError>)
    ensures
        r == token_account_check(program@, data@, mint@, owner@),
{
    let acc = read_token_account(program, data)?;
    if !keys_equal(&acc.mint, mint) || !keys_equal(&acc.owner, owner) {
        return Err(LaunchError::InvalidTokenAccount);
    }
    Ok(acc.amount)
}

/// Which of the two token-program accounts an instruction uses for the quote.
#[derive(Clone, Copy, Debug, PartialEq, Eq, Structural)]
pub enum QuoteProgram {
    /// The SPL Token slot.
    Token,
    /// The Token-2022 slot.
    Token2022,
}

/// Pick the account to use as the quote's token program: the SPL Token slot when the
/// quote is SPL, the Token-2022 slot otherwise. Instructions therefore never need the
/// same program account passed twice.
pub fn resolve_quote_program(quote_token_program: &Pubkey, token_program: &Pubkey, token_2022_program: &Pubkey) -> (r: Result<QuoteProgram, LaunchError>)
    ensures
        r == if token_program@ != TOKEN_PROGRAM@ {
            Err(LaunchError::InvalidProgram)
        } else if quote_token_program@ == TOKEN_PROGRAM@ {
            Ok(QuoteProgram::Token)
        } else if token_2022_program@ != TOKEN_2022_PROGRAM@ {
            Err(LaunchError::InvalidProgram)
        } else {
            Ok(QuoteProgram::Token2022)
        },
{
    check_program(token_program, &TOKEN_PROGRAM)?;
    if keys_equal(quote_token_program, &TOKEN_PROGRAM) {
        Ok(QuoteProgram::Token)
    } else {
        check_program(token_2022_program, &TOKEN_2022_PROGRAM)?;
        Ok(QuoteProgram::Token2022)
    }
}

/// Whirlpool side assignment: the launch token is A when its mint sorts below the quote mint.
#[derive(Clone, Copy)]
pub struct Sides<T> {
    pub token_is_a: bool,
    pub mint_a: T,
    pub mint_b: T,
    pub owner_a: T,
    pub owner_b: T,
    pub prog_a: T,
    pub prog_b: T,
}

pub fn sides<T: Copy>(
    token_is_a: bool,
    token_mint: T,
    quote_mint: T,
    reserve_vault: T,
    quote_vault: T,
    token_program: T,
    quote_program: T,
) -> (s: Sides<T>)
    ensures
        s.token_is_a == token_is_a,
        token_is_a ==> s.mint_a == token_mint && s.mint_b == quote_mint && s.owner_a == reserve_vault
            && s.owner_b == quote_vault && s.prog_a == token_program && s.prog_b == quote_program,
        !token_is_a ==> s.mint_a == quote_mint && s.mint_b == token_mint && s.owner_a == quote_vault
            && s.owner_b == reserve_vault && s.prog_a == quote_program && s.prog_b == token_program,
{
    if token_is_a {
        Sides { token_is_a, mint_a: token_mint, mint_b: quote_mint, owner_a: reserve_vault, owner_b: quote_vault, prog_a: token_program, prog_b: quote_program }
    } else {
        Sides { token_is_a, mint_a: quote_mint, mint_b: token_mint, owner_a: quote_vault, owner_b: reserve_vault, prog_a: quote_program, prog_b: token_program }
    }
}

impl<T: Copy> Sides<T> {
    /// The accounts of a liquidity instruction on this side assignment.
    pub fn liquidity_accounts(
        &self,
        whirlpool: T,
        position_authority: T,
        position: T,
        position_token_account: T,
        token_vault_a: T,
        token_vault_b: T,
        tick_array_lower: T,
        tick_array_upper: T,
        memo_program: T,
        whirlpool_program: T,
    ) -> (a: LiquidityAccounts<T>)
        ensures
            a.whirlpool == whirlpool,
            a.position_authority == position_authority,
            a.position == position,
            a.position_token_account == position_token_account,
            a.token_mint_a == self.mint_a,
            a.token_mint_b == self.mint_b,
            a.token_owner_account_a == self.owner_a,
            a.token_owner_account_b == self.owner_b,
            a.token_vault_a == token_vault_a,
            a.token_vault_b == token_vault_b,
            a.tick_array_lower == tick_array_lower,
            a.tick_array_upper == tick_array_upper,
            a.token_program_a == self.prog_a,
            a.token_program_b == self.prog_b,
            a.memo_program == memo_program,
            a.whirlpool_program == whirlpool_program,
    {
        LiquidityAccounts {
            whirlpool,
            position_authority,
            position,
            position_token_account,
            token_mint_a: self.mint_a,
            token_mint_b: self.mint_b,
            token_owner_account_a: self.owner_a,
            token_owner_account_b: self.owner_b,
            token_vault_a,
            token_vault_b,
            tick_array_lower,
            tick_array_upper,
            token_program_a: self.prog_a,
            token_program_b: self.prog_b,
            memo_program,
            whirlpool_program,
        }
    }
}

/// The `n`-byte little-endian argument at `at`, or `InvalidArgs` when the arguments end
/// before it.
pub open spec fn arg_at(args: Seq<u8>, at: nat, n: nat) -> Result<nat, LaunchError> {
    if at + n <= args.len() {
        Ok(le_value(args.subrange(at as int, (at + n) as int)))
    } else {
        Err(LaunchError::InvalidArgs)
    }
}

fn read_arg(args: &[u8], at: usize, n: usize) -> (r: Result<u128, LaunchError>)
    requires
        n <= 16,
        at + n <= usize::MAX,
    ensures
        r == match arg_at(args@, at as nat, n as nat) {
            Ok(v) => Ok::<u128, LaunchError>(v as u128),
            Err(e) => Err(e),
        },
        r matches Ok(v) ==> v < crate::le::pow256(n as nat),
{
    if at + n > args.len() {
        return Err(LaunchError::InvalidArgs);
    }
    proof {
        lemma_le_value_bound(args@.subrange(at as int, at + n));
    }
    Ok(read_le(args, at, n))
}

pub fn read_u64(args: &[u8], at: usize) -> (r: Result<u64, LaunchError>)
    requires
        at + 8 <= usize::MAX,
    ensures
        r == match arg_at(args@, at as nat, 8) {
            Ok(v) => Ok::<u64, LaunchError>(v as u64),
            Err(e) => Err(e),
        },
{
    proof {
        lemma_pow256_values();
    }
    match read_arg(args, at, 8) {
        Ok(v) => {
            proof {
                lemma_le_value_bound(args@.subrange(at as int, at + 8));
            }
            Ok(v as u64)
        },
        Err(e) => Err(e),
    }
}

pub fn read_u32(args: &[u8], at: usize) -> (r: Result<u32, LaunchError>)
    requires
        at + 4 <= usize::MAX,
    ensures
        r == match arg_at(args@, at as nat, 4) {
            Ok(v) => Ok::<u32, LaunchError>(v as u32),
            Err(e) => Err(e),
        },
{
    proof {
        lemma_pow256_values();
    }
    match read_arg(args, at, 4) {
        Ok(v) => {
            proof {
                lemma_le_value_bound(args@.subrange(at as int, at + 4));
            }
            Ok(v as u32)
        },
        Err(e) => Err(e),
    }
}

pub fn read_i32(args: &[u8], at: usize) -> (r: Result<i32, LaunchError>)
    requires
        at + 4 <= usize::MAX,
    ensures
        r == match arg_at(args@, at as nat, 4) {
            Ok(v) => Ok::<i32, LaunchError>(crate::le::from_twos_complement(v, 32) as i32),
            Err(e) => Err(e),
        },
{
    proof {
        lemma_pow256_values();
    }
    match read_arg(args, at, 4) {
        Ok(v) => {
            proof {
                lemma_le_value_bound(args@.subrange(at as int, at + 4));
            }
            Ok(crate::le::i32_from_bits(v as u32))
        },
        Err(e) => Err(e),
    }
}

pub fn read_u16(args: &[u8], at: usize) -> (r: Result<u16, LaunchError>)
    requires
        at + 2 <= usize::MAX,
    ensures
        r == match arg_at(args@, at as nat, 2) {
            Ok(v) => Ok::<u16, LaunchError>(v as u16),
            Err(e) => Err(e),
        },
{
    proof {
        lemma_pow256_values();
    }
    match read_arg(args, at, 2) {
        Ok(v) => {
            proof {
                lemma_le_value_bound(args@.subrange(at as int, at + 2));
            }
            Ok(v as u16)
        },
        Err(e) => Err(e),
    }
}

/// Every change an instruction makes to a launch keeps the parameters chosen at creation,
/// so a launch stays within the bounds `create_launch` enforced for its whole life.
pub proof fn lemma_params_preserved(
    l: crate::state::Launch,
    next: crate::state::Launch,
    key: Pubkey,
    now: i64,
    liquidity: u128,
    seeded: u64,
    quote_used: u64,
)
    requires
        l.params_valid(),
    ensures
        deposit::after_deposit(l, next, liquidity, seeded, quote_used) ==> next.params_valid(),
        exit::after_exit(l, now, liquidity).params_valid(),
        seed_floor::after_floor(l, key, seeded).params_valid(),
        new_bundle::after_bundle(l, key).params_valid(),
        init_pool::after_pool(l, key).params_valid(),
{
}

} // verus!
