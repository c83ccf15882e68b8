//! Errors of the launch program.
use vstd::prelude::*;

verus! {

/// Program-specific errors; each is reported to the runtime as `Custom(code)`.
#[derive(Clone, Copy, Debug, PartialEq, Eq, Structural)]
pub enum LaunchError {
    InvalidAccountOwner,
    InvalidPda,
    AlreadyInitialized,
    NotInitialized,
    MissingSigner,
    InvalidMint,
    /// The token mint must sort below the quote mint for it to be token A.
    MintOrder,
    InvalidVault,
    InvalidWhirlpool,
    InvalidBundle,
    BundleFull,
    ReserveEmpty,
    ZeroAmount,
    MathOverflow,
    NotSeatHolder,
    SeatTooYoung,
    ExitCapReached,
    InvalidSeat,
    InvalidTickArray,
    InvalidTokenAccount,
    PoolNotInitialized,
    FloorAlreadySeeded,
    InvalidProgram,
    InvalidArgs,
    UnsupportedQuoteMint,
}

/// The numeric code of each error: its position in the declaration, starting at 0.
pub open spec fn error_code(e: LaunchError) -> u32 {
    match e {
        LaunchError::InvalidAccountOwner => 0,
        LaunchError::InvalidPda => 1,
        LaunchError::AlreadyInitialized => 2,
        LaunchError::NotInitialized => 3,
        LaunchError::MissingSigner => 4,
        LaunchError::InvalidMint => 5,
        LaunchError::MintOrder => 6,
        LaunchError::InvalidVault => 7,
        LaunchError::InvalidWhirlpool => 8,
        LaunchError::InvalidBundle => 9,
        LaunchError::BundleFull => 10,
        LaunchError::ReserveEmpty => 11,
        LaunchError::ZeroAmount => 12,
        LaunchError::MathOverflow => 13,
        LaunchError::NotSeatHolder => 14,
        LaunchError::SeatTooYoung => 15,
        LaunchError::ExitCapReached => 16,
        LaunchError::InvalidSeat => 17,
        LaunchError::InvalidTickArray => 18,
        LaunchError::InvalidTokenAccount => 19,
        LaunchError::PoolNotInitialized => 20,
        LaunchError::FloorAlreadySeeded => 21,
        LaunchError::InvalidProgram => 22,
        LaunchError::InvalidArgs => 23,
        LaunchError::UnsupportedQuoteMint => 24,
    }
}

impl LaunchError {
    /// The code carried by `Custom(code)` when this error reaches the runtime.
    pub fn code(&self) -> (c: u32)
        ensures
            c == error_code(*self),
    {
        match self {
            LaunchError::InvalidAccountOwner => 0,
            LaunchError::InvalidPda => 1,
            LaunchError::AlreadyInitialized => 2,
            LaunchError::NotInitialized => 3,
            LaunchError::MissingSigner => 4,
            LaunchError::InvalidMint => 5,
            LaunchError::MintOrder => 6,
            LaunchError::InvalidVault => 7,
            LaunchError::InvalidWhirlpool => 8,
            LaunchError::InvalidBundle => 9,
            LaunchError::BundleFull => 10,
            LaunchError::ReserveEmpty => 11,
            LaunchError::ZeroAmount => 12,
            LaunchError::MathOverflow => 13,
            LaunchError::NotSeatHolder => 14,
            LaunchError::SeatTooYoung => 15,
            LaunchError::ExitCapReached => 16,
            LaunchError::InvalidSeat => 17,
            LaunchError::InvalidTickArray => 18,
            LaunchError::InvalidTokenAccount => 19,
            LaunchError::PoolNotInitialized => 20,
            LaunchError::FloorAlreadySeeded => 21,
            LaunchError::InvalidProgram => 22,
            LaunchError::InvalidArgs => 23,
            LaunchError::UnsupportedQuoteMint => 24,
        }
    }
}

/// Why an instruction fails: a program-specific error, or one of the runtime's own
/// error kinds that the program reports.
#[derive(Clone, Copy, Debug, PartialEq, Eq, Structural)]
pub enum ProgramFault {
    Launch(LaunchError),
    InvalidAccountData,
    InvalidInstructionData,
    NotEnoughAccountKeys,
    IncorrectProgramId,
    InvalidArgument,
}

/// Distinct errors have distinct codes.
pub proof fn lemma_error_codes_distinct(a: LaunchError, b: LaunchError)
    ensures
        error_code(a) == error_code(b) <==> a == b,
{
}

} // verus!
