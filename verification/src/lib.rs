//! Ladder Launch: the decision logic of a launchpad built on Orca Whirlpools.
//!
//! Buyers do not buy. They deposit a quote token, and the program pairs it with tokens
//! from a fixed reserve into a concentrated position that is ~90% token / ~10% quote by
//! value at the current pool price (lower bound ~21% under spot, open top). Exits follow
//! the seed-clawback rule and are rate-limited per minute.
//!
//! This crate holds the verified part: the Whirlpool fixed-point math, the account
//! layouts and their codecs, the instruction-data encoders, and every rule that an
//! instruction applies to the launch state. The runtime plumbing (account borrows,
//! cross-program invocations, sysvars) lives outside the library.
pub mod constants;
pub mod cpi;
pub mod error;
pub mod instructions;
pub mod le;
pub mod math;
pub mod state;
pub mod tick_math;
pub mod wide;

use crate::constants::{Pubkey, ID};
use crate::error::ProgramFault;
use crate::le::keys_equal;
use vstd::prelude::*;

verus! {

/// The instructions of the program, by the tag in the first byte of their data.
#[derive(Clone, Copy, Debug, PartialEq, Eq, Structural)]
pub enum Instruction {
    CreateLaunch,
    InitPool,
    NewBundle,
    SeedFloor,
    Deposit,
    Exit,
    CollectFees,
    CollectFloorFees,
}

/// The instruction that a tag names, if any.
pub open spec fn instruction_of(tag: u8) -> Option<Instruction> {
    if tag == 0 {
        Some(Instruction::CreateLaunch)
    } else if tag == 1 {
        Some(Instruction::InitPool)
    } else if tag == 2 {
        Some(Instruction::NewBundle)
    } else if tag == 3 {
        Some(Instruction::SeedFloor)
    } else if tag == 4 {
        Some(Instruction::Deposit)
    } else if tag == 5 {
        Some(Instruction::Exit)
    } else if tag == 6 {
        Some(Instruction::CollectFees)
    } else if tag == 7 {
        Some(Instruction::CollectFloorFees)
    } else {
        None
    }
}

/// Routes an instruction: it must be addressed to this program, and its first byte
/// must name an instruction; the arguments are the bytes after the tag.
pub fn decode_instruction(program_id: &Pubkey, data: &[u8]) -> (r: Result<Instruction, ProgramFault>)
    ensures
        program_id@ != ID@ ==> r == Err::<Instruction, ProgramFault>(ProgramFault::IncorrectProgramId),
        program_id@ == ID@ && data@.len() == 0 ==> r == Err::<Instruction, ProgramFault>(
            ProgramFault::InvalidInstructionData,
        ),
        program_id@ == ID@ && data@.len() > 0 ==> match instruction_of(data@[0]) {
            Some(i) => r == Ok::<Instruction, ProgramFault>(i),
            None => r == Err::<Instruction, ProgramFault>(ProgramFault::InvalidInstructionData),
        },
{
    let id: Pubkey = ID;
    if !keys_equal(program_id, &id) {
        return Err(ProgramFault::IncorrectProgramId);
    }
    if data.len() == 0 {
        return Err(ProgramFault::InvalidInstructionData);
    }
    let tag: u8 = data[0];
    if tag == 0 {
        Ok(Instruction::CreateLaunch)
    } else if tag == 1 {
        Ok(Instruction::InitPool)
    } else if tag == 2 {
        Ok(Instruction::NewBundle)
    } else if tag == 3 {
        Ok(Instruction::SeedFloor)
    } else if tag == 4 {
        Ok(Instruction::Deposit)
    } else if tag == 5 {
        Ok(Instruction::Exit)
    } else if tag == 6 {
        Ok(Instruction::CollectFees)
    } else if tag == 7 {
        Ok(Instruction::CollectFloorFees)
    } else {
        Err(ProgramFault::InvalidInstructionData)
    }
}

} // verus!
