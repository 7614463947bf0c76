//! The six requests that the program takes, and how they are read from bytes:
//! one byte that names the request, then its fields, integers little-endian.

use crate::bytes::{read_u64, u64_from_le};
use crate::error::StakingError;
use vstd::prelude::*;

verus! {

/// A request to the program.
#[derive(Clone, Copy, Debug, PartialEq, Eq, Structural)]
pub enum Instruction {
    /// Lock `amount` tokens in the vault.
    CreateStake { amount: u64 },
    /// Take a stake back, with the interest it earned.
    EndStake,
    /// Give `amount` tokens to the pool: to the airdrop supply if `airdrop`
    /// is set, else to the rewards.
    AddToRewardsPool { amount: u64, airdrop: bool },
    /// Pay the voting fee and vote for option `selection`.
    Vote { selection: u8 },
    /// Claim `amount` tokens of the airdrop supply.
    Airdrop { amount: u64 },
    /// Set what an airdrop costs.
    ChangeAirdropFee { fee: u64 },
}

impl Instruction {
    /// The request that `input` holds, if it holds one. Bytes after the last
    /// field are not looked at.
    pub open spec fn parse(input: Seq<u8>) -> Option<Instruction> {
        if input.len() == 0 {
            None
        } else if input[0] == 0 && input.len() >= 9 {
            Some(Instruction::CreateStake { amount: u64_from_le(input.subrange(1, 9)) as u64 })
        } else if input[0] == 1 {
            Some(Instruction::EndStake)
        } else if input[0] == 2 && input.len() >= 10 {
            Some(
                Instruction::AddToRewardsPool {
                    amount: u64_from_le(input.subrange(1, 9)) as u64,
                    airdrop: input[9] == 1,
                },
            )
        } else if input[0] == 3 && input.len() >= 2 {
            Some(Instruction::Vote { selection: input[1] })
        } else if input[0] == 4 && input.len() >= 9 {
            Some(Instruction::Airdrop { amount: u64_from_le(input.subrange(1, 9)) as u64 })
        } else if input[0] == 5 && input.len() >= 9 {
            Some(Instruction::ChangeAirdropFee { fee: u64_from_le(input.subrange(1, 9)) as u64 })
        } else {
            None
        }
    }

    /// Reads a request. An empty input, an unknown first byte and an input
    /// too short for its fields are all refused alike.
    pub fn unpack(input: &[u8]) -> (r: Result<Instruction, StakingError>)
        ensures
            r == (match Instruction::parse(input@) {
                Some(instruction) => Ok::<Instruction, StakingError>(instruction),
                None => Err::<Instruction, StakingError>(StakingError::InvalidInstructionData),
            }),
    {
        if input.len() == 0 {
            return Err(StakingError::InvalidInstructionData);
        }
        let (head, rest) = input.split_at(1);
        let tag: u8 = head[0];
        assert(rest@ =~= input@.skip(1));
        if tag == 0 {
            let (amount, _rest) = Self::unpack_u64(rest)?;
            assert(rest@.take(8) =~= input@.subrange(1, 9));
            Ok(Instruction::CreateStake { amount })
        } else if tag == 1 {
            Ok(Instruction::EndStake)
        } else if tag == 2 {
            let (amount, rest) = Self::unpack_u64(rest)?;
            let (airdrop, _rest) = Self::unpack_bool(rest)?;
            assert(input@.skip(1).take(8) =~= input@.subrange(1, 9));
            Ok(Instruction::AddToRewardsPool { amount, airdrop })
        } else if tag == 3 {
            let (selection, _rest) = Self::unpack_u8(rest)?;
            Ok(Instruction::Vote { selection })
        } else if tag == 4 {
            let (amount, _rest) = Self::unpack_u64(rest)?;
            assert(rest@.take(8) =~= input@.subrange(1, 9));
            Ok(Instruction::Airdrop { amount })
        } else if tag == 5 {
            let (fee, _rest) = Self::unpack_u64(rest)?;
            assert(rest@.take(8) =~= input@.subrange(1, 9));
            Ok(Instruction::ChangeAirdropFee { fee })
        } else {
            Err(StakingError::InvalidInstructionData)
        }
    }

    /// Takes one byte off the front of `input`.
    fn unpack_u8(input: &[u8]) -> (r: Result<(u8, &[u8]), StakingError>)
        ensures
            match r {
                Ok((value, rest)) => input@.len() >= 1 && value == input@[0] && rest@
                    == input@.skip(1),
                Err(e) => input@.len() == 0 && e == StakingError::InvalidInstructionData,
            },
    {
        if input.len() >= 1 {
            let (uint, rest) = input.split_at(1);
            Ok((uint[0], rest))
        } else {
            Err(StakingError::InvalidInstructionData)
        }
    }

    /// Takes a little-endian `u64` off the front of `input`.
    fn unpack_u64(input: &[u8]) -> (r: Result<(u64, &[u8]), StakingError>)
        ensures
            match r {
                Ok((value, rest)) => input@.len() >= 8 && value == u64_from_le(input@.take(8))
                    && rest@ == input@.skip(8),
                Err(e) => input@.len() < 8 && e == StakingError::InvalidInstructionData,
            },
    {
        if input.len() >= 8 {
            let (uint, rest) = input.split_at(8);
            assert(uint@.subrange(0, 8) =~= input@.take(8));
            Ok((read_u64(uint, 0), rest))
        } else {
            Err(StakingError::InvalidInstructionData)
        }
    }

    /// Takes a flag off the front of `input`: set where the byte is 1.
    fn unpack_bool(input: &[u8]) -> (r: Result<(bool, &[u8]), StakingError>)
        ensures
            match r {
                Ok((value, rest)) => input@.len() >= 1 && value == (input@[0] == 1) && rest@
                    == input@.skip(1),
                Err(e) => input@.len() == 0 && e == StakingError::InvalidInstructionData,
            },
    {
        if input.len() >= 1 {
            let (uint, rest) = input.split_at(1);
            Ok((uint[0] == 1, rest))
        } else {
            Err(StakingError::InvalidInstructionData)
        }
    }
}

} // verus!
