//! Moving tokens. The program moves none itself: it builds the instruction
//! that asks the token program to, and says which accounts go with it and
//! who signs.

use crate::address::Address;
use crate::bytes::u64_to_le;
use crate::error::StakingError;
use crate::vault::{VaultAuthority, TOKEN_PROGRAM_ID};
use solana_program::program_error::ProgramError;
use solana_program::pubkey::Pubkey;
#[allow(deprecated)]
use spl_token::instruction::transfer;
use vstd::prelude::*;

verus! {

/// The error type of solana_program, which the token program's instruction
/// builder returns.
#[verifier::external_type_specification]
#[verifier::external_body]
pub struct ExProgramError(ProgramError);

/// One account of an instruction for another program.
#[derive(Clone, Copy, Debug, PartialEq, Eq)]
pub struct AccountMeta {
    /// The account's address.
    pub pubkey: Address,
    /// Whether the account must sign.
    pub is_signer: bool,
    /// Whether the instruction may change the account.
    pub is_writable: bool,
}

/// What an [`AccountMeta`] holds, in sequences.
pub struct AccountMetaView {
    pub pubkey: Seq<u8>,
    pub is_signer: bool,
    pub is_writable: bool,
}

impl View for AccountMeta {
    type V = AccountMetaView;

    open spec fn view(&self) -> AccountMetaView {
        AccountMetaView {
            pubkey: self.pubkey@,
            is_signer: self.is_signer,
            is_writable: self.is_writable,
        }
    }
}

/// An instruction for another program.
#[derive(Clone, Debug, PartialEq, Eq)]
pub struct CpiInstruction {
    /// The program that is to run it.
    pub program_id: Address,
    /// The accounts that it names.
    pub accounts: Vec<AccountMeta>,
    /// Its data.
    pub data: Vec<u8>,
}

/// What a [`CpiInstruction`] holds, in sequences.
pub struct CpiInstructionView {
    pub program_id: Seq<u8>,
    pub accounts: Seq<AccountMetaView>,
    pub data: Seq<u8>,
}

impl View for CpiInstruction {
    type V = CpiInstructionView;

    open spec fn view(&self) -> CpiInstructionView {
        CpiInstructionView {
            program_id: self.program_id@,
            accounts: self.accounts@.map_values(|meta: AccountMeta| meta@),
            data: self.data@,
        }
    }
}

/// The token program's instruction that moves `amount` base units from
/// `source` to `destination` on the word of `authority`, with `signer` named
/// as the one who signs for it; nothing where `token_program` is not the
/// token program. Source and destination may change and do not sign. The
/// authority, having a signer named after it, does not sign itself; the
/// signer does. The data is the byte 3 and the amount.
pub open spec fn transfer_instruction(
    token_program: Seq<u8>,
    source: Seq<u8>,
    destination: Seq<u8>,
    authority: Seq<u8>,
    signer: Seq<u8>,
    amount: u64,
) -> Option<CpiInstructionView> {
    if token_program == TOKEN_PROGRAM_ID@ {
        Some(
            CpiInstructionView {
                program_id: token_program,
                accounts: seq![
                    AccountMetaView { pubkey: source, is_signer: false, is_writable: true },
                    AccountMetaView { pubkey: destination, is_signer: false, is_writable: true },
                    AccountMetaView { pubkey: authority, is_signer: false, is_writable: false },
                    AccountMetaView { pubkey: signer, is_signer: true, is_writable: false },
                ],
                data: seq![3u8] + u64_to_le(amount),
            },
        )
    } else {
        None
    }
}

/// Calls `spl_token::instruction::transfer` with one signer named after the
/// authority. It refuses any program id but the token program's (with
/// `IncorrectProgramId`, its only error) and else builds the instruction
/// that `transfer_instruction` states.
#[verifier::external_body]
#[allow(deprecated)]
fn build_transfer(
    token_program: &Address,
    source: &Address,
    destination: &Address,
    authority: &Address,
    signer: &Address,
    amount: u64,
) -> (r: Result<CpiInstruction, ProgramError>)
    ensures
        match r {
            Ok(instruction) => transfer_instruction(
                token_program@,
                source@,
                destination@,
                authority@,
                signer@,
                amount,
            ) == Some(instruction@),
            Err(_) => transfer_instruction(
                token_program@,
                source@,
                destination@,
                authority@,
                signer@,
                amount,
            ) is None,
        },
{
    let key = |a: &Address| Pubkey::new_from_array(a.bytes);
    let (program, from, to) = (key(token_program), key(source), key(destination));
    let built = transfer(&program, &from, &to, &key(authority), &[&key(signer)], amount)?;
    let address = |key: &Pubkey| Address { bytes: key.to_bytes() };
    let meta = |m: &solana_program::instruction::AccountMeta| AccountMeta {
        pubkey: address(&m.pubkey),
        is_signer: m.is_signer,
        is_writable: m.is_writable,
    };
    let accounts: Vec<AccountMeta> = built.accounts.iter().map(meta).collect();
    Ok(CpiInstruction { program_id: address(&built.program_id), accounts, data: built.data })
}

/// A movement of tokens that the program asks for: the instruction for the
/// token program, the places (in the list of accounts of the operation) of
/// the accounts that go with it, and who signs.
#[derive(Clone, Debug, PartialEq, Eq)]
pub struct Transfer {
    /// The instruction for the token program.
    pub instruction: CpiInstruction,
    /// Places of the source, the destination, the authority and the token
    /// program in the list of accounts of the operation.
    pub accounts: [usize; 4],
    /// Nothing where the authority signed the request itself; where the
    /// program signs for the vault's authority, the bump seed to sign with.
    pub bump_seed: Option<u8>,
}

/// What a [`Transfer`] holds, in sequences.
pub struct TransferView {
    pub instruction: CpiInstructionView,
    pub accounts: Seq<usize>,
    pub bump_seed: Option<u8>,
}

impl View for Transfer {
    type V = TransferView;

    open spec fn view(&self) -> TransferView {
        TransferView {
            instruction: self.instruction@,
            accounts: self.accounts@,
            bump_seed: self.bump_seed,
        }
    }
}

/// The transfer of `amount` from `source` to `destination` on the word of
/// `authority`, who is named once more as the signer; nothing where
/// `token_program` is not the token program.
pub open spec fn transfer_request(
    token_program: Seq<u8>,
    source: Seq<u8>,
    destination: Seq<u8>,
    authority: Seq<u8>,
    amount: u64,
    accounts: Seq<usize>,
    bump_seed: Option<u8>,
) -> Option<TransferView> {
    match transfer_instruction(
        token_program,
        source,
        destination,
        authority,
        authority,
        amount,
    ) {
        Some(instruction) => Some(TransferView { instruction, accounts, bump_seed }),
        None => None,
    }
}

impl Transfer {
    /// A transfer that `authority` signed for with the request.
    pub fn signed_by_owner(
        token_program: &Address,
        source: &Address,
        destination: &Address,
        authority: &Address,
        amount: u64,
        accounts: [usize; 4],
    ) -> (r: Result<Transfer, StakingError>)
        ensures
            match transfer_request(
                token_program@,
                source@,
                destination@,
                authority@,
                amount,
                accounts@,
                None,
            ) {
                Some(transfer) => r is Ok && r->Ok_0@ == transfer,
                None => r == Err::<Transfer, StakingError>(StakingError::IncorrectProgramId),
            },
    {
        Self::build(token_program, source, destination, authority, amount, accounts, None)
    }

    /// A transfer out of the vault, for which the program signs with the
    /// vault's bump seed. Only who controls the vault can ask for one.
    pub fn signed_by_vault(
        vault: &VaultAuthority,
        token_program: &Address,
        source: &Address,
        destination: &Address,
        authority: &Address,
        amount: u64,
        accounts: [usize; 4],
    ) -> (r: Result<Transfer, StakingError>)
        ensures
            match transfer_request(
                token_program@,
                source@,
                destination@,
                authority@,
                amount,
                accounts@,
                Some(vault@.bump_seed),
            ) {
                Some(transfer) => r is Ok && r->Ok_0@ == transfer,
                None => r == Err::<Transfer, StakingError>(StakingError::IncorrectProgramId),
            },
    {
        let bump_seed: u8 = vault.bump_seed();
        Self::build(
            token_program,
            source,
            destination,
            authority,
            amount,
            accounts,
            Some(bump_seed),
        )
    }

    fn build(
        token_program: &Address,
        source: &Address,
        destination: &Address,
        authority: &Address,
        amount: u64,
        accounts: [usize; 4],
        bump_seed: Option<u8>,
    ) -> (r: Result<Transfer, StakingError>)
        ensures
            match transfer_request(
                token_program@,
                source@,
                destination@,
                authority@,
                amount,
                accounts@,
                bump_seed,
            ) {
                Some(transfer) => r is Ok && r->Ok_0@ == transfer,
                None => r == Err::<Transfer, StakingError>(StakingError::IncorrectProgramId),
            },
    {
        match build_transfer(token_program, source, destination, authority, authority, amount) {
            Ok(instruction) => Ok(Transfer { instruction, accounts, bump_seed }),
            Err(_) => Err(StakingError::IncorrectProgramId),
        }
    }
}

} // verus!
