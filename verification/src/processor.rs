//! The operations of the program, each in two steps. The first step checks
//! the request against the accounts and, where all is in order, says which
//! tokens are to move. The caller has the token program move them, and only
//! then takes the second step, which writes the records. A request that is
//! refused in the first step has changed nothing.

use crate::account::{Accounts, AccountsView};
use crate::address::Address;
use crate::config::{Config, ConfigView, BASE_COIN, VOTING_FEE};
use crate::error::StakingError;
use crate::instruction::Instruction;
use crate::rules::Settlement;
use crate::state::{
    Ballot, BallotView, RewardsPool, Stake, StakeView, BALLOT_LEN, REWARDS_POOL_LEN, STAKE_LEN,
};
use crate::token::{transfer_request, Transfer, TransferView};
use crate::vault::{is_vault, vault_binding, vault_of};
use vstd::prelude::*;

verus! {

/// What is left to do once the tokens of an operation have moved.
#[derive(Clone, Copy, Debug, PartialEq, Eq)]
pub enum Pending {
    /// Write the stake that was started and count it in the pool.
    CreateStake { stake: Stake },
    /// Write the pool as settled, end the stake and hand the balance of its
    /// account to the owner.
    EndStake { rewards: RewardsPool, stake: Stake },
    /// Add the deposit to the pool.
    AddToRewardsPool { rewards: RewardsPool, amount: u64, airdrop: bool },
    /// Count the vote and add its fee to the rewards.
    Vote { ballot: Ballot, rewards: RewardsPool, selection: u8 },
    /// Move the airdrop fee and take the airdrop from the supply.
    Airdrop { rewards: RewardsPool, amount: u64 },
}

/// What a [`Pending`] holds, in sequences.
pub enum PendingView {
    CreateStake { stake: StakeView },
    EndStake { rewards: RewardsPool, stake: StakeView },
    AddToRewardsPool { rewards: RewardsPool, amount: u64, airdrop: bool },
    Vote { ballot: BallotView, rewards: RewardsPool, selection: u8 },
    Airdrop { rewards: RewardsPool, amount: u64 },
}

impl PendingView {
    /// The records that are pending are records: an owner is an address, a
    /// ballot has five tallies.
    pub open spec fn wf(self) -> bool {
        match self {
            PendingView::CreateStake { stake } => stake.wf(),
            PendingView::EndStake { stake, .. } => stake.wf(),
            PendingView::Vote { ballot, .. } => ballot.wf(),
            _ => true,
        }
    }
}

impl View for Pending {
    type V = PendingView;

    open spec fn view(&self) -> PendingView {
        match *self {
            Pending::CreateStake { stake } => PendingView::CreateStake { stake: stake@ },
            Pending::EndStake { rewards, stake } => PendingView::EndStake {
                rewards,
                stake: stake@,
            },
            Pending::AddToRewardsPool { rewards, amount, airdrop } => {
                PendingView::AddToRewardsPool { rewards, amount, airdrop }
            },
            Pending::Vote { ballot, rewards, selection } => PendingView::Vote {
                ballot: ballot@,
                rewards,
                selection,
            },
            Pending::Airdrop { rewards, amount } => PendingView::Airdrop { rewards, amount },
        }
    }
}

/// How the first step of an operation ends where the request is in order.
#[derive(Clone, Debug, PartialEq, Eq)]
pub enum Step {
    /// The operation is done; what it changed is in the accounts.
    Done,
    /// Tokens are to move. Once they have, `pending` is to be resumed.
    Transfer { transfer: Transfer, pending: Pending },
}

/// What a [`Step`] holds, in sequences.
pub enum StepView {
    Done,
    Transfer { transfer: TransferView, pending: PendingView },
}

impl View for Step {
    type V = StepView;

    open spec fn view(&self) -> StepView {
        match *self {
            Step::Done => StepView::Done,
            Step::Transfer { transfer, pending } => StepView::Transfer {
                transfer: transfer@,
                pending: pending@,
            },
        }
    }
}

/// Whether the first step ended as `expected` says.
pub open spec fn step_is(
    r: Result<Step, StakingError>,
    expected: Result<StepView, StakingError>,
) -> bool {
    match expected {
        Ok(step) => r is Ok && r->Ok_0@ == step,
        Err(e) => r == Err::<Step, StakingError>(e),
    }
}

/// How the second step of an operation ends: the accounts as it leaves
/// them, and whether it went through.
pub struct Completion {
    pub accounts: AccountsView,
    pub result: Result<(), StakingError>,
}

/// The operation went through and left `accounts`.
pub open spec fn completed(accounts: AccountsView) -> Completion {
    Completion { accounts, result: Ok(()) }
}

/// The operation stopped on `error` and left `accounts`.
pub open spec fn stopped(accounts: AccountsView, error: StakingError) -> Completion {
    Completion { accounts, result: Err(error) }
}

/// How the first step of an operation ends: the accounts as it leaves them,
/// and the step to take next or the reason why the request was refused.
pub struct Outcome {
    pub accounts: AccountsView,
    pub result: Result<StepView, StakingError>,
}

/// The first step of `instruction`. Only a change of the airdrop fee writes
/// in its first step, which is its last; every other operation leaves the
/// accounts as they are until its tokens have moved.
pub open spec fn first_step(
    program_id: Seq<u8>,
    accounts: AccountsView,
    instruction: Instruction,
    now: i64,
    config: ConfigView,
) -> Outcome {
    match instruction {
        Instruction::CreateStake { amount } => Outcome {
            accounts,
            result: create_stake_step(program_id, accounts, amount, now, config),
        },
        Instruction::EndStake => Outcome {
            accounts,
            result: end_stake_step(program_id, accounts, now, config),
        },
        Instruction::AddToRewardsPool { amount, airdrop } => Outcome {
            accounts,
            result: add_to_rewards_pool_step(program_id, accounts, amount, airdrop, config),
        },
        Instruction::Vote { selection } => Outcome {
            accounts,
            result: vote_step(program_id, accounts, selection, config),
        },
        Instruction::Airdrop { amount } => Outcome {
            accounts,
            result: airdrop_step(program_id, accounts, amount, config),
        },
        Instruction::ChangeAirdropFee { fee } => {
            let completion = change_airdrop_fee_completion(program_id, accounts, fee, config);
            Outcome {
                accounts: completion.accounts,
                result: match completion.result {
                    Ok(_) => Ok(StepView::Done),
                    Err(e) => Err(e),
                },
            }
        },
    }
}

/// The first step of the request that `instruction_data` holds; a request
/// that cannot be read is refused.
pub open spec fn request_outcome(
    program_id: Seq<u8>,
    accounts: AccountsView,
    instruction_data: Seq<u8>,
    now: i64,
    config: ConfigView,
) -> Outcome {
    match Instruction::parse(instruction_data) {
        Some(instruction) => first_step(program_id, accounts, instruction, now, config),
        None => Outcome { accounts, result: Err(StakingError::InvalidInstructionData) },
    }
}

/// The second step of the operation that left `pending`.
pub open spec fn second_step(accounts: AccountsView, pending: PendingView) -> Completion {
    match pending {
        PendingView::CreateStake { stake } => create_stake_completion(accounts, stake),
        PendingView::EndStake { rewards, stake } => end_stake_completion(accounts, rewards, stake),
        PendingView::AddToRewardsPool { rewards, amount, airdrop } => {
            add_to_rewards_pool_completion(accounts, rewards, amount, airdrop)
        },
        PendingView::Vote { ballot, rewards, selection } => vote_completion(
            accounts,
            ballot,
            rewards,
            selection,
        ),
        PendingView::Airdrop { rewards, amount } => airdrop_completion(accounts, rewards, amount),
    }
}

/// Takes the first step of the request in `instruction_data`, made to the
/// program `program_id` at the time `now` with `accounts`.
///
/// Where the result is a transfer, the caller has the token program carry it
/// out and then calls [`finish_instruction`] with what is pending; where the
/// transfer fails, the operation has failed and nothing was written.
pub fn process_instruction(
    program_id: &Address,
    accounts: &mut Accounts,
    instruction_data: &[u8],
    now: i64,
    config: &Config,
) -> (r: Result<Step, StakingError>)
    ensures
        step_is(
            r,
            request_outcome(program_id@, old(accounts)@, instruction_data@, now, config@).result,
        ),
        final(accounts)@ == request_outcome(
            program_id@,
            old(accounts)@,
            instruction_data@,
            now,
            config@,
        ).accounts,
{
    let instruction = Instruction::unpack(instruction_data)?;
    match instruction {
        Instruction::CreateStake { amount } => {
            process_create_stake(program_id, accounts, amount, now, config)
        },
        Instruction::EndStake => process_end_stake(program_id, accounts, now, config),
        Instruction::AddToRewardsPool { amount, airdrop } => {
            process_add_to_rewards_pool(program_id, accounts, amount, airdrop, config)
        },
        Instruction::Vote { selection } => process_vote(program_id, accounts, selection, config),
        Instruction::Airdrop { amount } => process_airdrop(program_id, accounts, amount, config),
        Instruction::ChangeAirdropFee { fee } => {
            match process_change_airdrop_fee(program_id, accounts, fee, config) {
                Ok(_) => Ok(Step::Done),
                Err(e) => Err(e),
            }
        },
    }
}

/// Takes the second step of an operation, once its tokens have moved, on
/// the accounts as they are then.
pub fn finish_instruction(accounts: &mut Accounts, pending: Pending) -> (r: Result<
    (),
    StakingError,
>)
    ensures
        (Completion { accounts: final(accounts)@, result: r }) == second_step(
            old(accounts)@,
            pending@,
        ),
{
    match pending {
        Pending::CreateStake { stake } => finish_create_stake(accounts, stake),
        Pending::EndStake { rewards, stake } => finish_end_stake(accounts, rewards, stake),
        Pending::AddToRewardsPool { rewards, amount, airdrop } => {
            finish_add_to_rewards_pool(accounts, rewards, amount, airdrop)
        },
        Pending::Vote { ballot, rewards, selection } => finish_vote(
            accounts,
            ballot,
            rewards,
            selection,
        ),
        Pending::Airdrop { rewards, amount } => finish_airdrop(accounts, rewards, amount),
    }
}

/// The first step of starting a stake. The accounts are, in this order: the
/// owner, the owner's token account, the stake, the vault, the token
/// program, the rewards pool.
///
/// The amount must be a whole token at least; the stake record must be free;
/// the vault must be this program's; the pool must be open. The tokens then
/// go from the owner's token account to the vault, on the owner's signature.
pub open spec fn create_stake_step(
    program_id: Seq<u8>,
    accounts: AccountsView,
    amount: u64,
    now: i64,
    config: ConfigView,
) -> Result<StepView, StakingError> {
    let stake = StakeView::decode(accounts.at(2).data);
    let rewards = RewardsPool::decode(accounts.at(5).data);
    let transfer = transfer_request(
        accounts.at(4).key,
        accounts.at(1).key,
        accounts.at(3).key,
        accounts.at(0).key,
        amount,
        seq![1usize, 3usize, 0usize, 4usize],
        None,
    );
    if accounts.len() < 6 {
        Err(StakingError::NotEnoughAccountKeys)
    } else if amount < BASE_COIN {
        Err(StakingError::InvalidInstructionData)
    } else if stake is None {
        Err(StakingError::BorshIoError)
    } else if stake.unwrap().is_initialized {
        Err(StakingError::AccountAlreadyInitialized)
    } else if !is_vault(program_id, config.mint, accounts.at(3).key) {
        Err(StakingError::InvalidAccountData)
    } else if rewards is None {
        Err(StakingError::BorshIoError)
    } else if !rewards.unwrap().is_initialized {
        Err(StakingError::UninitializedAccount)
    } else if transfer is None {
        Err(StakingError::IncorrectProgramId)
    } else {
        Ok(
            StepView::Transfer {
                transfer: transfer.unwrap(),
                pending: PendingView::CreateStake {
                    stake: StakeView::started(accounts.at(0).key, amount, now),
                },
            },
        )
    }
}

/// The second step of starting a stake: the pool is read as it is once the
/// tokens have moved; it must be open still and counts the stake, and both
/// records are written.
pub open spec fn create_stake_completion(accounts: AccountsView, stake: StakeView) -> Completion {
    let rewards = RewardsPool::decode(accounts.at(5).data);
    let counted = rewards.unwrap().with_stake(stake.amount);
    if accounts.len() < 6 {
        stopped(accounts, StakingError::NotEnoughAccountKeys)
    } else if rewards is None {
        stopped(accounts, StakingError::BorshIoError)
    } else if !rewards.unwrap().is_initialized {
        stopped(accounts, StakingError::UninitializedAccount)
    } else if counted is None {
        stopped(accounts, StakingError::InsufficientFunds)
    } else if accounts.at(2).data.len() < STAKE_LEN {
        stopped(accounts, StakingError::BorshIoError)
    } else {
        completed(
            accounts.with_record(5, counted.unwrap().encode()).with_record(2, stake.encode()),
        )
    }
}

/// Starts a stake, first step: checks the request. Nothing is written yet.
pub fn process_create_stake(
    program_id: &Address,
    accounts: &Accounts,
    amount: u64,
    now: i64,
    config: &Config,
) -> (r: Result<Step, StakingError>)
    ensures
        step_is(r, create_stake_step(program_id@, accounts@, amount, now, config@)),
{
    if accounts.len() < 6 {
        return Err(StakingError::NotEnoughAccountKeys);
    }
    let owner_account = accounts.get(0);
    let owner_token_account = accounts.get(1);
    let stake_account = accounts.get(2);
    let pda_token_account = accounts.get(3);
    let token_program = accounts.get(4);
    let rewards_account = accounts.get(5);

    if amount < BASE_COIN {
        return Err(StakingError::InvalidInstructionData);
    }
    let stake_info = Stake::try_from_slice(stake_account.data.as_slice())?;
    if stake_info.is_initialized {
        return Err(StakingError::AccountAlreadyInitialized);
    }
    let stake_info: Stake = Stake::start(owner_account.key, amount, now);
    if vault_of(program_id, &config.mint, &pda_token_account.key).is_none() {
        return Err(StakingError::InvalidAccountData);
    }
    let rewards_info = RewardsPool::try_from_slice(rewards_account.data.as_slice())?;
    if !rewards_info.is_initialized {
        return Err(StakingError::UninitializedAccount);
    }
    let transfer = Transfer::signed_by_owner(
        &token_program.key,
        &owner_token_account.key,
        &pda_token_account.key,
        &owner_account.key,
        amount,
        [1, 3, 0, 4],
    )?;
    Ok(Step::Transfer { transfer, pending: Pending::CreateStake { stake: stake_info } })
}

/// Starts a stake, second step, once the tokens are in the vault.
pub fn finish_create_stake(accounts: &mut Accounts, stake: Stake) -> (r: Result<(), StakingError>)
    ensures
        (Completion { accounts: final(accounts)@, result: r }) == create_stake_completion(
            old(accounts)@,
            stake@,
        ),
{
    if accounts.len() < 6 {
        return Err(StakingError::NotEnoughAccountKeys);
    }
    let rewards_info = RewardsPool::try_from_slice(accounts.get(5).data.as_slice())?;
    if !rewards_info.is_initialized {
        return Err(StakingError::UninitializedAccount);
    }
    let rewards_info: RewardsPool = rewards_info.add_stake(stake.amount)?;
    if accounts.get(2).data.len() < STAKE_LEN {
        return Err(StakingError::BorshIoError);
    }
    let rewards_bytes: Vec<u8> = rewards_info.to_bytes();
    let stake_bytes: Vec<u8> = stake.to_bytes();
    let _ = accounts.write_record(5, &rewards_bytes);
    let _ = accounts.write_record(2, &stake_bytes);
    Ok(())
}

/// The first step of ending a stake. The accounts are, in this order: the
/// owner, the owner's token account, the stake, the vault's authority, the
/// vault, the token program, the rewards pool.
///
/// The pool must be open and this program's; the stake must be open, and its
/// owner must be the first account and have signed; the vault must be this
/// program's; the stake must not have started after `now`. The payout then
/// goes from the vault to the owner's token account, signed for by the
/// program.
pub open spec fn end_stake_step(
    program_id: Seq<u8>,
    accounts: AccountsView,
    now: i64,
    config: ConfigView,
) -> Result<StepView, StakingError> {
    let rewards = RewardsPool::decode(accounts.at(6).data);
    let stake = StakeView::decode(accounts.at(2).data);
    let vault = vault_binding(program_id, config.mint);
    let settlement = rewards.unwrap().settled(
        stake.unwrap().amount,
        stake.unwrap().time_started,
        now,
    );
    let transfer = transfer_request(
        accounts.at(5).key,
        accounts.at(4).key,
        accounts.at(1).key,
        accounts.at(3).key,
        settlement->Ok_0.payout,
        seq![4usize, 1usize, 3usize, 5usize],
        Some(vault.unwrap().bump_seed),
    );
    if accounts.len() < 7 {
        Err(StakingError::NotEnoughAccountKeys)
    } else if rewards is None {
        Err(StakingError::BorshIoError)
    } else if !rewards.unwrap().is_initialized {
        Err(StakingError::UninitializedAccount)
    } else if accounts.at(6).owner != program_id {
        Err(StakingError::IllegalOwner)
    } else if stake is None {
        Err(StakingError::BorshIoError)
    } else if !stake.unwrap().is_initialized {
        Err(StakingError::UninitializedAccount)
    } else if !accounts.at(0).is_signer {
        Err(StakingError::MissingRequiredSignature)
    } else if stake.unwrap().owner != accounts.at(0).key {
        Err(StakingError::IllegalOwner)
    } else if !is_vault(program_id, config.mint, accounts.at(4).key) {
        Err(StakingError::InvalidAccountData)
    } else if settlement is Err {
        Err(settlement->Err_0)
    } else if transfer is None {
        Err(StakingError::IncorrectProgramId)
    } else {
        Ok(
            StepView::Transfer {
                transfer: transfer.unwrap(),
                pending: PendingView::EndStake {
                    rewards: settlement->Ok_0.pool,
                    stake: stake.unwrap(),
                },
            },
        )
    }
}

/// The second step of ending a stake: the owner's account takes the balance
/// of the stake's account, which is left with none; the pool is written as
/// settled, and the stake as ended.
pub open spec fn end_stake_completion(
    accounts: AccountsView,
    rewards: RewardsPool,
    stake: StakeView,
) -> Completion {
    if accounts.len() < 7 {
        stopped(accounts, StakingError::NotEnoughAccountKeys)
    } else if accounts.at(0).lamports + accounts.at(2).lamports > u64::MAX {
        stopped(accounts, StakingError::InsufficientFunds)
    } else if accounts.at(6).data.len() < REWARDS_POOL_LEN || accounts.at(2).data.len()
        < STAKE_LEN {
        stopped(accounts, StakingError::BorshIoError)
    } else {
        completed(
            accounts.with_lamports(
                0,
                (accounts.at(0).lamports + accounts.at(2).lamports) as u64,
            ).with_lamports(2, 0).with_record(6, rewards.encode()).with_record(
                2,
                stake.ended().encode(),
            ),
        )
    }
}

/// Ends a stake, first step: checks the request and settles the stake
/// against the pool. Nothing is written yet.
pub fn process_end_stake(
    program_id: &Address,
    accounts: &Accounts,
    now: i64,
    config: &Config,
) -> (r: Result<Step, StakingError>)
    ensures
        step_is(r, end_stake_step(program_id@, accounts@, now, config@)),
{
    if accounts.len() < 7 {
        return Err(StakingError::NotEnoughAccountKeys);
    }
    let owner_account = accounts.get(0);
    let owner_token_account = accounts.get(1);
    let stake_account = accounts.get(2);
    let pda_account = accounts.get(3);
    let pda_token_account = accounts.get(4);
    let token_program = accounts.get(5);
    let rewards_account = accounts.get(6);

    let rewards_info = RewardsPool::try_from_slice(rewards_account.data.as_slice())?;
    if !rewards_info.is_initialized {
        return Err(StakingError::UninitializedAccount);
    }
    if !rewards_account.owner.same(program_id) {
        return Err(StakingError::IllegalOwner);
    }
    let stake_info = Stake::try_from_slice(stake_account.data.as_slice())?;
    if !stake_info.is_initialized {
        return Err(StakingError::UninitializedAccount);
    }
    if !owner_account.is_signer {
        return Err(StakingError::MissingRequiredSignature);
    }
    if !stake_info.owner.same(&owner_account.key) {
        return Err(StakingError::IllegalOwner);
    }
    let vault = match vault_of(program_id, &config.mint, &pda_token_account.key) {
        Some(vault) => vault,
        None => {
            return Err(StakingError::InvalidAccountData);
        },
    };
    let settlement: Settlement = rewards_info.settle(
        stake_info.amount,
        stake_info.time_started,
        now,
    )?;
    let transfer = Transfer::signed_by_vault(
        &vault,
        &token_program.key,
        &pda_token_account.key,
        &owner_token_account.key,
        &pda_account.key,
        settlement.payout,
        [4, 1, 3, 5],
    )?;
    Ok(
        Step::Transfer {
            transfer,
            pending: Pending::EndStake { rewards: settlement.pool, stake: stake_info },
        },
    )
}

/// Ends a stake, second step, once the payout has moved.
pub fn finish_end_stake(accounts: &mut Accounts, rewards: RewardsPool, stake: Stake) -> (r: Result<
    (),
    StakingError,
>)
    ensures
        (Completion { accounts: final(accounts)@, result: r }) == end_stake_completion(
            old(accounts)@,
            rewards,
            stake@,
        ),
{
    if accounts.len() < 7 {
        return Err(StakingError::NotEnoughAccountKeys);
    }
    let reclaimed: u64 = match accounts.get(0).lamports.checked_add(accounts.get(2).lamports) {
        Some(sum) => sum,
        None => {
            return Err(StakingError::InsufficientFunds);
        },
    };
    if accounts.get(6).data.len() < REWARDS_POOL_LEN || accounts.get(2).data.len() < STAKE_LEN {
        return Err(StakingError::BorshIoError);
    }
    accounts.set_lamports(0, reclaimed);
    accounts.set_lamports(2, 0);
    let closed: Stake = stake.end();
    let rewards_bytes: Vec<u8> = rewards.to_bytes();
    let stake_bytes: Vec<u8> = closed.to_bytes();
    let _ = accounts.write_record(6, &rewards_bytes);
    let _ = accounts.write_record(2, &stake_bytes);
    Ok(())
}

/// The first step of a deposit into the pool. The accounts are, in this
/// order: the donor, the donor's token account, the vault, the token
/// program, the rewards pool.
///
/// The donor must have signed. A pool that is not open yet is opened, which
/// only the administrator may do. The vault must be this program's. The
/// tokens then go from the donor's token account to the vault, on the
/// donor's signature.
pub open spec fn add_to_rewards_pool_step(
    program_id: Seq<u8>,
    accounts: AccountsView,
    amount: u64,
    airdrop: bool,
    config: ConfigView,
) -> Result<StepView, StakingError> {
    let rewards = RewardsPool::decode(accounts.at(4).data);
    let transfer = transfer_request(
        accounts.at(3).key,
        accounts.at(1).key,
        accounts.at(2).key,
        accounts.at(0).key,
        amount,
        seq![1usize, 2usize, 0usize, 3usize],
        None,
    );
    if accounts.len() < 5 {
        Err(StakingError::NotEnoughAccountKeys)
    } else if rewards is None {
        Err(StakingError::BorshIoError)
    } else if !accounts.at(0).is_signer {
        Err(StakingError::MissingRequiredSignature)
    } else if !rewards.unwrap().is_initialized && accounts.at(0).key != config.admin {
        Err(StakingError::InvalidInstructionData)
    } else if !is_vault(program_id, config.mint, accounts.at(2).key) {
        Err(StakingError::InvalidAccountData)
    } else if transfer is None {
        Err(StakingError::IncorrectProgramId)
    } else {
        Ok(
            StepView::Transfer {
                transfer: transfer.unwrap(),
                pending: PendingView::AddToRewardsPool {
                    rewards: if rewards.unwrap().is_initialized {
                        rewards.unwrap()
                    } else {
                        rewards.unwrap().bootstrapped()
                    },
                    amount,
                    airdrop,
                },
            },
        )
    }
}

/// The second step of a deposit: the pool takes the amount and is written.
pub open spec fn add_to_rewards_pool_completion(
    accounts: AccountsView,
    rewards: RewardsPool,
    amount: u64,
    airdrop: bool,
) -> Completion {
    let funded = rewards.with_deposit(amount, airdrop);
    if accounts.len() < 5 {
        stopped(accounts, StakingError::NotEnoughAccountKeys)
    } else if funded is None {
        stopped(accounts, StakingError::InsufficientFunds)
    } else if accounts.at(4).data.len() < REWARDS_POOL_LEN {
        stopped(accounts, StakingError::BorshIoError)
    } else {
        completed(accounts.with_record(4, funded.unwrap().encode()))
    }
}

/// Gives tokens to the pool, first step: checks the request. Nothing is
/// written yet.
pub fn process_add_to_rewards_pool(
    program_id: &Address,
    accounts: &Accounts,
    amount: u64,
    airdrop: bool,
    config: &Config,
) -> (r: Result<Step, StakingError>)
    ensures
        step_is(r, add_to_rewards_pool_step(program_id@, accounts@, amount, airdrop, config@)),
{
    if accounts.len() < 5 {
        return Err(StakingError::NotEnoughAccountKeys);
    }
    let admin_account = accounts.get(0);
    let admin_token_account = accounts.get(1);
    let pda_token_account = accounts.get(2);
    let token_program = accounts.get(3);
    let rewards_account = accounts.get(4);

    let mut rewards_info = RewardsPool::try_from_slice(rewards_account.data.as_slice())?;
    if !admin_account.is_signer {
        return Err(StakingError::MissingRequiredSignature);
    }
    if !rewards_info.is_initialized {
        if !admin_account.key.same(&config.admin) {
            return Err(StakingError::InvalidInstructionData);
        } else {
            rewards_info = rewards_info.bootstrap();
        }
    }
    if vault_of(program_id, &config.mint, &pda_token_account.key).is_none() {
        return Err(StakingError::InvalidAccountData);
    }
    let transfer = Transfer::signed_by_owner(
        &token_program.key,
        &admin_token_account.key,
        &pda_token_account.key,
        &admin_account.key,
        amount,
        [1, 2, 0, 3],
    )?;
    Ok(
        Step::Transfer {
            transfer,
            pending: Pending::AddToRewardsPool { rewards: rewards_info, amount, airdrop },
        },
    )
}

/// Gives tokens to the pool, second step, once they are in the vault.
pub fn finish_add_to_rewards_pool(
    accounts: &mut Accounts,
    rewards: RewardsPool,
    amount: u64,
    airdrop: bool,
) -> (r: Result<(), StakingError>)
    ensures
        (Completion { accounts: final(accounts)@, result: r }) == add_to_rewards_pool_completion(
            old(accounts)@,
            rewards,
            amount,
            airdrop,
        ),
{
    if accounts.len() < 5 {
        return Err(StakingError::NotEnoughAccountKeys);
    }
    let rewards_info: RewardsPool = rewards.deposit(amount, airdrop)?;
    let bytes: Vec<u8> = rewards_info.to_bytes();
    accounts.write_record(4, &bytes)?;
    Ok(())
}

/// The first step of a vote. The accounts are, in this order: the voter, the
/// voter's token account, the ballot, the vault, the token program, the
/// rewards pool.
///
/// A ballot that is not open yet is opened, which only the administrator may
/// do, and only by signing. The pool must be open and the vault this
/// program's. The voting fee then goes from the voter's token account to the
/// vault, on the voter's signature. The selection is not looked at in this
/// step.
pub open spec fn vote_step(
    program_id: Seq<u8>,
    accounts: AccountsView,
    selection: u8,
    config: ConfigView,
) -> Result<StepView, StakingError> {
    let ballot = BallotView::decode(accounts.at(2).data);
    let rewards = RewardsPool::decode(accounts.at(5).data);
    let transfer = transfer_request(
        accounts.at(4).key,
        accounts.at(1).key,
        accounts.at(3).key,
        accounts.at(0).key,
        VOTING_FEE,
        seq![1usize, 3usize, 0usize, 4usize],
        None,
    );
    if accounts.len() < 6 {
        Err(StakingError::NotEnoughAccountKeys)
    } else if ballot is None {
        Err(StakingError::BorshIoError)
    } else if !ballot.unwrap().is_initialized && !(accounts.at(0).key == config.admin
        && accounts.at(0).is_signer) {
        Err(StakingError::UninitializedAccount)
    } else if rewards is None {
        Err(StakingError::BorshIoError)
    } else if !rewards.unwrap().is_initialized {
        Err(StakingError::UninitializedAccount)
    } else if !is_vault(program_id, config.mint, accounts.at(3).key) {
        Err(StakingError::InvalidAccountData)
    } else if transfer is None {
        Err(StakingError::IncorrectProgramId)
    } else {
        Ok(
            StepView::Transfer {
                transfer: transfer.unwrap(),
                pending: PendingView::Vote {
                    ballot: ballot.unwrap().bootstrapped(),
                    rewards: rewards.unwrap(),
                    selection,
                },
            },
        )
    }
}

/// The second step of a vote: the selection must be one of the five
/// options; its tally goes up by one, the fee is added to the rewards, and
/// both records are written.
pub open spec fn vote_completion(
    accounts: AccountsView,
    ballot: BallotView,
    rewards: RewardsPool,
    selection: u8,
) -> Completion {
    let counted = ballot.with_vote(selection);
    let funded = rewards.with_deposit(VOTING_FEE, false);
    if accounts.len() < 6 {
        stopped(accounts, StakingError::NotEnoughAccountKeys)
    } else if counted is Err {
        stopped(accounts, counted->Err_0)
    } else if funded is None {
        stopped(accounts, StakingError::InsufficientFunds)
    } else if accounts.at(2).data.len() < BALLOT_LEN || accounts.at(5).data.len()
        < REWARDS_POOL_LEN {
        stopped(accounts, StakingError::BorshIoError)
    } else {
        completed(
            accounts.with_record(2, counted->Ok_0.encode()).with_record(
                5,
                funded.unwrap().encode(),
            ),
        )
    }
}

/// Votes, first step: checks the request. Nothing is written yet.
pub fn process_vote(
    program_id: &Address,
    accounts: &Accounts,
    selection: u8,
    config: &Config,
) -> (r: Result<Step, StakingError>)
    ensures
        step_is(r, vote_step(program_id@, accounts@, selection, config@)),
{
    if accounts.len() < 6 {
        return Err(StakingError::NotEnoughAccountKeys);
    }
    let owner_account = accounts.get(0);
    let owner_token_account = accounts.get(1);
    let ballot_account = accounts.get(2);
    let pda_token_account = accounts.get(3);
    let token_program = accounts.get(4);
    let rewards_account = accounts.get(5);

    let mut ballot_info = Ballot::try_from_slice(ballot_account.data.as_slice())?;
    if !ballot_info.is_initialized {
        if owner_account.key.same(&config.admin) && owner_account.is_signer {
            ballot_info = ballot_info.bootstrap();
        } else {
            return Err(StakingError::UninitializedAccount);
        }
    }
    let rewards_info = RewardsPool::try_from_slice(rewards_account.data.as_slice())?;
    if !rewards_info.is_initialized {
        return Err(StakingError::UninitializedAccount);
    }
    if vault_of(program_id, &config.mint, &pda_token_account.key).is_none() {
        return Err(StakingError::InvalidAccountData);
    }
    let transfer = Transfer::signed_by_owner(
        &token_program.key,
        &owner_token_account.key,
        &pda_token_account.key,
        &owner_account.key,
        VOTING_FEE,
        [1, 3, 0, 4],
    )?;
    Ok(
        Step::Transfer {
            transfer,
            pending: Pending::Vote { ballot: ballot_info, rewards: rewards_info, selection },
        },
    )
}

/// Votes, second step, once the fee is in the vault.
pub fn finish_vote(
    accounts: &mut Accounts,
    ballot: Ballot,
    rewards: RewardsPool,
    selection: u8,
) -> (r: Result<(), StakingError>)
    ensures
        (Completion { accounts: final(accounts)@, result: r }) == vote_completion(
            old(accounts)@,
            ballot@,
            rewards,
            selection,
        ),
{
    if accounts.len() < 6 {
        return Err(StakingError::NotEnoughAccountKeys);
    }
    let ballot_info: Ballot = ballot.vote(selection)?;
    let rewards_info: RewardsPool = rewards.deposit(VOTING_FEE, false)?;
    if accounts.get(2).data.len() < BALLOT_LEN || accounts.get(5).data.len() < REWARDS_POOL_LEN {
        return Err(StakingError::BorshIoError);
    }
    let ballot_bytes: Vec<u8> = ballot_info.to_bytes();
    let rewards_bytes: Vec<u8> = rewards_info.to_bytes();
    let _ = accounts.write_record(2, &ballot_bytes);
    let _ = accounts.write_record(5, &rewards_bytes);
    Ok(())
}

/// The first step of an airdrop. The accounts are, in this order: the
/// recipient, the recipient's token account, the vault's authority, the
/// vault, the token program, the rewards pool, the treasury.
///
/// The treasury must be the administrator's account; the pool must be open
/// and this program's; the vault must be this program's. The tokens then go
/// from the vault to the recipient's token account, signed for by the
/// program. Neither the cap nor the supply is looked at in this step.
pub open spec fn airdrop_step(
    program_id: Seq<u8>,
    accounts: AccountsView,
    amount: u64,
    config: ConfigView,
) -> Result<StepView, StakingError> {
    let rewards = RewardsPool::decode(accounts.at(5).data);
    let vault = vault_binding(program_id, config.mint);
    let transfer = transfer_request(
        accounts.at(4).key,
        accounts.at(3).key,
        accounts.at(1).key,
        accounts.at(2).key,
        amount,
        seq![3usize, 1usize, 2usize, 4usize],
        Some(vault.unwrap().bump_seed),
    );
    if accounts.len() < 7 {
        Err(StakingError::NotEnoughAccountKeys)
    } else if accounts.at(6).key != config.admin {
        Err(StakingError::InvalidInstructionData)
    } else if rewards is None {
        Err(StakingError::BorshIoError)
    } else if !rewards.unwrap().is_initialized {
        Err(StakingError::UninitializedAccount)
    } else if accounts.at(5).owner != program_id {
        Err(StakingError::IllegalOwner)
    } else if !is_vault(program_id, config.mint, accounts.at(3).key) {
        Err(StakingError::InvalidAccountData)
    } else if transfer is None {
        Err(StakingError::IncorrectProgramId)
    } else {
        Ok(
            StepView::Transfer {
                transfer: transfer.unwrap(),
                pending: PendingView::Airdrop { rewards: rewards.unwrap(), amount },
            },
        )
    }
}

/// The accounts after `fee` lamports have left the account at place `from`.
pub open spec fn fee_taken(accounts: AccountsView, from: int, fee: u64) -> AccountsView {
    accounts.with_lamports(from, (accounts.at(from).lamports - fee) as u64)
}

/// The accounts after `fee` lamports have gone from the account at place
/// `from` to the account at place `to`. Where both places hold one account,
/// its balance is in the end what it was.
pub open spec fn fee_moved(accounts: AccountsView, from: int, to: int, fee: u64) -> AccountsView {
    fee_taken(accounts, from, fee).with_lamports(
        to,
        (fee_taken(accounts, from, fee).at(to).lamports + fee) as u64,
    )
}

/// The second step of an airdrop, in the order in which it is taken: the
/// airdrop fee goes from the recipient to the treasury, lamport for lamport;
/// only then is the amount held against the cap and against the supply, and
/// the pool written.
///
/// An airdrop refused for its amount has therefore moved the tokens and the
/// fee already, and leaves the balances so: it rests with the caller that a
/// failed operation is undone as a whole. Whether the amount ought to be
/// held against the cap and the supply before anything moves is an open
/// question; until it is settled, this is the order.
pub open spec fn airdrop_completion(
    accounts: AccountsView,
    rewards: RewardsPool,
    amount: u64,
) -> Completion {
    let fee = rewards.airdrop_fee;
    let taken = fee_taken(accounts, 0, fee);
    let moved = fee_moved(accounts, 0, 6, fee);
    let after = rewards.after_airdrop(amount);
    if accounts.len() < 7 {
        stopped(accounts, StakingError::NotEnoughAccountKeys)
    } else if accounts.at(0).lamports < fee {
        stopped(accounts, StakingError::InsufficientFunds)
    } else if taken.at(6).lamports + fee > u64::MAX {
        stopped(taken, StakingError::InsufficientFunds)
    } else if after is Err {
        stopped(moved, after->Err_0)
    } else if moved.at(5).data.len() < REWARDS_POOL_LEN {
        stopped(moved, StakingError::BorshIoError)
    } else {
        completed(moved.with_record(5, after->Ok_0.encode()))
    }
}

/// Hands out an airdrop, first step: checks the request. Nothing is written
/// yet.
pub fn process_airdrop(
    program_id: &Address,
    accounts: &Accounts,
    amount: u64,
    config: &Config,
) -> (r: Result<Step, StakingError>)
    ensures
        step_is(r, airdrop_step(program_id@, accounts@, amount, config@)),
{
    if accounts.len() < 7 {
        return Err(StakingError::NotEnoughAccountKeys);
    }
    let owner_token_account = accounts.get(1);
    let pda_account = accounts.get(2);
    let pda_token_account = accounts.get(3);
    let token_program = accounts.get(4);
    let rewards_account = accounts.get(5);
    let treasury_account = accounts.get(6);

    if !treasury_account.key.same(&config.admin) {
        return Err(StakingError::InvalidInstructionData);
    }
    let rewards_info = RewardsPool::try_from_slice(rewards_account.data.as_slice())?;
    if !rewards_info.is_initialized {
        return Err(StakingError::UninitializedAccount);
    }
    if !rewards_account.owner.same(program_id) {
        return Err(StakingError::IllegalOwner);
    }
    let vault = match vault_of(program_id, &config.mint, &pda_token_account.key) {
        Some(vault) => vault,
        None => {
            return Err(StakingError::InvalidAccountData);
        },
    };
    let transfer = Transfer::signed_by_vault(
        &vault,
        &token_program.key,
        &pda_token_account.key,
        &owner_token_account.key,
        &pda_account.key,
        amount,
        [3, 1, 2, 4],
    )?;
    Ok(Step::Transfer { transfer, pending: Pending::Airdrop { rewards: rewards_info, amount } })
}

/// Hands out an airdrop, second step, once the tokens have moved: moves the
/// fee, then holds the amount against the cap and the supply. Where it
/// fails after the fee has moved, the balances are left as moved.
pub fn finish_airdrop(accounts: &mut Accounts, rewards: RewardsPool, amount: u64) -> (r: Result<
    (),
    StakingError,
>)
    ensures
        (Completion { accounts: final(accounts)@, result: r }) == airdrop_completion(
            old(accounts)@,
            rewards,
            amount,
        ),
{
    if accounts.len() < 7 {
        return Err(StakingError::NotEnoughAccountKeys);
    }
    let left: u64 = match accounts.get(0).lamports.checked_sub(rewards.airdrop_fee) {
        Some(left) => left,
        None => {
            return Err(StakingError::InsufficientFunds);
        },
    };
    accounts.set_lamports(0, left);
    let raised: u64 = match accounts.get(6).lamports.checked_add(rewards.airdrop_fee) {
        Some(raised) => raised,
        None => {
            return Err(StakingError::InsufficientFunds);
        },
    };
    accounts.set_lamports(6, raised);
    let rewards_info: RewardsPool = rewards.airdrop(amount)?;
    let bytes: Vec<u8> = rewards_info.to_bytes();
    accounts.write_record(5, &bytes)?;
    Ok(())
}

/// Changing the airdrop fee, which takes one step. The accounts are, in this
/// order: the administrator, the rewards pool.
///
/// The first account must be the administrator's and have signed; the pool
/// must be open and this program's. Any fee is then written.
pub open spec fn change_airdrop_fee_completion(
    program_id: Seq<u8>,
    accounts: AccountsView,
    fee: u64,
    config: ConfigView,
) -> Completion {
    let rewards = RewardsPool::decode(accounts.at(1).data);
    if accounts.len() < 2 {
        stopped(accounts, StakingError::NotEnoughAccountKeys)
    } else if accounts.at(0).key != config.admin || !accounts.at(0).is_signer {
        stopped(accounts, StakingError::InvalidInstructionData)
    } else if rewards is None {
        stopped(accounts, StakingError::BorshIoError)
    } else if !rewards.unwrap().is_initialized {
        stopped(accounts, StakingError::UninitializedAccount)
    } else if accounts.at(1).owner != program_id {
        stopped(accounts, StakingError::IllegalOwner)
    } else {
        completed(accounts.with_record(1, rewards.unwrap().with_airdrop_fee(fee).encode()))
    }
}

/// Sets what an airdrop costs. No tokens move, so this is the whole
/// operation.
pub fn process_change_airdrop_fee(
    program_id: &Address,
    accounts: &mut Accounts,
    fee: u64,
    config: &Config,
) -> (r: Result<(), StakingError>)
    ensures
        (Completion { accounts: final(accounts)@, result: r }) == change_airdrop_fee_completion(
            program_id@,
            old(accounts)@,
            fee,
            config@,
        ),
{
    if accounts.len() < 2 {
        return Err(StakingError::NotEnoughAccountKeys);
    }
    let admin_account = accounts.get(0);
    let rewards_account = accounts.get(1);

    if !admin_account.key.same(&config.admin) || !admin_account.is_signer {
        return Err(StakingError::InvalidInstructionData);
    }
    let rewards_info = RewardsPool::try_from_slice(rewards_account.data.as_slice())?;
    if !rewards_info.is_initialized {
        return Err(StakingError::UninitializedAccount);
    }
    if !rewards_account.owner.same(program_id) {
        return Err(StakingError::IllegalOwner);
    }
    let rewards_info: RewardsPool = rewards_info.set_airdrop_fee(fee);
    let bytes: Vec<u8> = rewards_info.to_bytes();
    accounts.write_record(1, &bytes)?;
    Ok(())
}

} // verus!
