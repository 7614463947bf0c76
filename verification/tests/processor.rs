use kittycoin_staking::account::{Account, Accounts};
use kittycoin_staking::address::Address;
use kittycoin_staking::config::{Config, AIRDROP_MAX, KITTYCOIN_MINT, VOTING_FEE};
use kittycoin_staking::error::StakingError;
use kittycoin_staking::processor::{
    finish_add_to_rewards_pool, finish_airdrop, finish_create_stake, finish_end_stake,
    finish_instruction, finish_vote, process_add_to_rewards_pool, process_airdrop,
    process_change_airdrop_fee, process_create_stake, process_end_stake, process_instruction,
    process_vote, Pending, Step,
};
use kittycoin_staking::state::{Ballot, RewardsPool, Stake};
use kittycoin_staking::token::{AccountMeta, Transfer};
use kittycoin_staking::vault::{VaultAuthority, TOKEN_PROGRAM_ID};

const NOW: i64 = 1_700_000_000;

fn key(byte: u8) -> Address {
    Address::new([byte; 32])
}

fn program() -> Address {
    key(7)
}

fn admin() -> Address {
    key(42)
}

fn config() -> Config {
    Config::new(admin(), Address::new(KITTYCOIN_MINT))
}

fn vault() -> VaultAuthority {
    VaultAuthority::bind(&program(), &Address::new(KITTYCOIN_MINT)).unwrap()
}

fn token_program() -> Account {
    wallet(Address::new(TOKEN_PROGRAM_ID), false, 1)
}

fn wallet(key: Address, is_signer: bool, lamports: u64) -> Account {
    Account { key, owner: Address::new([0; 32]), is_signer, lamports, data: vec![] }
}

fn record(key: Address, lamports: u64, data: Vec<u8>) -> Account {
    Account { key, owner: program(), is_signer: false, lamports, data }
}

fn pool() -> RewardsPool {
    RewardsPool {
        is_initialized: true,
        amount: 1_000,
        airdrop_supply: 300_000_000_000,
        airdrop_fee: 100_000,
        total_coins_staked: 10_000_000,
        total_stakes_count: 3,
    }
}

fn blank_pool() -> RewardsPool {
    RewardsPool {
        is_initialized: false,
        amount: 0,
        airdrop_supply: 0,
        airdrop_fee: 0,
        total_coins_staked: 0,
        total_stakes_count: 0,
    }
}

fn open_stake(amount: u64, started: i64) -> Stake {
    Stake { is_initialized: true, owner: key(1), amount, time_started: started }
}

fn snapshot(accounts: &Accounts) -> Vec<Account> {
    (0..accounts.len()).map(|place| accounts.get(place).clone()).collect()
}

fn transfer_of(step: &Step) -> &Transfer {
    match step {
        Step::Transfer { transfer, .. } => transfer,
        Step::Done => panic!("no tokens are to move"),
    }
}

fn pending_of(step: &Step) -> Pending {
    match step {
        Step::Transfer { pending, .. } => *pending,
        Step::Done => panic!("nothing is pending"),
    }
}

fn amount_of(transfer: &Transfer) -> u64 {
    assert_eq!(transfer.instruction.data.len(), 9);
    assert_eq!(transfer.instruction.data[0], 3);
    let mut bytes = [0u8; 8];
    bytes.copy_from_slice(&transfer.instruction.data[1..]);
    u64::from_le_bytes(bytes)
}

fn meta(pubkey: Address, is_signer: bool, is_writable: bool) -> AccountMeta {
    AccountMeta { pubkey, is_signer, is_writable }
}

// owner, owner's token account, stake, vault, token program, rewards pool
fn create_stake_accounts(stake_data: Vec<u8>, rewards: RewardsPool) -> Accounts {
    Accounts::distinct(vec![
        wallet(key(1), true, 1_000),
        wallet(key(2), false, 0),
        record(key(3), 500, stake_data),
        wallet(vault().token_address(), false, 0),
        token_program(),
        record(key(5), 0, rewards.to_bytes()),
    ])
}

// owner, owner's token account, stake, vault authority, vault, token program, rewards pool
fn end_stake_accounts(stake: Stake, rewards: RewardsPool) -> Accounts {
    Accounts::distinct(vec![
        wallet(key(1), true, 1_000),
        wallet(key(2), false, 0),
        record(key(3), 500, stake.to_bytes()),
        wallet(vault().address(), false, 0),
        wallet(vault().token_address(), false, 0),
        token_program(),
        record(key(5), 0, rewards.to_bytes()),
    ])
}

// donor, donor's token account, vault, token program, rewards pool
fn deposit_accounts(donor: Address, is_signer: bool, rewards: RewardsPool) -> Accounts {
    Accounts::distinct(vec![
        wallet(donor, is_signer, 1_000),
        wallet(key(2), false, 0),
        wallet(vault().token_address(), false, 0),
        token_program(),
        record(key(5), 0, rewards.to_bytes()),
    ])
}

// voter, voter's token account, ballot, vault, token program, rewards pool
fn vote_accounts(voter: Address, is_signer: bool, ballot: Ballot, rewards: RewardsPool) -> Accounts {
    Accounts::distinct(vec![
        wallet(voter, is_signer, 1_000),
        wallet(key(2), false, 0),
        record(key(6), 0, ballot.to_bytes()),
        wallet(vault().token_address(), false, 0),
        token_program(),
        record(key(5), 0, rewards.to_bytes()),
    ])
}

// recipient, recipient's token account, vault authority, vault, token program, rewards pool,
// treasury
fn airdrop_accounts(recipient_lamports: u64, treasury_lamports: u64, rewards: RewardsPool) -> Accounts {
    Accounts::distinct(vec![
        wallet(key(1), false, recipient_lamports),
        wallet(key(2), false, 0),
        wallet(vault().address(), false, 0),
        wallet(vault().token_address(), false, 0),
        token_program(),
        record(key(5), 0, rewards.to_bytes()),
        wallet(admin(), false, treasury_lamports),
    ])
}

fn without_last(accounts: &Accounts) -> Accounts {
    let mut all = snapshot(accounts);
    all.pop();
    Accounts::distinct(all)
}

fn with_account(accounts: &Accounts, place: usize, account: Account) -> Accounts {
    let mut all = snapshot(accounts);
    all[place] = account;
    Accounts::distinct(all)
}

// ---- starting a stake

#[test]
fn create_stake_asks_for_the_tokens_and_writes_nothing() {
    let accounts = create_stake_accounts(vec![0; 49], pool());
    let before = snapshot(&accounts);
    let step = process_create_stake(&program(), &accounts, 1_000_000, NOW, &config()).unwrap();
    let transfer = transfer_of(&step);
    assert_eq!(amount_of(transfer), 1_000_000);
    assert_eq!(transfer.accounts, [1, 3, 0, 4]);
    assert_eq!(transfer.bump_seed, None);
    assert_eq!(transfer.instruction.program_id.bytes, TOKEN_PROGRAM_ID);
    assert_eq!(
        transfer.instruction.accounts,
        vec![
            meta(key(2), false, true),
            meta(vault().token_address(), false, true),
            meta(key(1), false, false),
            meta(key(1), true, false),
        ]
    );
    assert_eq!(
        pending_of(&step),
        Pending::CreateStake { stake: open_stake(1_000_000, NOW) }
    );
    assert_eq!(snapshot(&accounts), before);
}

#[test]
fn create_stake_records_amount_and_time() {
    for amount in [1_000_000u64, 1_000_001, 2_160_000, 123_456_789_000] {
        let mut accounts = create_stake_accounts(vec![0; 49], pool());
        let step = process_create_stake(&program(), &accounts, amount, NOW, &config()).unwrap();
        assert_eq!(finish_instruction(&mut accounts, pending_of(&step)), Ok(()));
        let stake = Stake::try_from_slice(&accounts.get(2).data).unwrap();
        assert_eq!(stake, open_stake(amount, NOW));
        let rewards = RewardsPool::try_from_slice(&accounts.get(5).data).unwrap();
        assert_eq!(
            rewards,
            RewardsPool {
                total_coins_staked: 10_000_000 + amount,
                total_stakes_count: 4,
                ..pool()
            }
        );
        assert_eq!(accounts.get(0).lamports, 1_000);
        assert_eq!(accounts.get(2).lamports, 500);
    }
}

#[test]
fn create_stake_twice_is_refused() {
    let mut accounts = create_stake_accounts(vec![0; 49], pool());
    let step = process_create_stake(&program(), &accounts, 1_000_000, NOW, &config()).unwrap();
    assert_eq!(finish_instruction(&mut accounts, pending_of(&step)), Ok(()));
    let after = snapshot(&accounts);
    assert_eq!(
        process_create_stake(&program(), &accounts, 1_000_000, NOW, &config()),
        Err(StakingError::AccountAlreadyInitialized)
    );
    assert_eq!(
        process_create_stake(&program(), &accounts, 5_000_000, NOW + 100, &config()),
        Err(StakingError::AccountAlreadyInitialized)
    );
    assert_eq!(snapshot(&accounts), after);
}

#[test]
fn create_stake_below_one_token_is_refused() {
    let accounts = create_stake_accounts(vec![0; 49], pool());
    for amount in [0u64, 1, 999_999] {
        assert_eq!(
            process_create_stake(&program(), &accounts, amount, NOW, &config()),
            Err(StakingError::InvalidInstructionData)
        );
    }
}

#[test]
fn create_stake_needs_six_accounts() {
    let accounts = without_last(&create_stake_accounts(vec![0; 49], pool()));
    assert_eq!(
        process_create_stake(&program(), &accounts, 1_000_000, NOW, &config()),
        Err(StakingError::NotEnoughAccountKeys)
    );
    let mut accounts = accounts;
    assert_eq!(
        finish_create_stake(&mut accounts, open_stake(1_000_000, NOW)),
        Err(StakingError::NotEnoughAccountKeys)
    );
}

#[test]
fn create_stake_needs_a_stake_record() {
    for data in [vec![], vec![0; 48], vec![0; 50], vec![2; 49]] {
        let accounts = create_stake_accounts(data, pool());
        assert_eq!(
            process_create_stake(&program(), &accounts, 1_000_000, NOW, &config()),
            Err(StakingError::BorshIoError)
        );
    }
}

#[test]
fn create_stake_needs_the_vault() {
    let accounts = create_stake_accounts(vec![0; 49], pool());
    let forged = with_account(&accounts, 3, wallet(key(66), false, 0));
    assert_eq!(
        process_create_stake(&program(), &forged, 1_000_000, NOW, &config()),
        Err(StakingError::InvalidAccountData)
    );
    // the vault of another program, or for another mint, is not this program's vault
    assert_eq!(
        process_create_stake(&key(8), &accounts, 1_000_000, NOW, &config()),
        Err(StakingError::InvalidAccountData)
    );
    assert_eq!(
        process_create_stake(&program(), &accounts, 1_000_000, NOW, &Config::new(admin(), key(9))),
        Err(StakingError::InvalidAccountData)
    );
    // the authority is not the vault
    let authority = with_account(&accounts, 3, wallet(vault().address(), false, 0));
    assert_eq!(
        process_create_stake(&program(), &authority, 1_000_000, NOW, &config()),
        Err(StakingError::InvalidAccountData)
    );
}

#[test]
fn create_stake_needs_an_open_pool() {
    let accounts = create_stake_accounts(vec![0; 49], blank_pool());
    assert_eq!(
        process_create_stake(&program(), &accounts, 1_000_000, NOW, &config()),
        Err(StakingError::UninitializedAccount)
    );
    let mut accounts = accounts;
    let before = snapshot(&accounts);
    assert_eq!(
        finish_create_stake(&mut accounts, open_stake(1_000_000, NOW)),
        Err(StakingError::UninitializedAccount)
    );
    assert_eq!(snapshot(&accounts), before);
    let garbled = with_account(&accounts, 5, record(key(5), 0, vec![1; 36]));
    assert_eq!(
        process_create_stake(&program(), &garbled, 1_000_000, NOW, &config()),
        Err(StakingError::BorshIoError)
    );
}

#[test]
fn create_stake_needs_the_token_program() {
    let accounts = create_stake_accounts(vec![0; 49], pool());
    let other = with_account(&accounts, 4, wallet(key(77), false, 0));
    assert_eq!(
        process_create_stake(&program(), &other, 1_000_000, NOW, &config()),
        Err(StakingError::IncorrectProgramId)
    );
}

#[test]
fn create_stake_does_not_wrap_the_pool() {
    let full = RewardsPool { total_coins_staked: u64::MAX - 999_999, ..pool() };
    let mut accounts = create_stake_accounts(vec![0; 49], full);
    let before = snapshot(&accounts);
    let step = process_create_stake(&program(), &accounts, 1_000_000, NOW, &config()).unwrap();
    assert_eq!(
        finish_instruction(&mut accounts, pending_of(&step)),
        Err(StakingError::InsufficientFunds)
    );
    assert_eq!(snapshot(&accounts), before);
    let many = RewardsPool { total_stakes_count: u32::MAX, ..pool() };
    let mut accounts = create_stake_accounts(vec![0; 49], many);
    assert_eq!(
        finish_create_stake(&mut accounts, open_stake(1_000_000, NOW)),
        Err(StakingError::InsufficientFunds)
    );
}

#[test]
fn create_stake_checks_in_order() {
    // too few accounts comes before too small an amount
    let few = without_last(&create_stake_accounts(vec![0; 49], pool()));
    assert_eq!(
        process_create_stake(&program(), &few, 1, NOW, &config()),
        Err(StakingError::NotEnoughAccountKeys)
    );
    // too small an amount comes before a record that is taken
    let taken = create_stake_accounts(open_stake(5, 5).to_bytes(), pool());
    assert_eq!(
        process_create_stake(&program(), &taken, 1, NOW, &config()),
        Err(StakingError::InvalidInstructionData)
    );
    // a record that is taken comes before a wrong vault
    let forged = with_account(&taken, 3, wallet(key(66), false, 0));
    assert_eq!(
        process_create_stake(&program(), &forged, 1_000_000, NOW, &config()),
        Err(StakingError::AccountAlreadyInitialized)
    );
    // a wrong vault comes before a pool that is not open
    let forged = with_account(
        &create_stake_accounts(vec![0; 49], blank_pool()),
        3,
        wallet(key(66), false, 0),
    );
    assert_eq!(
        process_create_stake(&program(), &forged, 1_000_000, NOW, &config()),
        Err(StakingError::InvalidAccountData)
    );
}

// ---- ending a stake

#[test]
fn end_stake_after_ten_minutes_pays_ten() {
    let rewards = RewardsPool { amount: 100, ..pool() };
    let mut accounts = end_stake_accounts(open_stake(2_160_000, NOW - 600), rewards);
    let before = snapshot(&accounts);
    let step = process_end_stake(&program(), &accounts, NOW, &config()).unwrap();
    assert_eq!(snapshot(&accounts), before);
    let transfer = transfer_of(&step);
    assert_eq!(amount_of(transfer), 2_160_010);
    assert_eq!(transfer.accounts, [4, 1, 3, 5]);
    assert_eq!(transfer.bump_seed, Some(vault().bump_seed()));
    assert_eq!(
        transfer.instruction.accounts,
        vec![
            meta(vault().token_address(), false, true),
            meta(key(2), false, true),
            meta(vault().address(), false, false),
            meta(vault().address(), true, false),
        ]
    );
    assert_eq!(finish_instruction(&mut accounts, pending_of(&step)), Ok(()));
    let settled = RewardsPool::try_from_slice(&accounts.get(6).data).unwrap();
    assert_eq!(
        settled,
        RewardsPool {
            amount: 90,
            total_coins_staked: 10_000_000 - 2_160_000,
            total_stakes_count: 2,
            ..pool()
        }
    );
    let stake = Stake::try_from_slice(&accounts.get(2).data).unwrap();
    assert_eq!(stake, Stake { is_initialized: false, ..open_stake(2_160_000, NOW - 600) });
    assert_eq!(accounts.get(0).lamports, 1_500);
    assert_eq!(accounts.get(2).lamports, 0);
}

#[test]
fn end_stake_within_a_minute_pays_the_stake() {
    for elapsed in [0i64, 1, 59] {
        let accounts = end_stake_accounts(open_stake(5_000_000, NOW - elapsed), pool());
        let step = process_end_stake(&program(), &accounts, NOW, &config()).unwrap();
        assert_eq!(amount_of(transfer_of(&step)), 5_000_000);
        match pending_of(&step) {
            Pending::EndStake { rewards, .. } => assert_eq!(rewards.amount, 1_000),
            other => panic!("unexpected {:?}", other),
        }
    }
}

#[test]
fn end_stake_below_the_rate_pays_the_stake() {
    for rewards in [0u64, 1_000, u64::MAX] {
        let accounts = end_stake_accounts(
            open_stake(1_000_000, NOW - 1000 * 60),
            RewardsPool { amount: rewards, ..pool() },
        );
        let step = process_end_stake(&program(), &accounts, NOW, &config()).unwrap();
        assert_eq!(amount_of(transfer_of(&step)), 1_000_000);
        match pending_of(&step) {
            Pending::EndStake { rewards: settled, .. } => assert_eq!(settled.amount, rewards),
            other => panic!("unexpected {:?}", other),
        }
    }
}

#[test]
fn end_stake_forfeits_a_reward_that_the_pool_cannot_pay() {
    let rewards = RewardsPool { amount: 9, ..pool() };
    let mut accounts = end_stake_accounts(open_stake(2_160_000, NOW - 600), rewards);
    let step = process_end_stake(&program(), &accounts, NOW, &config()).unwrap();
    assert_eq!(amount_of(transfer_of(&step)), 2_160_000);
    assert_eq!(finish_instruction(&mut accounts, pending_of(&step)), Ok(()));
    let settled = RewardsPool::try_from_slice(&accounts.get(6).data).unwrap();
    assert_eq!(settled.amount, 9);
    assert_eq!(settled.total_stakes_count, 2);
}

#[test]
fn end_stake_frees_the_record_for_another_stake() {
    let mut accounts = end_stake_accounts(open_stake(2_160_000, NOW - 600), pool());
    let step = process_end_stake(&program(), &accounts, NOW, &config()).unwrap();
    assert_eq!(finish_instruction(&mut accounts, pending_of(&step)), Ok(()));
    assert_eq!(
        process_end_stake(&program(), &accounts, NOW, &config()),
        Err(StakingError::UninitializedAccount)
    );
    let again = create_stake_accounts(accounts.get(2).data.clone(), pool());
    assert!(process_create_stake(&program(), &again, 1_000_000, NOW, &config()).is_ok());
}

#[test]
fn end_stake_needs_seven_accounts() {
    let accounts = without_last(&end_stake_accounts(open_stake(2_160_000, NOW), pool()));
    assert_eq!(
        process_end_stake(&program(), &accounts, NOW, &config()),
        Err(StakingError::NotEnoughAccountKeys)
    );
    let mut accounts = accounts;
    assert_eq!(
        finish_end_stake(&mut accounts, pool(), open_stake(2_160_000, NOW)),
        Err(StakingError::NotEnoughAccountKeys)
    );
}

#[test]
fn end_stake_needs_an_open_pool_of_this_program() {
    let accounts = end_stake_accounts(open_stake(2_160_000, NOW), blank_pool());
    assert_eq!(
        process_end_stake(&program(), &accounts, NOW, &config()),
        Err(StakingError::UninitializedAccount)
    );
    let accounts = end_stake_accounts(open_stake(2_160_000, NOW), pool());
    let foreign = with_account(
        &accounts,
        6,
        Account { owner: key(99), ..record(key(5), 0, pool().to_bytes()) },
    );
    assert_eq!(
        process_end_stake(&program(), &foreign, NOW, &config()),
        Err(StakingError::IllegalOwner)
    );
    let garbled = with_account(&accounts, 6, record(key(5), 0, vec![0; 38]));
    assert_eq!(
        process_end_stake(&program(), &garbled, NOW, &config()),
        Err(StakingError::BorshIoError)
    );
}

#[test]
fn end_stake_needs_an_open_stake() {
    let free = Stake { is_initialized: false, ..open_stake(2_160_000, NOW) };
    let accounts = end_stake_accounts(free, pool());
    assert_eq!(
        process_end_stake(&program(), &accounts, NOW, &config()),
        Err(StakingError::UninitializedAccount)
    );
    let garbled = with_account(&accounts, 2, record(key(3), 500, vec![1; 48]));
    assert_eq!(
        process_end_stake(&program(), &garbled, NOW, &config()),
        Err(StakingError::BorshIoError)
    );
}

#[test]
fn end_stake_needs_the_owners_signature() {
    let accounts = end_stake_accounts(open_stake(2_160_000, NOW), pool());
    let unsigned = with_account(&accounts, 0, wallet(key(1), false, 1_000));
    assert_eq!(
        process_end_stake(&program(), &unsigned, NOW, &config()),
        Err(StakingError::MissingRequiredSignature)
    );
    let stranger = with_account(&accounts, 0, wallet(key(11), true, 1_000));
    assert_eq!(
        process_end_stake(&program(), &stranger, NOW, &config()),
        Err(StakingError::IllegalOwner)
    );
}

#[test]
fn end_stake_needs_the_vault_and_the_token_program() {
    let accounts = end_stake_accounts(open_stake(2_160_000, NOW), pool());
    let forged = with_account(&accounts, 4, wallet(key(66), false, 0));
    assert_eq!(
        process_end_stake(&program(), &forged, NOW, &config()),
        Err(StakingError::InvalidAccountData)
    );
    let other = with_account(&accounts, 5, wallet(key(77), false, 0));
    assert_eq!(
        process_end_stake(&program(), &other, NOW, &config()),
        Err(StakingError::IncorrectProgramId)
    );
}

#[test]
fn end_stake_refuses_a_stake_from_the_future() {
    let accounts = end_stake_accounts(open_stake(2_160_000, NOW + 1), pool());
    assert_eq!(
        process_end_stake(&program(), &accounts, NOW, &config()),
        Err(StakingError::InvalidInstructionData)
    );
}

#[test]
fn end_stake_does_not_wrap() {
    let accounts = end_stake_accounts(open_stake(2_160_000, -2), pool());
    assert_eq!(
        process_end_stake(&program(), &accounts, i64::MAX, &config()),
        Err(StakingError::InsufficientFunds)
    );
    let uncounted = RewardsPool { total_stakes_count: 0, ..pool() };
    let accounts = end_stake_accounts(open_stake(2_160_000, NOW), uncounted);
    assert_eq!(
        process_end_stake(&program(), &accounts, NOW, &config()),
        Err(StakingError::InsufficientFunds)
    );
    let accounts = end_stake_accounts(open_stake(20_000_000, NOW), pool());
    assert_eq!(
        process_end_stake(&program(), &accounts, NOW, &config()),
        Err(StakingError::InsufficientFunds)
    );
}

#[test]
fn end_stake_does_not_wrap_the_owners_balance() {
    let accounts = end_stake_accounts(open_stake(2_160_000, NOW - 600), pool());
    let mut accounts = with_account(&accounts, 0, wallet(key(1), true, u64::MAX - 499));
    let before = snapshot(&accounts);
    let step = process_end_stake(&program(), &accounts, NOW, &config()).unwrap();
    assert_eq!(
        finish_instruction(&mut accounts, pending_of(&step)),
        Err(StakingError::InsufficientFunds)
    );
    assert_eq!(snapshot(&accounts), before);
    let mut accounts = with_account(&accounts, 0, wallet(key(1), true, u64::MAX - 500));
    assert_eq!(finish_instruction(&mut accounts, pending_of(&step)), Ok(()));
    assert_eq!(accounts.get(0).lamports, u64::MAX);
}

#[test]
fn end_stake_by_the_stakes_own_account_leaves_it_no_balance() {
    // the stake's account is its own owner and stands at both places
    let stake = Stake { owner: key(3), ..open_stake(2_160_000, NOW - 600) };
    let mut slots = snapshot(&end_stake_accounts(stake, pool()));
    slots[2].is_signer = true;
    let mut accounts = Accounts::new(slots, vec![2, 1, 2, 3, 4, 5, 6]).unwrap();
    let step = process_end_stake(&program(), &accounts, NOW, &config()).unwrap();
    assert_eq!(finish_instruction(&mut accounts, pending_of(&step)), Ok(()));
    assert_eq!(accounts.get(0).lamports, 0);
    assert_eq!(accounts.get(2).lamports, 0);
    assert!(!Stake::try_from_slice(&accounts.get(0).data).unwrap().is_initialized);
}

// ---- giving to the pool

#[test]
fn first_deposit_by_the_administrator_opens_the_pool() {
    let mut accounts = deposit_accounts(admin(), true, blank_pool());
    let step =
        process_add_to_rewards_pool(&program(), &accounts, 5_000_000, false, &config()).unwrap();
    let transfer = transfer_of(&step);
    assert_eq!(amount_of(transfer), 5_000_000);
    assert_eq!(transfer.accounts, [1, 2, 0, 3]);
    assert_eq!(transfer.bump_seed, None);
    assert_eq!(
        transfer.instruction.accounts,
        vec![
            meta(key(2), false, true),
            meta(vault().token_address(), false, true),
            meta(admin(), false, false),
            meta(admin(), true, false),
        ]
    );
    assert_eq!(accounts.get(4).data, blank_pool().to_bytes());
    assert_eq!(finish_instruction(&mut accounts, pending_of(&step)), Ok(()));
    assert_eq!(
        RewardsPool::try_from_slice(&accounts.get(4).data),
        Ok(RewardsPool {
            is_initialized: true,
            amount: 5_000_000,
            airdrop_fee: 100_000,
            ..blank_pool()
        })
    );
}

#[test]
fn first_deposit_by_anyone_else_is_refused() {
    let accounts = deposit_accounts(key(1), true, blank_pool());
    assert_eq!(
        process_add_to_rewards_pool(&program(), &accounts, 5_000_000, false, &config()),
        Err(StakingError::InvalidInstructionData)
    );
}

#[test]
fn anyone_may_give_to_an_open_pool() {
    let mut accounts = deposit_accounts(key(1), true, pool());
    let step = process_add_to_rewards_pool(&program(), &accounts, 7, true, &config()).unwrap();
    assert_eq!(finish_instruction(&mut accounts, pending_of(&step)), Ok(()));
    assert_eq!(
        RewardsPool::try_from_slice(&accounts.get(4).data),
        Ok(RewardsPool { airdrop_supply: 300_000_000_007, ..pool() })
    );
    let step = process_add_to_rewards_pool(&program(), &accounts, 7, false, &config()).unwrap();
    assert_eq!(finish_instruction(&mut accounts, pending_of(&step)), Ok(()));
    assert_eq!(
        RewardsPool::try_from_slice(&accounts.get(4).data),
        Ok(RewardsPool { airdrop_supply: 300_000_000_007, amount: 1_007, ..pool() })
    );
}

#[test]
fn deposit_needs_the_donors_signature() {
    let accounts = deposit_accounts(admin(), false, blank_pool());
    assert_eq!(
        process_add_to_rewards_pool(&program(), &accounts, 5, false, &config()),
        Err(StakingError::MissingRequiredSignature)
    );
    let accounts = deposit_accounts(key(1), false, pool());
    assert_eq!(
        process_add_to_rewards_pool(&program(), &accounts, 5, false, &config()),
        Err(StakingError::MissingRequiredSignature)
    );
}

#[test]
fn deposit_is_refused_for_want_of_accounts_pool_vault_or_token_program() {
    let accounts = deposit_accounts(key(1), true, pool());
    assert_eq!(
        process_add_to_rewards_pool(&program(), &without_last(&accounts), 5, false, &config()),
        Err(StakingError::NotEnoughAccountKeys)
    );
    let garbled = with_account(&accounts, 4, record(key(5), 0, vec![]));
    assert_eq!(
        process_add_to_rewards_pool(&program(), &garbled, 5, false, &config()),
        Err(StakingError::BorshIoError)
    );
    let forged = with_account(&accounts, 2, wallet(key(66), false, 0));
    assert_eq!(
        process_add_to_rewards_pool(&program(), &forged, 5, false, &config()),
        Err(StakingError::InvalidAccountData)
    );
    let other = with_account(&accounts, 3, wallet(key(77), false, 0));
    assert_eq!(
        process_add_to_rewards_pool(&program(), &other, 5, false, &config()),
        Err(StakingError::IncorrectProgramId)
    );
}

#[test]
fn deposit_does_not_wrap() {
    let mut accounts = deposit_accounts(key(1), true, pool());
    let before = snapshot(&accounts);
    assert_eq!(
        finish_add_to_rewards_pool(&mut accounts, pool(), u64::MAX, false),
        Err(StakingError::InsufficientFunds)
    );
    assert_eq!(
        finish_add_to_rewards_pool(&mut accounts, pool(), u64::MAX, true),
        Err(StakingError::InsufficientFunds)
    );
    assert_eq!(snapshot(&accounts), before);
    let mut few = without_last(&accounts);
    assert_eq!(
        finish_add_to_rewards_pool(&mut few, pool(), 1, true),
        Err(StakingError::NotEnoughAccountKeys)
    );
}

// ---- voting

fn ballot() -> Ballot {
    Ballot { is_initialized: true, choices: [10, 20, 30, 40, 50] }
}

#[test]
fn vote_for_the_last_option_raises_its_tally_alone() {
    let mut accounts = vote_accounts(key(1), true, ballot(), pool());
    let step = process_vote(&program(), &accounts, 4, &config()).unwrap();
    let transfer = transfer_of(&step);
    assert_eq!(amount_of(transfer), VOTING_FEE);
    assert_eq!(amount_of(transfer), 1_000_000_000);
    assert_eq!(transfer.accounts, [1, 3, 0, 4]);
    assert_eq!(transfer.bump_seed, None);
    assert_eq!(accounts.get(2).data, ballot().to_bytes());
    assert_eq!(finish_instruction(&mut accounts, pending_of(&step)), Ok(()));
    assert_eq!(
        Ballot::try_from_slice(&accounts.get(2).data),
        Ok(Ballot { is_initialized: true, choices: [10, 20, 30, 40, 51] })
    );
    assert_eq!(
        RewardsPool::try_from_slice(&accounts.get(5).data),
        Ok(RewardsPool { amount: 1_000 + 1_000_000_000, ..pool() })
    );
}

#[test]
fn vote_for_no_option_fails_and_writes_nothing() {
    let mut accounts = vote_accounts(key(1), true, ballot(), pool());
    let before = snapshot(&accounts);
    let step = process_vote(&program(), &accounts, 5, &config()).unwrap();
    assert_eq!(
        finish_instruction(&mut accounts, pending_of(&step)),
        Err(StakingError::InvalidInstructionData)
    );
    assert_eq!(snapshot(&accounts), before);
    assert_eq!(
        finish_vote(&mut accounts, ballot(), pool(), 255),
        Err(StakingError::InvalidInstructionData)
    );
    assert_eq!(snapshot(&accounts), before);
}

#[test]
fn first_vote_by_the_administrator_opens_the_ballot() {
    let blank = Ballot { is_initialized: false, choices: [0; 5] };
    let mut accounts = vote_accounts(admin(), true, blank, pool());
    let step = process_vote(&program(), &accounts, 0, &config()).unwrap();
    assert_eq!(finish_instruction(&mut accounts, pending_of(&step)), Ok(()));
    assert_eq!(
        Ballot::try_from_slice(&accounts.get(2).data),
        Ok(Ballot { is_initialized: true, choices: [1, 0, 0, 0, 0] })
    );
}

#[test]
fn first_vote_by_anyone_else_is_refused() {
    let blank = Ballot { is_initialized: false, choices: [0; 5] };
    let accounts = vote_accounts(key(1), true, blank, pool());
    assert_eq!(
        process_vote(&program(), &accounts, 0, &config()),
        Err(StakingError::UninitializedAccount)
    );
    let unsigned = vote_accounts(admin(), false, blank, pool());
    assert_eq!(
        process_vote(&program(), &unsigned, 0, &config()),
        Err(StakingError::UninitializedAccount)
    );
}

#[test]
fn vote_is_refused_for_want_of_accounts_records_vault_or_token_program() {
    let accounts = vote_accounts(key(1), false, ballot(), pool());
    assert!(process_vote(&program(), &accounts, 1, &config()).is_ok());
    assert_eq!(
        process_vote(&program(), &without_last(&accounts), 1, &config()),
        Err(StakingError::NotEnoughAccountKeys)
    );
    let garbled = with_account(&accounts, 2, record(key(6), 0, vec![0; 20]));
    assert_eq!(process_vote(&program(), &garbled, 1, &config()), Err(StakingError::BorshIoError));
    let garbled = with_account(&accounts, 5, record(key(5), 0, vec![0; 20]));
    assert_eq!(process_vote(&program(), &garbled, 1, &config()), Err(StakingError::BorshIoError));
    let closed = vote_accounts(key(1), false, ballot(), blank_pool());
    assert_eq!(
        process_vote(&program(), &closed, 1, &config()),
        Err(StakingError::UninitializedAccount)
    );
    let forged = with_account(&accounts, 3, wallet(key(66), false, 0));
    assert_eq!(
        process_vote(&program(), &forged, 1, &config()),
        Err(StakingError::InvalidAccountData)
    );
    let other = with_account(&accounts, 4, wallet(key(77), false, 0));
    assert_eq!(
        process_vote(&program(), &other, 1, &config()),
        Err(StakingError::IncorrectProgramId)
    );
}

#[test]
fn vote_does_not_wrap() {
    let mut accounts = vote_accounts(key(1), true, ballot(), pool());
    let before = snapshot(&accounts);
    let full = Ballot { is_initialized: true, choices: [0, 0, u32::MAX, 0, 0] };
    assert_eq!(
        finish_vote(&mut accounts, full, pool(), 2),
        Err(StakingError::InsufficientFunds)
    );
    let rich = RewardsPool { amount: u64::MAX - VOTING_FEE + 1, ..pool() };
    assert_eq!(
        finish_vote(&mut accounts, ballot(), rich, 2),
        Err(StakingError::InsufficientFunds)
    );
    assert_eq!(snapshot(&accounts), before);
    let mut few = without_last(&accounts);
    assert_eq!(
        finish_vote(&mut few, ballot(), pool(), 2),
        Err(StakingError::NotEnoughAccountKeys)
    );
}

// ---- airdrops

#[test]
fn airdrop_moves_the_fee_and_takes_from_the_supply() {
    let mut accounts = airdrop_accounts(1_000_000, 5, pool());
    let before = snapshot(&accounts);
    let step = process_airdrop(&program(), &accounts, 2_000_000, &config()).unwrap();
    assert_eq!(snapshot(&accounts), before);
    let transfer = transfer_of(&step);
    assert_eq!(amount_of(transfer), 2_000_000);
    assert_eq!(transfer.accounts, [3, 1, 2, 4]);
    assert_eq!(transfer.bump_seed, Some(vault().bump_seed()));
    assert_eq!(
        transfer.instruction.accounts,
        vec![
            meta(vault().token_address(), false, true),
            meta(key(2), false, true),
            meta(vault().address(), false, false),
            meta(vault().address(), true, false),
        ]
    );
    assert_eq!(finish_instruction(&mut accounts, pending_of(&step)), Ok(()));
    assert_eq!(accounts.get(0).lamports, 900_000);
    assert_eq!(accounts.get(6).lamports, 100_005);
    assert_eq!(
        RewardsPool::try_from_slice(&accounts.get(5).data),
        Ok(RewardsPool { airdrop_supply: 300_000_000_000 - 2_000_000, ..pool() })
    );
}

#[test]
fn airdrop_above_the_cap_is_refused_after_the_fee_has_moved() {
    let mut accounts = airdrop_accounts(1_000_000, 5, pool());
    let before = snapshot(&accounts);
    let step = process_airdrop(&program(), &accounts, AIRDROP_MAX + 1, &config()).unwrap();
    assert_eq!(amount_of(transfer_of(&step)), 200_000_000_001);
    assert_eq!(
        finish_instruction(&mut accounts, pending_of(&step)),
        Err(StakingError::InvalidInstructionData)
    );
    let after = snapshot(&accounts);
    for (place, (was, is)) in before.iter().zip(after.iter()).enumerate() {
        assert_eq!(was.data, is.data);
        if place != 0 && place != 6 {
            assert_eq!(was, is);
        }
    }
    assert_eq!(accounts.get(0).lamports, 900_000);
    assert_eq!(accounts.get(6).lamports, 100_005);
}

#[test]
fn airdrop_of_the_cap_goes_through() {
    let mut accounts = airdrop_accounts(1_000_000, 5, pool());
    assert_eq!(finish_airdrop(&mut accounts, pool(), AIRDROP_MAX), Ok(()));
    assert_eq!(
        RewardsPool::try_from_slice(&accounts.get(5).data).unwrap().airdrop_supply,
        100_000_000_000
    );
}

#[test]
fn airdrop_needs_the_supply() {
    let small = RewardsPool { airdrop_supply: 1_999_999, ..pool() };
    let mut accounts = airdrop_accounts(1_000_000, 5, small);
    assert_eq!(
        finish_airdrop(&mut accounts, small, 2_000_000),
        Err(StakingError::InsufficientFunds)
    );
    assert_eq!(accounts.get(5).data, small.to_bytes());
    assert_eq!(accounts.get(0).lamports, 900_000);
}

#[test]
fn airdrop_needs_the_fee() {
    let mut accounts = airdrop_accounts(99_999, 5, pool());
    let before = snapshot(&accounts);
    assert_eq!(finish_airdrop(&mut accounts, pool(), 1), Err(StakingError::InsufficientFunds));
    assert_eq!(snapshot(&accounts), before);
    let mut accounts = airdrop_accounts(100_000, u64::MAX - 99_999, pool());
    assert_eq!(finish_airdrop(&mut accounts, pool(), 1), Err(StakingError::InsufficientFunds));
    assert_eq!(accounts.get(0).lamports, 0);
    assert_eq!(accounts.get(6).lamports, u64::MAX - 99_999);
    assert_eq!(accounts.get(5).data, pool().to_bytes());
}

#[test]
fn airdrop_to_the_treasury_itself_leaves_its_balance() {
    let mut slots = snapshot(&airdrop_accounts(1_000_000, 5, pool()));
    slots[0] = wallet(admin(), false, 1_000_000);
    slots.pop();
    let mut accounts = Accounts::new(slots, vec![0, 1, 2, 3, 4, 5, 0]).unwrap();
    let step = process_airdrop(&program(), &accounts, 2_000_000, &config()).unwrap();
    assert_eq!(finish_instruction(&mut accounts, pending_of(&step)), Ok(()));
    assert_eq!(accounts.get(0).lamports, 1_000_000);
    assert_eq!(accounts.get(6).lamports, 1_000_000);
}

#[test]
fn airdrop_needs_the_administrators_treasury() {
    let accounts = airdrop_accounts(1_000_000, 5, pool());
    let other = with_account(&accounts, 6, wallet(key(1), false, 5));
    assert_eq!(
        process_airdrop(&program(), &other, 1, &config()),
        Err(StakingError::InvalidInstructionData)
    );
}

#[test]
fn airdrop_is_refused_for_want_of_accounts_pool_vault_or_token_program() {
    let accounts = airdrop_accounts(1_000_000, 5, pool());
    assert_eq!(
        process_airdrop(&program(), &without_last(&accounts), 1, &config()),
        Err(StakingError::NotEnoughAccountKeys)
    );
    let closed = airdrop_accounts(1_000_000, 5, blank_pool());
    assert_eq!(
        process_airdrop(&program(), &closed, 1, &config()),
        Err(StakingError::UninitializedAccount)
    );
    let foreign = with_account(
        &accounts,
        5,
        Account { owner: key(99), ..record(key(5), 0, pool().to_bytes()) },
    );
    assert_eq!(process_airdrop(&program(), &foreign, 1, &config()), Err(StakingError::IllegalOwner));
    let garbled = with_account(&accounts, 5, record(key(5), 0, vec![9; 37]));
    assert_eq!(process_airdrop(&program(), &garbled, 1, &config()), Err(StakingError::BorshIoError));
    let forged = with_account(&accounts, 3, wallet(key(66), false, 0));
    assert_eq!(
        process_airdrop(&program(), &forged, 1, &config()),
        Err(StakingError::InvalidAccountData)
    );
    let other = with_account(&accounts, 4, wallet(key(77), false, 0));
    assert_eq!(
        process_airdrop(&program(), &other, 1, &config()),
        Err(StakingError::IncorrectProgramId)
    );
    let mut few = without_last(&accounts);
    assert_eq!(
        finish_airdrop(&mut few, pool(), 1),
        Err(StakingError::NotEnoughAccountKeys)
    );
}

// ---- the airdrop fee

fn fee_accounts(who: Address, is_signer: bool, rewards: RewardsPool) -> Accounts {
    Accounts::distinct(vec![wallet(who, is_signer, 1_000), record(key(5), 0, rewards.to_bytes())])
}

#[test]
fn the_administrator_sets_any_fee() {
    for fee in [0u64, 1, 100_000, u64::MAX] {
        let mut accounts = fee_accounts(admin(), true, pool());
        assert_eq!(process_change_airdrop_fee(&program(), &mut accounts, fee, &config()), Ok(()));
        assert_eq!(
            RewardsPool::try_from_slice(&accounts.get(1).data),
            Ok(RewardsPool { airdrop_fee: fee, ..pool() })
        );
        assert_eq!(accounts.get(0), &wallet(admin(), true, 1_000));
    }
}

#[test]
fn nobody_else_sets_the_fee() {
    let mut accounts = fee_accounts(key(1), true, pool());
    let before = snapshot(&accounts);
    assert_eq!(
        process_change_airdrop_fee(&program(), &mut accounts, 5, &config()),
        Err(StakingError::InvalidInstructionData)
    );
    assert_eq!(snapshot(&accounts), before);
    let mut unsigned = fee_accounts(admin(), false, pool());
    assert_eq!(
        process_change_airdrop_fee(&program(), &mut unsigned, 5, &config()),
        Err(StakingError::InvalidInstructionData)
    );
    assert_eq!(unsigned.get(1).data, pool().to_bytes());
}

#[test]
fn the_fee_is_set_on_an_open_pool_of_this_program_only() {
    let mut few = Accounts::distinct(vec![wallet(admin(), true, 1_000)]);
    assert_eq!(
        process_change_airdrop_fee(&program(), &mut few, 5, &config()),
        Err(StakingError::NotEnoughAccountKeys)
    );
    let mut closed = fee_accounts(admin(), true, blank_pool());
    assert_eq!(
        process_change_airdrop_fee(&program(), &mut closed, 5, &config()),
        Err(StakingError::UninitializedAccount)
    );
    assert_eq!(closed.get(1).data, blank_pool().to_bytes());
    let mut foreign = fee_accounts(admin(), true, pool());
    assert_eq!(
        process_change_airdrop_fee(&key(8), &mut foreign, 5, &config()),
        Err(StakingError::IllegalOwner)
    );
    assert_eq!(foreign.get(1).data, pool().to_bytes());
    let mut garbled =
        Accounts::distinct(vec![wallet(admin(), true, 1_000), record(key(5), 0, vec![0; 49])]);
    assert_eq!(
        process_change_airdrop_fee(&program(), &mut garbled, 5, &config()),
        Err(StakingError::BorshIoError)
    );
}

// ---- requests as bytes

#[test]
fn process_instruction_reads_the_request() {
    let mut accounts = create_stake_accounts(vec![0; 49], pool());
    let mut data = vec![0u8];
    data.extend_from_slice(&3_000_000u64.to_le_bytes());
    let step = process_instruction(&program(), &mut accounts, &data, NOW, &config()).unwrap();
    assert_eq!(amount_of(transfer_of(&step)), 3_000_000);
    assert_eq!(pending_of(&step), Pending::CreateStake { stake: open_stake(3_000_000, NOW) });

    let mut accounts = end_stake_accounts(open_stake(2_160_000, NOW - 120), pool());
    let step = process_instruction(&program(), &mut accounts, &[1], NOW, &config()).unwrap();
    assert_eq!(amount_of(transfer_of(&step)), 2_160_002);

    let mut accounts = deposit_accounts(key(1), true, pool());
    let mut data = vec![2u8];
    data.extend_from_slice(&9u64.to_le_bytes());
    data.push(1);
    let step = process_instruction(&program(), &mut accounts, &data, NOW, &config()).unwrap();
    assert_eq!(
        pending_of(&step),
        Pending::AddToRewardsPool { rewards: pool(), amount: 9, airdrop: true }
    );

    let mut accounts = vote_accounts(key(1), true, ballot(), pool());
    let step = process_instruction(&program(), &mut accounts, &[3, 2], NOW, &config()).unwrap();
    assert_eq!(
        pending_of(&step),
        Pending::Vote { ballot: ballot(), rewards: pool(), selection: 2 }
    );

    let mut accounts = airdrop_accounts(1_000_000, 5, pool());
    let mut data = vec![4u8];
    data.extend_from_slice(&11u64.to_le_bytes());
    let step = process_instruction(&program(), &mut accounts, &data, NOW, &config()).unwrap();
    assert_eq!(pending_of(&step), Pending::Airdrop { rewards: pool(), amount: 11 });
}

#[test]
fn process_instruction_changes_the_fee_in_one_step() {
    let mut accounts = fee_accounts(admin(), true, pool());
    let mut data = vec![5u8];
    data.extend_from_slice(&123u64.to_le_bytes());
    assert_eq!(
        process_instruction(&program(), &mut accounts, &data, NOW, &config()),
        Ok(Step::Done)
    );
    assert_eq!(
        RewardsPool::try_from_slice(&accounts.get(1).data),
        Ok(RewardsPool { airdrop_fee: 123, ..pool() })
    );
}

#[test]
fn process_instruction_refuses_what_it_cannot_read() {
    let mut accounts = create_stake_accounts(vec![0; 49], pool());
    let before = snapshot(&accounts);
    for data in [vec![], vec![6u8], vec![0u8, 1, 2], vec![3u8]] {
        assert_eq!(
            process_instruction(&program(), &mut accounts, &data, NOW, &config()),
            Err(StakingError::InvalidInstructionData)
        );
    }
    assert_eq!(snapshot(&accounts), before);
}

#[test]
fn a_refused_request_is_refused_again_and_changes_nothing() {
    let mut data = vec![0u8];
    data.extend_from_slice(&999_999u64.to_le_bytes());
    let mut accounts = create_stake_accounts(vec![0; 49], pool());
    let before = snapshot(&accounts);
    let first = process_instruction(&program(), &mut accounts, &data, NOW, &config());
    let second = process_instruction(&program(), &mut accounts, &data, NOW, &config());
    assert_eq!(first, Err(StakingError::InvalidInstructionData));
    assert_eq!(second, first);
    assert_eq!(snapshot(&accounts), before);

    let mut accounts = fee_accounts(key(1), true, pool());
    let before = snapshot(&accounts);
    let mut data = vec![5u8];
    data.extend_from_slice(&1u64.to_le_bytes());
    let first = process_instruction(&program(), &mut accounts, &data, NOW, &config());
    let second = process_instruction(&program(), &mut accounts, &data, NOW, &config());
    assert_eq!(first, Err(StakingError::InvalidInstructionData));
    assert_eq!(second, first);
    assert_eq!(snapshot(&accounts), before);

    let mut accounts = vote_accounts(key(1), true, ballot(), pool());
    let before = snapshot(&accounts);
    let pending = Pending::Vote { ballot: ballot(), rewards: pool(), selection: 5 };
    let first = finish_instruction(&mut accounts, pending);
    let second = finish_instruction(&mut accounts, pending);
    assert_eq!(first, Err(StakingError::InvalidInstructionData));
    assert_eq!(second, first);
    assert_eq!(snapshot(&accounts), before);
}

#[test]
fn the_same_request_on_the_same_accounts_asks_for_the_same_transfer() {
    let accounts = end_stake_accounts(open_stake(2_160_000, NOW - 600), pool());
    let first = process_end_stake(&program(), &accounts, NOW, &config());
    let second = process_end_stake(&program(), &accounts, NOW, &config());
    assert!(first.is_ok());
    assert_eq!(first, second);
}

// ---- the books

#[test]
fn the_pool_counts_the_open_stakes_through_any_run_of_requests() {
    // four stake records, a pool, and requests that start and end stakes in turn,
    // some of which fail
    let mut stakes: Vec<Vec<u8>> = vec![vec![0; 49]; 4];
    let mut rewards = RewardsPool { total_coins_staked: 0, total_stakes_count: 0, ..pool() };
    let mut now = NOW;
    let mut seed: u64 = 0x2545_f491_4f6c_dd1d;
    for _ in 0..200 {
        seed ^= seed << 13;
        seed ^= seed >> 7;
        seed ^= seed << 17;
        let slot = (seed % 4) as usize;
        let start = (seed >> 8) % 2 == 0;
        let amount = 900_000 + (seed >> 16) % 10_000_000;
        now += ((seed >> 40) % 500) as i64;
        if start {
            let mut accounts = create_stake_accounts(stakes[slot].clone(), rewards);
            if let Ok(step) = process_create_stake(&program(), &accounts, amount, now, &config()) {
                if finish_instruction(&mut accounts, pending_of(&step)).is_ok() {
                    stakes[slot] = accounts.get(2).data.clone();
                    rewards = RewardsPool::try_from_slice(&accounts.get(5).data).unwrap();
                }
            }
        } else {
            let mut accounts = Accounts::distinct(vec![
                wallet(key(1), true, 1_000),
                wallet(key(2), false, 0),
                record(key(3), 500, stakes[slot].clone()),
                wallet(vault().address(), false, 0),
                wallet(vault().token_address(), false, 0),
                token_program(),
                record(key(5), 0, rewards.to_bytes()),
            ]);
            if let Ok(step) = process_end_stake(&program(), &accounts, now, &config()) {
                if finish_instruction(&mut accounts, pending_of(&step)).is_ok() {
                    stakes[slot] = accounts.get(2).data.clone();
                    rewards = RewardsPool::try_from_slice(&accounts.get(6).data).unwrap();
                }
            }
        }
        let open: Vec<Stake> = stakes
            .iter()
            .map(|data| Stake::try_from_slice(data).unwrap())
            .filter(|stake| stake.is_initialized)
            .collect();
        assert_eq!(rewards.total_stakes_count as usize, open.len());
        assert_eq!(rewards.total_coins_staked, open.iter().map(|stake| stake.amount).sum::<u64>());
    }
    assert!(rewards.amount < 1_000);
}
