//! What holds of the operations whatever the request and the accounts.

use crate::account::AccountsView;
use crate::bytes::u64_to_le;
use crate::config::{ConfigView, AIRDROP_MAX, BASE_COIN, COINS_FOR_1_INTEREST, VOTING_FEE};
use crate::error::StakingError;
use crate::instruction::Instruction;
use crate::ledger::Ledger;
use crate::processor::{
    add_to_rewards_pool_completion, add_to_rewards_pool_step, airdrop_completion, airdrop_step,
    change_airdrop_fee_completion, create_stake_completion, create_stake_step,
    end_stake_completion, end_stake_step, fee_moved, fee_taken, request_outcome, second_step,
    vote_completion, vote_step, Completion, PendingView, StepView,
};
use crate::rules::{
    lemma_no_reward_below_the_rate, lemma_no_reward_within_a_minute, lemma_payout_without_reward,
    reward,
};
use crate::state::{BallotView, RewardsPool, StakeView};
use crate::vault::{vault_binding, TOKEN_PROGRAM_ID};
use vstd::prelude::*;

verus! {

/// A stake that was started is on record: after both steps of starting a
/// stake, the stake's account holds an open stake of the amount asked for,
/// owned by the first account and started at the time of the request, and
/// the pool's account holds the pool with that stake counted.
pub proof fn lemma_started_stake_is_recorded(
    program_id: Seq<u8>,
    accounts: AccountsView,
    amount: u64,
    now: i64,
    config: ConfigView,
)
    requires
        accounts.wf(),
        create_stake_step(program_id, accounts, amount, now, config) is Ok,
        create_stake_completion(
            accounts,
            StakeView::started(accounts.at(0).key, amount, now),
        ).result is Ok,
    ensures
        ({
            let stake = StakeView::started(accounts.at(0).key, amount, now);
            let after = create_stake_completion(accounts, stake).accounts;
            let pool = RewardsPool::decode(accounts.at(5).data).unwrap();
            &&& amount >= BASE_COIN
            &&& create_stake_step(program_id, accounts, amount, now, config)
                ->Ok_0 matches StepView::Transfer { pending, .. }
            &&& pending == PendingView::CreateStake { stake }
            &&& stake.amount == amount && stake.time_started == now && stake.is_initialized
            &&& StakeView::decode(after.at(2).data) == Some(stake)
            &&& RewardsPool::decode(after.at(5).data) == pool.with_stake(amount)
            &&& after.wf() && after.len() == accounts.len()
        }),
{
    let stake = StakeView::started(accounts.at(0).key, amount, now);
    let pool = RewardsPool::decode(accounts.at(5).data).unwrap();
    let counted = pool.with_stake(amount).unwrap();
    let mid = accounts.with_record(5, counted.encode());
    let after = mid.with_record(2, stake.encode());
    assert(after == create_stake_completion(accounts, stake).accounts);
    stake.lemma_decode_encode();
    counted.lemma_decode_encode();
    assert(accounts.order[5] != accounts.order[2]);
    assert(accounts.at(5).data.skip(counted.encode().len() as int) =~= Seq::<u8>::empty());
    assert(mid.at(2).data.skip(stake.encode().len() as int) =~= Seq::<u8>::empty());
    assert(after.at(2).data =~= stake.encode());
    assert(after.at(5).data =~= counted.encode());
}

/// A stake ended is off record: after both steps of ending a stake, the
/// stake's account holds the stake as ended, free to be started again, and
/// the pool's account holds the pool as settled.
pub proof fn lemma_ended_stake_is_recorded(
    program_id: Seq<u8>,
    accounts: AccountsView,
    now: i64,
    config: ConfigView,
)
    requires
        accounts.wf(),
        end_stake_step(program_id, accounts, now, config) is Ok,
    ensures
        ({
            let stake = StakeView::decode(accounts.at(2).data).unwrap();
            let pool = RewardsPool::decode(accounts.at(6).data).unwrap();
            let settlement = pool.settled(stake.amount, stake.time_started, now);
            let after = end_stake_completion(accounts, settlement->Ok_0.pool, stake);
            &&& settlement is Ok
            &&& end_stake_step(program_id, accounts, now, config)
                ->Ok_0 matches StepView::Transfer { transfer, pending }
            &&& pending == PendingView::EndStake { rewards: settlement->Ok_0.pool, stake }
            &&& transfer.instruction.data == seq![3u8] + u64_to_le(settlement->Ok_0.payout)
            &&& after.result is Ok ==> {
                &&& StakeView::decode(after.accounts.at(2).data) == Some(stake.ended())
                &&& RewardsPool::decode(after.accounts.at(6).data) == Some(settlement->Ok_0.pool)
            }
        }),
{
    let stake = StakeView::decode(accounts.at(2).data).unwrap();
    let pool = RewardsPool::decode(accounts.at(6).data).unwrap();
    let settled = pool.settled(stake.amount, stake.time_started, now)->Ok_0.pool;
    let completion = end_stake_completion(accounts, settled, stake);
    if completion.result is Ok {
        let a1 = accounts.with_lamports(
            0,
            (accounts.at(0).lamports + accounts.at(2).lamports) as u64,
        );
        let a2 = a1.with_lamports(2, 0);
        let a3 = a2.with_record(6, settled.encode());
        let a4 = a3.with_record(2, stake.ended().encode());
        assert(a4 == completion.accounts);
        StakeView::lemma_encode_decode(accounts.at(2).data);
        stake.ended().lemma_decode_encode();
        settled.lemma_decode_encode();
        assert(accounts.order[6] != accounts.order[2]);
        assert(a2.at(6).data == accounts.at(6).data);
        assert(a2.at(2).data == accounts.at(2).data);
        assert(a2.at(6).data.skip(settled.encode().len() as int) =~= Seq::<u8>::empty());
        assert(a3.at(2).data.skip(stake.ended().encode().len() as int) =~= Seq::<u8>::empty());
        assert(a4.at(2).data =~= stake.ended().encode());
        assert(a4.at(6).data =~= settled.encode());
    }
}

/// A deposit is on record: after both steps of a deposit, the pool's account
/// holds the pool, opened if it was not open, with the amount added to the
/// airdrop supply or to the rewards as the request said.
pub proof fn lemma_deposit_is_recorded(
    program_id: Seq<u8>,
    accounts: AccountsView,
    amount: u64,
    airdrop: bool,
    config: ConfigView,
)
    requires
        accounts.wf(),
        add_to_rewards_pool_step(program_id, accounts, amount, airdrop, config) is Ok,
    ensures
        ({
            let read = RewardsPool::decode(accounts.at(4).data).unwrap();
            let pool = if read.is_initialized {
                read
            } else {
                read.bootstrapped()
            };
            let after = add_to_rewards_pool_completion(accounts, pool, amount, airdrop);
            &&& add_to_rewards_pool_step(program_id, accounts, amount, airdrop, config)
                ->Ok_0 matches StepView::Transfer { transfer, pending }
            &&& pending == PendingView::AddToRewardsPool { rewards: pool, amount, airdrop }
            &&& transfer.instruction.data == seq![3u8] + u64_to_le(amount)
            &&& after.result is Ok <==> pool.with_deposit(amount, airdrop) is Some
            &&& after.result is Ok ==> RewardsPool::decode(after.accounts.at(4).data)
                == pool.with_deposit(amount, airdrop)
        }),
{
    let read = RewardsPool::decode(accounts.at(4).data).unwrap();
    let pool = if read.is_initialized {
        read
    } else {
        read.bootstrapped()
    };
    if pool.with_deposit(amount, airdrop) is Some {
        let funded = pool.with_deposit(amount, airdrop).unwrap();
        funded.lemma_decode_encode();
        let after = accounts.with_record(4, funded.encode());
        assert(accounts.at(4).data.skip(funded.encode().len() as int) =~= Seq::<u8>::empty());
        assert(after.at(4).data =~= funded.encode());
    }
}

/// A vote is on record: after both steps of a vote for one of the five
/// options, the ballot's account holds the ballot, opened if it was not
/// open, with that option's tally one higher and the others as they were,
/// and the pool's account holds the pool with the voting fee added to its
/// rewards.
pub proof fn lemma_vote_is_recorded(
    program_id: Seq<u8>,
    accounts: AccountsView,
    selection: u8,
    config: ConfigView,
)
    requires
        accounts.wf(),
        vote_step(program_id, accounts, selection, config) is Ok,
        vote_completion(
            accounts,
            BallotView::decode(accounts.at(2).data).unwrap().bootstrapped(),
            RewardsPool::decode(accounts.at(5).data).unwrap(),
            selection,
        ).result is Ok,
    ensures
        ({
            let ballot = BallotView::decode(accounts.at(2).data).unwrap();
            let pool = RewardsPool::decode(accounts.at(5).data).unwrap();
            let after = vote_completion(accounts, ballot.bootstrapped(), pool, selection).accounts;
            &&& vote_step(program_id, accounts, selection, config)
                ->Ok_0 matches StepView::Transfer { transfer, pending }
            &&& pending == PendingView::Vote {
                ballot: ballot.bootstrapped(),
                rewards: pool,
                selection,
            }
            &&& transfer.instruction.data == seq![3u8] + u64_to_le(VOTING_FEE)
            &&& selection < 5
            &&& BallotView::decode(after.at(2).data) matches Some(counted)
            &&& counted.is_initialized
            &&& counted.choices == ballot.choices.update(
                selection as int,
                (ballot.choices[selection as int] + 1) as u32,
            )
            &&& RewardsPool::decode(after.at(5).data) == Some(
                RewardsPool { amount: (pool.amount + VOTING_FEE) as u64, ..pool },
            )
        }),
{
    let ballot = BallotView::decode(accounts.at(2).data).unwrap();
    let pool = RewardsPool::decode(accounts.at(5).data).unwrap();
    let counted = ballot.bootstrapped().with_vote(selection)->Ok_0;
    let funded = pool.with_deposit(VOTING_FEE, false).unwrap();
    BallotView::lemma_encode_decode(accounts.at(2).data);
    counted.lemma_decode_encode();
    funded.lemma_decode_encode();
    let mid = accounts.with_record(2, counted.encode());
    let after = mid.with_record(5, funded.encode());
    assert(accounts.order[2] != accounts.order[5]);
    assert(accounts.at(2).data.skip(counted.encode().len() as int) =~= Seq::<u8>::empty());
    assert(mid.at(5).data.skip(funded.encode().len() as int) =~= Seq::<u8>::empty());
    assert(after.at(2).data =~= counted.encode());
    assert(after.at(5).data =~= funded.encode());
}

/// An airdrop is on record: after both steps of an airdrop, the fee has gone
/// from the recipient to the treasury and the pool's account holds the pool
/// with the amount taken from the airdrop supply. The second step goes
/// through only for an amount within the cap and within the supply.
pub proof fn lemma_airdrop_is_recorded(
    program_id: Seq<u8>,
    accounts: AccountsView,
    amount: u64,
    config: ConfigView,
)
    requires
        accounts.wf(),
        airdrop_step(program_id, accounts, amount, config) is Ok,
        airdrop_completion(
            accounts,
            RewardsPool::decode(accounts.at(5).data).unwrap(),
            amount,
        ).result is Ok,
    ensures
        ({
            let pool = RewardsPool::decode(accounts.at(5).data).unwrap();
            let after = airdrop_completion(accounts, pool, amount).accounts;
            &&& airdrop_step(program_id, accounts, amount, config)
                ->Ok_0 matches StepView::Transfer { transfer, pending }
            &&& pending == PendingView::Airdrop { rewards: pool, amount }
            &&& transfer.instruction.data == seq![3u8] + u64_to_le(amount)
            &&& amount <= AIRDROP_MAX
            &&& amount <= pool.airdrop_supply
            &&& RewardsPool::decode(after.at(5).data) == Some(
                RewardsPool { airdrop_supply: (pool.airdrop_supply - amount) as u64, ..pool },
            )
            &&& after == fee_moved(accounts, 0, 6, pool.airdrop_fee).with_record(
                5,
                after.at(5).data,
            )
        }),
{
    let pool = RewardsPool::decode(accounts.at(5).data).unwrap();
    let left = pool.after_airdrop(amount)->Ok_0;
    left.lemma_decode_encode();
    let moved = fee_moved(accounts, 0, 6, pool.airdrop_fee);
    let after = moved.with_record(5, left.encode());
    assert(moved.at(5).data == accounts.at(5).data);
    assert(moved.at(5).data.skip(left.encode().len() as int) =~= Seq::<u8>::empty());
    assert(after.at(5).data =~= left.encode());
    assert(after.at(5).data.skip(after.at(5).data.len() as int) =~= Seq::<u8>::empty());
    assert(after.at(5).data + Seq::<u8>::empty() =~= after.at(5).data);
}

/// A change of the airdrop fee is on record: where it goes through, the
/// pool's account holds the pool with the fee asked for, whatever it is, and
/// nothing else has changed.
pub proof fn lemma_fee_change_is_recorded(
    program_id: Seq<u8>,
    accounts: AccountsView,
    fee: u64,
    config: ConfigView,
)
    requires
        accounts.wf(),
        change_airdrop_fee_completion(program_id, accounts, fee, config).result is Ok,
    ensures
        ({
            let pool = RewardsPool::decode(accounts.at(1).data).unwrap();
            let after = change_airdrop_fee_completion(program_id, accounts, fee, config).accounts;
            &&& accounts.at(0).key == config.admin && accounts.at(0).is_signer
            &&& RewardsPool::decode(after.at(1).data) == Some(
                RewardsPool { airdrop_fee: fee, ..pool },
            )
            &&& after == accounts.with_record(1, after.at(1).data)
        }),
{
    let pool = RewardsPool::decode(accounts.at(1).data).unwrap();
    let changed = pool.with_airdrop_fee(fee);
    changed.lemma_decode_encode();
    let after = accounts.with_record(1, changed.encode());
    assert(accounts.at(1).data.skip(changed.encode().len() as int) =~= Seq::<u8>::empty());
    assert(after.at(1).data =~= changed.encode());
    assert(after.at(1).data + Seq::<u8>::empty() =~= after.at(1).data);
}

/// A stake cannot be started twice: once a stake is on record, another
/// request to start one on the same account is refused because the record is
/// taken, whoever asks and for whatever amount of a token or more.
pub proof fn lemma_open_stake_cannot_be_started_again(
    program_id: Seq<u8>,
    accounts: AccountsView,
    amount: u64,
    now: i64,
    config: ConfigView,
)
    requires
        accounts.len() >= 6,
        amount >= BASE_COIN,
        StakeView::decode(accounts.at(2).data) is Some,
        StakeView::decode(accounts.at(2).data).unwrap().is_initialized,
    ensures
        create_stake_step(program_id, accounts, amount, now, config) == Err::<
            StepView,
            StakingError,
        >(StakingError::AccountAlreadyInitialized),
{
}

/// A stake cannot be started twice: after both steps of starting a stake,
/// any further request to start one on the same account, of a token or
/// more, is refused because the record is taken.
pub proof fn lemma_stake_cannot_be_started_twice(
    program_id: Seq<u8>,
    accounts: AccountsView,
    amount: u64,
    now: i64,
    config: ConfigView,
    second_amount: u64,
    second_now: i64,
)
    requires
        accounts.wf(),
        create_stake_step(program_id, accounts, amount, now, config) is Ok,
        create_stake_completion(
            accounts,
            StakeView::started(accounts.at(0).key, amount, now),
        ).result is Ok,
        second_amount >= BASE_COIN,
    ensures
        create_stake_step(
            program_id,
            create_stake_completion(
                accounts,
                StakeView::started(accounts.at(0).key, amount, now),
            ).accounts,
            second_amount,
            second_now,
            config,
        ) == Err::<StepView, StakingError>(StakingError::AccountAlreadyInitialized),
{
    lemma_started_stake_is_recorded(program_id, accounts, amount, now, config);
    let after = create_stake_completion(
        accounts,
        StakeView::started(accounts.at(0).key, amount, now),
    ).accounts;
    lemma_open_stake_cannot_be_started_again(program_id, after, second_amount, second_now, config);
}

/// A stake ended within a minute of its start, or one that holds less than
/// `COINS_FOR_1_INTEREST`, is paid back and no more: the transfer asked for
/// is of the staked amount exactly, and the pool's rewards are untouched.
pub proof fn lemma_end_stake_without_reward_pays_the_stake(
    program_id: Seq<u8>,
    accounts: AccountsView,
    now: i64,
    config: ConfigView,
)
    requires
        end_stake_step(program_id, accounts, now, config) is Ok,
        ({
            let stake = StakeView::decode(accounts.at(2).data).unwrap();
            0 <= now - stake.time_started < 60 || stake.amount < COINS_FOR_1_INTEREST
        }),
    ensures
        ({
            let stake = StakeView::decode(accounts.at(2).data).unwrap();
            let pool = RewardsPool::decode(accounts.at(6).data).unwrap();
            &&& reward(stake.amount, stake.time_started, now) == 0
            &&& end_stake_step(program_id, accounts, now, config)
                ->Ok_0 matches StepView::Transfer { transfer, pending }
            &&& transfer.instruction.data == seq![3u8] + u64_to_le(stake.amount)
            &&& pending matches PendingView::EndStake { rewards, .. }
            &&& rewards.amount == pool.amount
        }),
{
    let stake = StakeView::decode(accounts.at(2).data).unwrap();
    let pool = RewardsPool::decode(accounts.at(6).data).unwrap();
    lemma_payout_without_reward(pool, stake.amount, stake.time_started, now);
    if stake.amount < COINS_FOR_1_INTEREST {
        lemma_no_reward_below_the_rate(stake.amount, stake.time_started, now);
    } else {
        lemma_no_reward_within_a_minute(stake.amount, stake.time_started, now);
    }
}

/// Only the owner ends a stake: the first step of ending a stake goes
/// through only where the first account has signed and is the owner that
/// the stake record names.
pub proof fn lemma_only_the_owner_ends_a_stake(
    program_id: Seq<u8>,
    accounts: AccountsView,
    now: i64,
    config: ConfigView,
)
    requires
        end_stake_step(program_id, accounts, now, config) is Ok,
    ensures
        accounts.at(0).is_signer,
        StakeView::decode(accounts.at(2).data) matches Some(stake) && stake.is_initialized
            && stake.owner == accounts.at(0).key && stake.time_started <= now,
        accounts.at(6).owner == program_id,
{
}

/// Starting a stake does to the books what a request to start a stake
/// does: the pool and the stake record that the accounts hold after both
/// steps are those that the books hold after the request.
pub proof fn lemma_starting_a_stake_keeps_the_books(
    program_id: Seq<u8>,
    accounts: AccountsView,
    amount: u64,
    now: i64,
    config: ConfigView,
)
    requires
        accounts.wf(),
        create_stake_step(program_id, accounts, amount, now, config) is Ok,
        create_stake_completion(
            accounts,
            StakeView::started(accounts.at(0).key, amount, now),
        ).result is Ok,
    ensures
        ({
            let after = create_stake_completion(
                accounts,
                StakeView::started(accounts.at(0).key, amount, now),
            ).accounts;
            let books = Ledger {
                pool: RewardsPool::decode(accounts.at(5).data).unwrap(),
                stakes: seq![StakeView::decode(accounts.at(2).data).unwrap()],
            };
            &&& RewardsPool::decode(after.at(5).data) is Some
            &&& StakeView::decode(after.at(2).data) is Some
            &&& books.create_stake(0, accounts.at(0).key, amount, now) == (Ledger {
                pool: RewardsPool::decode(after.at(5).data).unwrap(),
                stakes: seq![StakeView::decode(after.at(2).data).unwrap()],
            })
        }),
{
    lemma_started_stake_is_recorded(program_id, accounts, amount, now, config);
    let stake = StakeView::started(accounts.at(0).key, amount, now);
    let before = StakeView::decode(accounts.at(2).data).unwrap();
    assert(seq![before].update(0, stake) =~= seq![stake]);
}

/// Ending a stake does to the books what a request to end a stake does: the
/// pool and the stake record that the accounts hold after both steps are
/// those that the books hold after the request.
pub proof fn lemma_ending_a_stake_keeps_the_books(
    program_id: Seq<u8>,
    accounts: AccountsView,
    now: i64,
    config: ConfigView,
)
    requires
        accounts.wf(),
        end_stake_step(program_id, accounts, now, config) is Ok,
        ({
            let stake = StakeView::decode(accounts.at(2).data).unwrap();
            let pool = RewardsPool::decode(accounts.at(6).data).unwrap();
            end_stake_completion(
                accounts,
                pool.settled(stake.amount, stake.time_started, now)->Ok_0.pool,
                stake,
            ).result is Ok
        }),
    ensures
        ({
            let stake = StakeView::decode(accounts.at(2).data).unwrap();
            let pool = RewardsPool::decode(accounts.at(6).data).unwrap();
            let after = end_stake_completion(
                accounts,
                pool.settled(stake.amount, stake.time_started, now)->Ok_0.pool,
                stake,
            ).accounts;
            let books = Ledger { pool, stakes: seq![stake] };
            &&& RewardsPool::decode(after.at(6).data) is Some
            &&& StakeView::decode(after.at(2).data) is Some
            &&& books.end_stake(0, now) == (Ledger {
                pool: RewardsPool::decode(after.at(6).data).unwrap(),
                stakes: seq![StakeView::decode(after.at(2).data).unwrap()],
            })
        }),
{
    lemma_ended_stake_is_recorded(program_id, accounts, now, config);
    let stake = StakeView::decode(accounts.at(2).data).unwrap();
    assert(seq![stake].update(0, stake.ended()) =~= seq![stake.ended()]);
}

/// A vote counts once: a vote for one of the five options raises that
/// option's tally by exactly one and leaves the other four as they were; a
/// selection that is no option is refused.
pub proof fn lemma_vote_counts_once(ballot: BallotView, selection: u8)
    requires
        ballot.wf(),
    ensures
        selection >= 5 ==> ballot.with_vote(selection) == Err::<BallotView, StakingError>(
            StakingError::InvalidInstructionData,
        ),
        selection < 5 && ballot.choices[selection as int] < u32::MAX ==> {
            let counted = ballot.with_vote(selection);
            &&& counted is Ok
            &&& counted->Ok_0.wf()
            &&& counted->Ok_0.is_initialized == ballot.is_initialized
            &&& counted->Ok_0.choices[selection as int] == ballot.choices[selection as int] + 1
            &&& forall|other: int|
                0 <= other < 5 && other != selection ==> counted->Ok_0.choices[other]
                    == ballot.choices[other]
        },
{
}

/// A vote refused for its selection writes nothing: the second step of a
/// vote for a selection that is no option leaves every account as it was.
pub proof fn lemma_vote_for_no_option_changes_nothing(
    accounts: AccountsView,
    ballot: BallotView,
    rewards: RewardsPool,
    selection: u8,
)
    requires
        selection >= 5,
    ensures
        vote_completion(accounts, ballot, rewards, selection).result is Err,
        vote_completion(accounts, ballot, rewards, selection).accounts == accounts,
        accounts.len() >= 6 ==> vote_completion(accounts, ballot, rewards, selection).result
            == Err::<(), StakingError>(StakingError::InvalidInstructionData),
{
}

/// An airdrop above the cap never goes through, and the pool is not
/// written. Where the fee could be moved, the refusal is
/// `InvalidInstructionData`.
pub proof fn lemma_airdrop_above_the_cap_is_refused(
    accounts: AccountsView,
    rewards: RewardsPool,
    amount: u64,
)
    requires
        accounts.wf(),
        amount > AIRDROP_MAX,
    ensures
        airdrop_completion(accounts, rewards, amount).result is Err,
        airdrop_completion(accounts, rewards, amount).accounts.same_data(accounts),
        accounts.len() >= 7 && accounts.at(0).lamports >= rewards.airdrop_fee && fee_taken(
            accounts,
            0,
            rewards.airdrop_fee,
        ).at(6).lamports + rewards.airdrop_fee <= u64::MAX ==> airdrop_completion(
            accounts,
            rewards,
            amount,
        ) == (Completion {
            accounts: fee_moved(accounts, 0, 6, rewards.airdrop_fee),
            result: Err(StakingError::InvalidInstructionData),
        }),
{
    if accounts.len() >= 7 {
        lemma_fee_keeps_the_data(accounts, rewards.airdrop_fee);
    }
}

/// Moving the airdrop fee changes balances only.
proof fn lemma_fee_keeps_the_data(accounts: AccountsView, fee: u64)
    requires
        accounts.wf(),
        accounts.len() >= 7,
    ensures
        fee_taken(accounts, 0, fee).same_data(accounts),
        fee_moved(accounts, 0, 6, fee).same_data(accounts),
{
}

/// A request that is refused has changed nothing: where the first step of a
/// request fails, it leaves every account as it was.
pub proof fn lemma_refused_request_changes_nothing(
    program_id: Seq<u8>,
    accounts: AccountsView,
    instruction_data: Seq<u8>,
    now: i64,
    config: ConfigView,
)
    requires
        request_outcome(program_id, accounts, instruction_data, now, config).result is Err,
    ensures
        request_outcome(program_id, accounts, instruction_data, now, config).accounts == accounts,
{
}

/// A first step that asks for a transfer has written nothing yet.
pub proof fn lemma_nothing_is_written_before_the_transfer(
    program_id: Seq<u8>,
    accounts: AccountsView,
    instruction_data: Seq<u8>,
    now: i64,
    config: ConfigView,
)
    requires
        request_outcome(program_id, accounts, instruction_data, now, config).result
            matches Ok(StepView::Transfer { .. }),
    ensures
        request_outcome(program_id, accounts, instruction_data, now, config).accounts == accounts,
{
}

/// No record is written by an operation that fails: where the second step
/// fails, every account holds the bytes it held. Only an airdrop that fails
/// late has changed anything at all, namely the balances between which the
/// fee moved; every other operation leaves the accounts as they were.
pub proof fn lemma_failure_keeps_the_records(accounts: AccountsView, pending: PendingView)
    requires
        accounts.wf(),
        second_step(accounts, pending).result is Err,
    ensures
        second_step(accounts, pending).accounts.same_data(accounts),
        !(pending is Airdrop) ==> second_step(accounts, pending).accounts == accounts,
{
    if pending is Airdrop && accounts.len() >= 7 {
        lemma_fee_keeps_the_data(accounts, pending->Airdrop_rewards.airdrop_fee);
    }
}

/// A refused request, made again, is refused again, for the same reason and
/// again without a change: the first step depends on nothing but the
/// request, the time and the accounts, and a refusal leaves the accounts as
/// they were.
pub proof fn lemma_refused_request_repeats(
    program_id: Seq<u8>,
    accounts: AccountsView,
    instruction_data: Seq<u8>,
    now: i64,
    config: ConfigView,
)
    requires
        request_outcome(program_id, accounts, instruction_data, now, config).result is Err,
    ensures
        ({
            let first = request_outcome(program_id, accounts, instruction_data, now, config);
            let second = request_outcome(
                program_id,
                first.accounts,
                instruction_data,
                now,
                config,
            );
            second == first && second.accounts == accounts
        }),
{
}

/// A second step that failed, taken again, fails again, for the same reason
/// and again without a change. This holds of every operation but the
/// airdrop, whose second step may have moved the fee before it failed.
pub proof fn lemma_failed_second_step_repeats(accounts: AccountsView, pending: PendingView)
    requires
        !(pending is Airdrop),
        second_step(accounts, pending).result is Err,
    ensures
        ({
            let first = second_step(accounts, pending);
            let second = second_step(first.accounts, pending);
            second == first && second.accounts == accounts
        }),
{
}

/// Tokens move through the vault and nowhere else: whatever request the
/// first step lets through, the transfer it asks for is one of the token
/// program, and either its destination is the vault of this program and the
/// authority's own signature stands for it, or its source is that vault and
/// the program signs with the vault's bump seed.
pub proof fn lemma_tokens_move_through_the_vault(
    program_id: Seq<u8>,
    accounts: AccountsView,
    instruction_data: Seq<u8>,
    now: i64,
    config: ConfigView,
)
    requires
        request_outcome(program_id, accounts, instruction_data, now, config).result
            matches Ok(StepView::Transfer { .. }),
    ensures
        ({
            let step = request_outcome(program_id, accounts, instruction_data, now, config).result
                ->Ok_0;
            let vault = vault_binding(program_id, config.mint);
            &&& vault is Some
            &&& step matches StepView::Transfer { transfer, .. }
            &&& transfer.instruction.program_id == TOKEN_PROGRAM_ID@
            &&& transfer.instruction.accounts.len() == 4
            &&& transfer.accounts.len() == 4
            &&& transfer.bump_seed is None ==> transfer.instruction.accounts[1].pubkey
                == vault.unwrap().token_address
            &&& transfer.bump_seed is Some ==> transfer.bump_seed == Some(vault.unwrap().bump_seed)
                && transfer.instruction.accounts[0].pubkey == vault.unwrap().token_address
            &&& match Instruction::parse(instruction_data).unwrap() {
                Instruction::EndStake | Instruction::Airdrop { .. } => transfer.bump_seed is Some,
                _ => transfer.bump_seed is None,
            }
        }),
{
}

/// Only the administrator opens the pool and the ballot: a deposit into a
/// pool that is not open, and a vote on a ballot that is not open, go
/// through only where the first account is the administrator's and has
/// signed.
pub proof fn lemma_only_the_administrator_opens(
    program_id: Seq<u8>,
    accounts: AccountsView,
    amount: u64,
    airdrop: bool,
    selection: u8,
    config: ConfigView,
)
    ensures
        add_to_rewards_pool_step(program_id, accounts, amount, airdrop, config) is Ok
            && !RewardsPool::decode(accounts.at(4).data).unwrap().is_initialized
            ==> accounts.at(0).key == config.admin && accounts.at(0).is_signer,
        vote_step(program_id, accounts, selection, config) is Ok && !BallotView::decode(
            accounts.at(2).data,
        ).unwrap().is_initialized ==> accounts.at(0).key == config.admin && accounts.at(
            0,
        ).is_signer,
{
}

/// No step moves, adds, removes or resizes an account: whatever a first or
/// a second step does, every account keeps its place, its address, its
/// owner and the length of its data. Balances and bytes alone change.
pub proof fn lemma_steps_keep_the_shape(
    program_id: Seq<u8>,
    accounts: AccountsView,
    instruction_data: Seq<u8>,
    now: i64,
    config: ConfigView,
    pending: PendingView,
)
    requires
        accounts.wf(),
        pending.wf(),
    ensures
        request_outcome(program_id, accounts, instruction_data, now, config).accounts.same_shape(
            accounts,
        ),
        second_step(accounts, pending).accounts.same_shape(accounts),
{
    let first = request_outcome(program_id, accounts, instruction_data, now, config).accounts;
    if first != accounts {
        let fee = Instruction::parse(instruction_data).unwrap()->fee;
        let changed = RewardsPool::decode(accounts.at(1).data).unwrap().with_airdrop_fee(fee);
        changed.lemma_decode_encode();
        lemma_record_keeps_the_shape(accounts, 1, changed.encode());
    }
    lemma_second_step_keeps_the_shape(accounts, pending);
}

/// Writing a record that fits keeps the shape.
proof fn lemma_record_keeps_the_shape(accounts: AccountsView, place: int, bytes: Seq<u8>)
    requires
        accounts.wf(),
        0 <= place < accounts.len(),
        bytes.len() <= accounts.at(place).data.len(),
    ensures
        accounts.with_record(place, bytes).same_shape(accounts),
        accounts.with_record(place, bytes).wf(),
{
}

/// Setting a balance keeps the shape.
proof fn lemma_balance_keeps_the_shape(accounts: AccountsView, place: int, lamports: u64)
    requires
        accounts.wf(),
        0 <= place < accounts.len(),
    ensures
        accounts.with_lamports(place, lamports).same_shape(accounts),
        accounts.with_lamports(place, lamports).wf(),
{
}

/// The second step keeps the shape.
proof fn lemma_second_step_keeps_the_shape(accounts: AccountsView, pending: PendingView)
    requires
        accounts.wf(),
        pending.wf(),
    ensures
        second_step(accounts, pending).accounts.same_shape(accounts),
{
    let after = second_step(accounts, pending).accounts;
    if after != accounts {
        match pending {
            PendingView::CreateStake { stake } => {
                let pool = RewardsPool::decode(accounts.at(5).data).unwrap();
                let counted = pool.with_stake(stake.amount).unwrap();
                counted.lemma_decode_encode();
                stake.lemma_decode_encode();
                lemma_record_keeps_the_shape(accounts, 5, counted.encode());
                let a1 = accounts.with_record(5, counted.encode());
                lemma_record_keeps_the_shape(a1, 2, stake.encode());
            },
            PendingView::EndStake { rewards, stake } => {
                rewards.lemma_decode_encode();
                stake.ended().lemma_decode_encode();
                let sum = (accounts.at(0).lamports + accounts.at(2).lamports) as u64;
                lemma_balance_keeps_the_shape(accounts, 0, sum);
                let a1 = accounts.with_lamports(0, sum);
                lemma_balance_keeps_the_shape(a1, 2, 0);
                let a2 = a1.with_lamports(2, 0);
                lemma_record_keeps_the_shape(a2, 6, rewards.encode());
                let a3 = a2.with_record(6, rewards.encode());
                lemma_record_keeps_the_shape(a3, 2, stake.ended().encode());
            },
            PendingView::AddToRewardsPool { rewards, amount, airdrop } => {
                let funded = rewards.with_deposit(amount, airdrop).unwrap();
                funded.lemma_decode_encode();
                lemma_record_keeps_the_shape(accounts, 4, funded.encode());
            },
            PendingView::Vote { ballot, rewards, selection } => {
                let counted = ballot.with_vote(selection)->Ok_0;
                let funded = rewards.with_deposit(VOTING_FEE, false).unwrap();
                counted.lemma_decode_encode();
                funded.lemma_decode_encode();
                lemma_record_keeps_the_shape(accounts, 2, counted.encode());
                let a1 = accounts.with_record(2, counted.encode());
                lemma_record_keeps_the_shape(a1, 5, funded.encode());
            },
            PendingView::Airdrop { rewards, amount } => {
                let fee = rewards.airdrop_fee;
                lemma_balance_keeps_the_shape(accounts, 0, (accounts.at(0).lamports - fee) as u64);
                let a1 = fee_taken(accounts, 0, fee);
                lemma_balance_keeps_the_shape(a1, 6, (a1.at(6).lamports + fee) as u64);
                let a2 = fee_moved(accounts, 0, 6, fee);
                if after != a1 && after != a2 {
                    let left = rewards.after_airdrop(amount)->Ok_0;
                    left.lemma_decode_encode();
                    lemma_record_keeps_the_shape(a2, 5, left.encode());
                }
            },
        }
    }
}

} // verus!
