//! What each operation does to the records: how a stake starts and ends and
//! what it earns, what the pool takes in and hands out, how a vote counts.
//! Every sum is checked: a counter that would leave its range stops the
//! operation, it never wraps.

use crate::address::Address;
use crate::config::{
    AIRDROP_MAX, COINS_FOR_1_INTEREST, DEFAULT_AIRDROP_COST, SECONDS_PER_MINUTE,
};
use crate::error::StakingError;
use crate::state::{Ballot, BallotView, RewardsPool, Stake, StakeView};
use vstd::prelude::*;

verus! {

/// Whole minutes from `started` to `now`; a part of a minute counts for
/// nothing.
pub open spec fn minutes_elapsed(started: i64, now: i64) -> int {
    (now - started) / (SECONDS_PER_MINUTE as int)
}

/// What a stake of `amount` earns from `started` to `now`: one base unit a
/// minute for each whole `COINS_FOR_1_INTEREST` that it holds. A stake below
/// that earns nothing, however long it stands.
pub open spec fn reward(amount: u64, started: i64, now: i64) -> int {
    (amount / COINS_FOR_1_INTEREST) * minutes_elapsed(started, now)
}

/// What ending a stake comes to: the tokens paid out and the pool afterwards.
#[derive(Clone, Copy, Debug, PartialEq, Eq)]
pub struct Settlement {
    /// Tokens that go back to the depositor.
    pub payout: u64,
    /// The pool after the stake has left it.
    pub pool: RewardsPool,
}

impl StakeView {
    /// The stake of `amount` that `owner` starts at `now`.
    pub open spec fn started(owner: Seq<u8>, amount: u64, now: i64) -> StakeView {
        StakeView { is_initialized: true, owner, amount, time_started: now }
    }

    /// The record after the stake has ended: free to hold another.
    pub open spec fn ended(self) -> StakeView {
        StakeView { is_initialized: false, ..self }
    }
}

impl Stake {
    /// The stake of `amount` that `owner` starts at `now`.
    pub fn start(owner: Address, amount: u64, now: i64) -> (r: Stake)
        ensures
            r@ == StakeView::started(owner@, amount, now),
    {
        Stake { is_initialized: true, owner, amount, time_started: now }
    }

    /// The record after the stake has ended.
    pub fn end(self) -> (r: Stake)
        ensures
            r@ == self@.ended(),
    {
        Stake { is_initialized: false, ..self }
    }
}

impl RewardsPool {
    /// The pool as the administrator's first deposit opens it.
    pub open spec fn bootstrapped(self) -> RewardsPool {
        RewardsPool { is_initialized: true, airdrop_fee: DEFAULT_AIRDROP_COST, ..self }
    }

    /// The pool after a stake of `amount` has started; nothing where the
    /// count or the total would leave its range.
    pub open spec fn with_stake(self, amount: u64) -> Option<RewardsPool> {
        if self.total_stakes_count < u32::MAX && self.total_coins_staked + amount <= u64::MAX {
            Some(
                RewardsPool {
                    total_stakes_count: (self.total_stakes_count + 1) as u32,
                    total_coins_staked: (self.total_coins_staked + amount) as u64,
                    ..self
                },
            )
        } else {
            None
        }
    }

    /// What ending at `now` a stake of `amount` started at `started` comes to.
    /// The reward is paid in full where the pool's rewards cover it, and else
    /// not at all: the depositor then gets the stake back and no more, and
    /// the rewards stay as they are.
    pub open spec fn settled(self, amount: u64, started: i64, now: i64) -> Result<
        Settlement,
        StakingError,
    > {
        let earned = reward(amount, started, now);
        let paid = if self.amount >= earned {
            earned
        } else {
            0
        };
        if now < started {
            Err(StakingError::InvalidInstructionData)
        } else if now - started > i64::MAX || earned > u64::MAX || amount + paid > u64::MAX
            || self.total_stakes_count == 0 || self.total_coins_staked < amount {
            Err(StakingError::InsufficientFunds)
        } else {
            Ok(
                Settlement {
                    payout: (amount + paid) as u64,
                    pool: RewardsPool {
                        amount: (self.amount - paid) as u64,
                        total_stakes_count: (self.total_stakes_count - 1) as u32,
                        total_coins_staked: (self.total_coins_staked - amount) as u64,
                        ..self
                    },
                },
            )
        }
    }

    /// The pool after `amount` tokens are given to it: to the airdrop supply
    /// if `airdrop` is set, else to the rewards. Nothing where the balance
    /// would leave its range.
    pub open spec fn with_deposit(self, amount: u64, airdrop: bool) -> Option<RewardsPool> {
        if airdrop {
            if self.airdrop_supply + amount <= u64::MAX {
                Some(RewardsPool { airdrop_supply: (self.airdrop_supply + amount) as u64, ..self })
            } else {
                None
            }
        } else {
            if self.amount + amount <= u64::MAX {
                Some(RewardsPool { amount: (self.amount + amount) as u64, ..self })
            } else {
                None
            }
        }
    }

    /// The pool after an airdrop of `amount`: refused above `AIRDROP_MAX`,
    /// and refused where the airdrop supply does not hold `amount`.
    pub open spec fn after_airdrop(self, amount: u64) -> Result<RewardsPool, StakingError> {
        if amount > AIRDROP_MAX {
            Err(StakingError::InvalidInstructionData)
        } else if self.airdrop_supply < amount {
            Err(StakingError::InsufficientFunds)
        } else {
            Ok(RewardsPool { airdrop_supply: (self.airdrop_supply - amount) as u64, ..self })
        }
    }

    /// The pool with another airdrop fee.
    pub open spec fn with_airdrop_fee(self, fee: u64) -> RewardsPool {
        RewardsPool { airdrop_fee: fee, ..self }
    }

    /// Opens the pool, with the airdrop fee it starts with.
    pub fn bootstrap(self) -> (r: RewardsPool)
        ensures
            r == self.bootstrapped(),
    {
        RewardsPool { is_initialized: true, airdrop_fee: DEFAULT_AIRDROP_COST, ..self }
    }

    /// Counts a stake of `amount` that has started.
    pub fn add_stake(self, amount: u64) -> (r: Result<RewardsPool, StakingError>)
        ensures
            r == (match self.with_stake(amount) {
                Some(pool) => Ok::<RewardsPool, StakingError>(pool),
                None => Err::<RewardsPool, StakingError>(StakingError::InsufficientFunds),
            }),
    {
        let count: u32 = match self.total_stakes_count.checked_add(1) {
            Some(count) => count,
            None => {
                return Err(StakingError::InsufficientFunds);
            },
        };
        let total: u64 = match self.total_coins_staked.checked_add(amount) {
            Some(total) => total,
            None => {
                return Err(StakingError::InsufficientFunds);
            },
        };
        Ok(RewardsPool { total_stakes_count: count, total_coins_staked: total, ..self })
    }

    /// Ends at `now` a stake of `amount` that started at `started`.
    pub fn settle(self, amount: u64, started: i64, now: i64) -> (r: Result<
        Settlement,
        StakingError,
    >)
        ensures
            r == self.settled(amount, started, now),
    {
        if now < started {
            return Err(StakingError::InvalidInstructionData);
        }
        let elapsed: i64 = match now.checked_sub(started) {
            Some(elapsed) => elapsed,
            None => {
                return Err(StakingError::InsufficientFunds);
            },
        };
        let minutes: u64 = (elapsed / SECONDS_PER_MINUTE) as u64;
        let rate: u64 = amount / COINS_FOR_1_INTEREST;
        assert(rate * minutes == reward(amount, started, now));
        let earned: u64 = match rate.checked_mul(minutes) {
            Some(earned) => earned,
            None => {
                return Err(StakingError::InsufficientFunds);
            },
        };
        let mut payout: u64 = amount;
        let mut rewards: u64 = self.amount;
        if rewards >= earned {
            payout = match payout.checked_add(earned) {
                Some(payout) => payout,
                None => {
                    return Err(StakingError::InsufficientFunds);
                },
            };
            rewards = rewards - earned;
        }
        let count: u32 = match self.total_stakes_count.checked_sub(1) {
            Some(count) => count,
            None => {
                return Err(StakingError::InsufficientFunds);
            },
        };
        let total: u64 = match self.total_coins_staked.checked_sub(amount) {
            Some(total) => total,
            None => {
                return Err(StakingError::InsufficientFunds);
            },
        };
        Ok(
            Settlement {
                payout,
                pool: RewardsPool {
                    amount: rewards,
                    total_stakes_count: count,
                    total_coins_staked: total,
                    ..self
                },
            },
        )
    }

    /// Takes `amount` tokens into the airdrop supply or into the rewards.
    pub fn deposit(self, amount: u64, airdrop: bool) -> (r: Result<RewardsPool, StakingError>)
        ensures
            r == (match self.with_deposit(amount, airdrop) {
                Some(pool) => Ok::<RewardsPool, StakingError>(pool),
                None => Err::<RewardsPool, StakingError>(StakingError::InsufficientFunds),
            }),
    {
        if airdrop {
            match self.airdrop_supply.checked_add(amount) {
                Some(supply) => Ok(RewardsPool { airdrop_supply: supply, ..self }),
                None => Err(StakingError::InsufficientFunds),
            }
        } else {
            match self.amount.checked_add(amount) {
                Some(rewards) => Ok(RewardsPool { amount: rewards, ..self }),
                None => Err(StakingError::InsufficientFunds),
            }
        }
    }

    /// Hands out `amount` tokens of the airdrop supply.
    pub fn airdrop(self, amount: u64) -> (r: Result<RewardsPool, StakingError>)
        ensures
            r == self.after_airdrop(amount),
    {
        if amount > AIRDROP_MAX {
            return Err(StakingError::InvalidInstructionData);
        }
        if self.airdrop_supply < amount {
            return Err(StakingError::InsufficientFunds);
        }
        Ok(RewardsPool { airdrop_supply: self.airdrop_supply - amount, ..self })
    }

    /// Sets what an airdrop costs. Any fee is taken: the administrator is
    /// trusted.
    pub fn set_airdrop_fee(self, fee: u64) -> (r: RewardsPool)
        ensures
            r == self.with_airdrop_fee(fee),
    {
        RewardsPool { airdrop_fee: fee, ..self }
    }
}

impl BallotView {
    /// The ballot as the administrator's first vote opens it.
    pub open spec fn bootstrapped(self) -> BallotView {
        BallotView { is_initialized: true, ..self }
    }

    /// The ballot after one vote for option `selection`: that tally is one
    /// higher and the others are as they were. A selection that is no option
    /// is refused, and so is a vote that the tally cannot count.
    pub open spec fn with_vote(self, selection: u8) -> Result<BallotView, StakingError> {
        if selection >= 5 {
            Err(StakingError::InvalidInstructionData)
        } else if self.choices[selection as int] == u32::MAX {
            Err(StakingError::InsufficientFunds)
        } else {
            Ok(
                BallotView {
                    choices: self.choices.update(
                        selection as int,
                        (self.choices[selection as int] + 1) as u32,
                    ),
                    ..self
                },
            )
        }
    }
}

impl Ballot {
    /// Opens the ballot.
    pub fn bootstrap(self) -> (r: Ballot)
        ensures
            r@ == self@.bootstrapped(),
    {
        Ballot { is_initialized: true, ..self }
    }

    /// Counts one vote for option `selection`.
    pub fn vote(self, selection: u8) -> (r: Result<Ballot, StakingError>)
        ensures
            match self@.with_vote(selection) {
                Ok(ballot) => r is Ok && r->Ok_0@ == ballot,
                Err(e) => r == Err::<Ballot, StakingError>(e),
            },
    {
        if selection >= 5 {
            return Err(StakingError::InvalidInstructionData);
        }
        let i: usize = selection as usize;
        let mut choices: [u32; 5] = self.choices;
        match choices[i].checked_add(1) {
            Some(tally) => {
                choices[i] = tally;
                Ok(Ballot { choices, ..self })
            },
            None => Err(StakingError::InsufficientFunds),
        }
    }
}

/// A product is zero where one of its factors is.
proof fn lemma_zero_product(x: int, y: int)
    requires
        x == 0 || y == 0,
    ensures
        x * y == 0,
{
    assert(x * y == 0) by (nonlinear_arith)
        requires
            x == 0 || y == 0,
    ;
}

/// A stake that ends within a minute of its start earns nothing.
pub proof fn lemma_no_reward_within_a_minute(amount: u64, started: i64, now: i64)
    requires
        0 <= now - started < 60,
    ensures
        minutes_elapsed(started, now) == 0,
        reward(amount, started, now) == 0,
{
    lemma_zero_product((amount / COINS_FOR_1_INTEREST) as int, minutes_elapsed(started, now));
}

/// A stake below `COINS_FOR_1_INTEREST` earns nothing, however long it
/// stands.
pub proof fn lemma_no_reward_below_the_rate(amount: u64, started: i64, now: i64)
    requires
        amount < COINS_FOR_1_INTEREST,
    ensures
        reward(amount, started, now) == 0,
{
    lemma_zero_product((amount / COINS_FOR_1_INTEREST) as int, minutes_elapsed(started, now));
}

/// Ending a stake that earned nothing pays out the stake and no more, and
/// leaves the pool's rewards as they were, whatever they are.
pub proof fn lemma_payout_without_reward(pool: RewardsPool, amount: u64, started: i64, now: i64)
    requires
        pool.settled(amount, started, now) is Ok,
        0 <= now - started < 60 || amount < COINS_FOR_1_INTEREST,
    ensures
        pool.settled(amount, started, now)->Ok_0.payout == amount,
        pool.settled(amount, started, now)->Ok_0.pool.amount == pool.amount,
{
    lemma_zero_product((amount / COINS_FOR_1_INTEREST) as int, minutes_elapsed(started, now));
}

/// Ending a stake pays the stake and the whole reward where the pool's
/// rewards cover it, taking exactly the reward from them, and the stake
/// alone where they do not.
pub proof fn lemma_payout(pool: RewardsPool, amount: u64, started: i64, now: i64)
    requires
        pool.settled(amount, started, now) is Ok,
    ensures
        ({
            let settlement = pool.settled(amount, started, now)->Ok_0;
            let earned = reward(amount, started, now);
            &&& 0 <= earned
            &&& pool.amount >= earned ==> settlement.payout == amount + earned
                && settlement.pool.amount == pool.amount - earned
            &&& pool.amount < earned ==> settlement.payout == amount && settlement.pool.amount
                == pool.amount
            &&& settlement.pool.airdrop_supply == pool.airdrop_supply
            &&& settlement.pool.airdrop_fee == pool.airdrop_fee
        }),
{
    let rate = (amount / COINS_FOR_1_INTEREST) as int;
    let minutes = minutes_elapsed(started, now);
    assert(0 <= rate * minutes) by (nonlinear_arith)
        requires
            0 <= rate,
            0 <= minutes,
    ;
}

} // verus!
