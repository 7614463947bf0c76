//! The books of the program as a whole: the pool and every stake record
//! there is. The pool keeps count of the open stakes and of what they hold,
//! and starting and ending stakes, in whatever order, keeps that count true.

use crate::config::BASE_COIN;
use crate::state::{RewardsPool, StakeView};
use vstd::prelude::*;

verus! {

/// What a stake record adds to the total staked: its amount while it is
/// open, nothing once it has ended.
pub open spec fn staked(stake: StakeView) -> int {
    if stake.is_initialized {
        stake.amount as int
    } else {
        0
    }
}

/// The sum of the amounts of the open stakes among `stakes`.
pub open spec fn total_staked(stakes: Seq<StakeView>) -> int
    decreases stakes.len(),
{
    if stakes.len() == 0 {
        0
    } else {
        total_staked(stakes.drop_last()) + staked(stakes.last())
    }
}

/// What a stake record adds to the number of open stakes.
pub open spec fn counted(stake: StakeView) -> int {
    if stake.is_initialized {
        1
    } else {
        0
    }
}

/// The number of open stakes among `stakes`.
pub open spec fn open_stakes(stakes: Seq<StakeView>) -> int
    decreases stakes.len(),
{
    if stakes.len() == 0 {
        0
    } else {
        open_stakes(stakes.drop_last()) + counted(stakes.last())
    }
}

/// The pool and all stake records, each in its slot.
pub struct Ledger {
    pub pool: RewardsPool,
    pub stakes: Seq<StakeView>,
}

/// A request that touches the books.
pub enum LedgerOp {
    /// `owner` starts a stake of `amount` at `now` on the record in `slot`.
    CreateStake { slot: int, owner: Seq<u8>, amount: u64, now: i64 },
    /// The stake on the record in `slot` is ended at `now`.
    EndStake { slot: int, now: i64 },
}

impl Ledger {
    /// The pool's count is the number of open stakes, and its total the sum
    /// of what they hold.
    pub open spec fn balanced(self) -> bool {
        &&& self.pool.total_coins_staked == total_staked(self.stakes)
        &&& self.pool.total_stakes_count == open_stakes(self.stakes)
    }

    /// The books after a request to start a stake: where the record is free,
    /// the amount a token at least, the pool open and able to count the
    /// stake, the record holds the stake and the pool counts it; else the
    /// request fails and the books are as they were.
    pub open spec fn create_stake(
        self,
        slot: int,
        owner: Seq<u8>,
        amount: u64,
        now: i64,
    ) -> Ledger {
        if 0 <= slot < self.stakes.len() && amount >= BASE_COIN && !self.stakes[slot].is_initialized
            && self.pool.is_initialized && self.pool.with_stake(amount) is Some {
            Ledger {
                pool: self.pool.with_stake(amount).unwrap(),
                stakes: self.stakes.update(slot, StakeView::started(owner, amount, now)),
            }
        } else {
            self
        }
    }

    /// The books after a request to end a stake: where the stake is open and
    /// the pool open and able to settle it, the record is free again and the
    /// pool is as settled; else the request fails and the books are as they
    /// were.
    pub open spec fn end_stake(self, slot: int, now: i64) -> Ledger {
        if 0 <= slot < self.stakes.len() && self.stakes[slot].is_initialized
            && self.pool.is_initialized && self.pool.settled(
            self.stakes[slot].amount,
            self.stakes[slot].time_started,
            now,
        ) is Ok {
            Ledger {
                pool: self.pool.settled(
                    self.stakes[slot].amount,
                    self.stakes[slot].time_started,
                    now,
                )->Ok_0.pool,
                stakes: self.stakes.update(slot, self.stakes[slot].ended()),
            }
        } else {
            self
        }
    }

    /// The books after one request.
    pub open spec fn apply(self, op: LedgerOp) -> Ledger {
        match op {
            LedgerOp::CreateStake { slot, owner, amount, now } => self.create_stake(
                slot,
                owner,
                amount,
                now,
            ),
            LedgerOp::EndStake { slot, now } => self.end_stake(slot, now),
        }
    }

    /// The books after the requests `ops`, one after the other.
    pub open spec fn run(self, ops: Seq<LedgerOp>) -> Ledger
        decreases ops.len(),
    {
        if ops.len() == 0 {
            self
        } else {
            self.run(ops.drop_last()).apply(ops.last())
        }
    }
}

/// Replacing one record changes the total and the count by what the old
/// record held and the new one holds.
proof fn lemma_replace_record(stakes: Seq<StakeView>, slot: int, stake: StakeView)
    requires
        0 <= slot < stakes.len(),
    ensures
        total_staked(stakes.update(slot, stake)) == total_staked(stakes) - staked(stakes[slot])
            + staked(stake),
        open_stakes(stakes.update(slot, stake)) == open_stakes(stakes) - counted(stakes[slot])
            + counted(stake),
    decreases stakes.len(),
{
    let replaced = stakes.update(slot, stake);
    if slot == stakes.len() - 1 {
        assert(replaced.drop_last() =~= stakes.drop_last());
    } else {
        assert(replaced.drop_last() =~= stakes.drop_last().update(slot, stake));
        lemma_replace_record(stakes.drop_last(), slot, stake);
    }
}

/// Starting a stake keeps the books balanced.
pub proof fn lemma_create_stake_keeps_the_balance(
    ledger: Ledger,
    slot: int,
    owner: Seq<u8>,
    amount: u64,
    now: i64,
)
    requires
        ledger.balanced(),
    ensures
        ledger.create_stake(slot, owner, amount, now).balanced(),
{
    if ledger.create_stake(slot, owner, amount, now) != ledger {
        let stake = StakeView::started(owner, amount, now);
        lemma_replace_record(ledger.stakes, slot, stake);
    }
}

/// Ending a stake keeps the books balanced.
pub proof fn lemma_end_stake_keeps_the_balance(ledger: Ledger, slot: int, now: i64)
    requires
        ledger.balanced(),
    ensures
        ledger.end_stake(slot, now).balanced(),
{
    if ledger.end_stake(slot, now) != ledger {
        let stake = ledger.stakes[slot];
        lemma_replace_record(ledger.stakes, slot, stake.ended());
    }
}

/// Books that are balanced stay balanced through any sequence of requests
/// to start and to end stakes, those that fail among them.
pub proof fn lemma_requests_keep_the_balance(ledger: Ledger, ops: Seq<LedgerOp>)
    requires
        ledger.balanced(),
    ensures
        ledger.run(ops).balanced(),
    decreases ops.len(),
{
    if ops.len() > 0 {
        lemma_requests_keep_the_balance(ledger, ops.drop_last());
        let before = ledger.run(ops.drop_last());
        match ops.last() {
            LedgerOp::CreateStake { slot, owner, amount, now } => {
                lemma_create_stake_keeps_the_balance(before, slot, owner, amount, now);
            },
            LedgerOp::EndStake { slot, now } => {
                lemma_end_stake_keeps_the_balance(before, slot, now);
            },
        }
    }
}

/// Books without an open stake are balanced where the pool counts none.
pub proof fn lemma_empty_books_are_balanced(pool: RewardsPool, stakes: Seq<StakeView>)
    requires
        pool.total_coins_staked == 0,
        pool.total_stakes_count == 0,
        forall|slot: int| 0 <= slot < stakes.len() ==> !stakes[slot].is_initialized,
    ensures
        (Ledger { pool, stakes }).balanced(),
    decreases stakes.len(),
{
    if stakes.len() > 0 {
        lemma_empty_books_are_balanced(pool, stakes.drop_last());
    }
}

} // verus!
