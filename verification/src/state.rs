//! The three records that the program keeps in account data, and the fixed
//! layout in which each is stored: fields in order, integers little-endian,
//! a flag as one byte that is 0 or 1, no padding.

use crate::address::Address;
use crate::bytes::{
    i64_from_le, i64_to_le, lemma_i64_le_round_trip, lemma_le_range,
    lemma_u32_le_bytes_round_trip, lemma_u32_le_round_trip, lemma_u64_le_bytes_round_trip,
    lemma_u64_le_round_trip, push_i64, push_u32, push_u64, read_i64, read_u32, read_u64,
    u32_from_le, u32_to_le, u64_from_le, u64_to_le,
};
use crate::error::StakingError;
use vstd::prelude::*;

verus! {

/// Bytes that a stake record takes.
pub const STAKE_LEN: usize = 49;

/// Bytes that the rewards pool takes.
pub const REWARDS_POOL_LEN: usize = 37;

/// Bytes that the ballot takes.
pub const BALLOT_LEN: usize = 21;

/// A counter with five statistics.
#[derive(Clone, Copy, Debug, PartialEq, Eq)]
pub struct GreetingAccount {
    pub counter: u32,
    pub stats: [u8; 5],
}

/// Tokens that one depositor has locked in the vault.
#[derive(Clone, Copy, Debug, PartialEq, Eq)]
pub struct Stake {
    /// Set while the stake is open.
    pub is_initialized: bool,
    /// The depositor, who alone may end the stake.
    pub owner: Address,
    /// Tokens locked, in base units.
    pub amount: u64,
    /// When the stake was opened, in seconds.
    pub time_started: i64,
}

/// What a [`Stake`] holds, with the owner as a sequence of bytes.
pub struct StakeView {
    pub is_initialized: bool,
    pub owner: Seq<u8>,
    pub amount: u64,
    pub time_started: i64,
}

/// What the program holds for rewards and for airdrops, and its count of
/// the open stakes.
#[derive(Clone, Copy, Debug, PartialEq, Eq)]
pub struct RewardsPool {
    /// Set by the administrator's first deposit.
    pub is_initialized: bool,
    /// Tokens that pay interest on stakes.
    pub amount: u64,
    /// Tokens that airdrops hand out.
    pub airdrop_supply: u64,
    /// What an airdrop costs its recipient, in lamports.
    pub airdrop_fee: u64,
    /// Sum of the amounts of all open stakes.
    pub total_coins_staked: u64,
    /// Number of open stakes.
    pub total_stakes_count: u32,
}

/// Votes cast for each of five options.
#[derive(Clone, Copy, Debug, PartialEq, Eq)]
pub struct Ballot {
    /// Set by the administrator's first vote.
    pub is_initialized: bool,
    /// Votes per option.
    pub choices: [u32; 5],
}

/// What a [`Ballot`] holds, with the tallies as a sequence.
pub struct BallotView {
    pub is_initialized: bool,
    pub choices: Seq<u32>,
}

impl View for Stake {
    type V = StakeView;

    open spec fn view(&self) -> StakeView {
        StakeView {
            is_initialized: self.is_initialized,
            owner: self.owner@,
            amount: self.amount,
            time_started: self.time_started,
        }
    }
}

impl View for Ballot {
    type V = BallotView;

    open spec fn view(&self) -> BallotView {
        BallotView { is_initialized: self.is_initialized, choices: self.choices@ }
    }
}

/// The byte that stands for a flag.
pub open spec fn flag_byte(flag: bool) -> u8 {
    if flag {
        1
    } else {
        0
    }
}

/// The bytes of five tallies, one after the other.
pub open spec fn tallies_to_le(choices: Seq<u32>) -> Seq<u8>
    recommends
        choices.len() == 5,
{
    u32_to_le(choices[0]) + u32_to_le(choices[1]) + u32_to_le(choices[2]) + u32_to_le(choices[3])
        + u32_to_le(choices[4])
}

impl StakeView {
    /// An owner is an address.
    pub open spec fn wf(self) -> bool {
        self.owner.len() == 32
    }

    /// The bytes that store the record.
    pub open spec fn encode(self) -> Seq<u8> {
        seq![flag_byte(self.is_initialized)] + self.owner + u64_to_le(self.amount) + i64_to_le(
            self.time_started,
        )
    }

    /// The record that `data` stores, if it stores one: it must have the
    /// record's exact length and a flag that is 0 or 1.
    pub open spec fn decode(data: Seq<u8>) -> Option<StakeView> {
        if data.len() == STAKE_LEN && data[0] <= 1 {
            Some(
                StakeView {
                    is_initialized: data[0] == 1,
                    owner: data.subrange(1, 33),
                    amount: u64_from_le(data.subrange(33, 41)) as u64,
                    time_started: i64_from_le(data.subrange(41, 49)) as i64,
                },
            )
        } else {
            None
        }
    }

    /// A record read back from its own bytes is the record.
    pub proof fn lemma_decode_encode(self)
        requires
            self.wf(),
        ensures
            self.encode().len() == STAKE_LEN,
            StakeView::decode(self.encode()) == Some(self),
    {
        let data = self.encode();
        lemma_u64_le_round_trip(self.amount);
        lemma_i64_le_round_trip(self.time_started);
        assert(data.subrange(1, 33) =~= self.owner);
        assert(data.subrange(33, 41) =~= u64_to_le(self.amount));
        assert(data.subrange(41, 49) =~= i64_to_le(self.time_started));
    }

    /// Bytes that store a record are the bytes of that record.
    pub proof fn lemma_encode_decode(data: Seq<u8>)
        requires
            StakeView::decode(data) is Some,
        ensures
            StakeView::decode(data).unwrap().wf(),
            StakeView::decode(data).unwrap().encode() == data,
    {
        lemma_le_range(data.subrange(33, 41));
        lemma_le_range(data.subrange(41, 49));
        lemma_u64_le_bytes_round_trip(data.subrange(33, 41));
        lemma_u64_le_bytes_round_trip(data.subrange(41, 49));
        assert(StakeView::decode(data).unwrap().encode() =~= data);
    }
}

impl RewardsPool {
    /// The bytes that store the record.
    pub open spec fn encode(self) -> Seq<u8> {
        seq![flag_byte(self.is_initialized)] + u64_to_le(self.amount) + u64_to_le(
            self.airdrop_supply,
        ) + u64_to_le(self.airdrop_fee) + u64_to_le(self.total_coins_staked) + u32_to_le(
            self.total_stakes_count,
        )
    }

    /// The record that `data` stores, if it stores one: it must have the
    /// record's exact length and a flag that is 0 or 1.
    pub open spec fn decode(data: Seq<u8>) -> Option<RewardsPool> {
        if data.len() == REWARDS_POOL_LEN && data[0] <= 1 {
            Some(
                RewardsPool {
                    is_initialized: data[0] == 1,
                    amount: u64_from_le(data.subrange(1, 9)) as u64,
                    airdrop_supply: u64_from_le(data.subrange(9, 17)) as u64,
                    airdrop_fee: u64_from_le(data.subrange(17, 25)) as u64,
                    total_coins_staked: u64_from_le(data.subrange(25, 33)) as u64,
                    total_stakes_count: u32_from_le(data.subrange(33, 37)) as u32,
                },
            )
        } else {
            None
        }
    }

    /// A record read back from its own bytes is the record.
    pub proof fn lemma_decode_encode(self)
        ensures
            self.encode().len() == REWARDS_POOL_LEN,
            RewardsPool::decode(self.encode()) == Some(self),
    {
        let data = self.encode();
        lemma_u64_le_round_trip(self.amount);
        lemma_u64_le_round_trip(self.airdrop_supply);
        lemma_u64_le_round_trip(self.airdrop_fee);
        lemma_u64_le_round_trip(self.total_coins_staked);
        lemma_u32_le_round_trip(self.total_stakes_count);
        assert(data.len() == REWARDS_POOL_LEN && data[0] == flag_byte(self.is_initialized));
        assert(data.subrange(1, 9) == u64_to_le(self.amount)) by {
            assert(data.subrange(1, 9) =~= u64_to_le(self.amount));
        }
        assert(data.subrange(9, 17) == u64_to_le(self.airdrop_supply)) by {
            assert(data.subrange(9, 17) =~= u64_to_le(self.airdrop_supply));
        }
        assert(data.subrange(17, 25) == u64_to_le(self.airdrop_fee)) by {
            assert(data.subrange(17, 25) =~= u64_to_le(self.airdrop_fee));
        }
        assert(data.subrange(25, 33) == u64_to_le(self.total_coins_staked)) by {
            assert(data.subrange(25, 33) =~= u64_to_le(self.total_coins_staked));
        }
        assert(data.subrange(33, 37) == u32_to_le(self.total_stakes_count)) by {
            assert(data.subrange(33, 37) =~= u32_to_le(self.total_stakes_count));
        }
    }

    /// Bytes that store a record are the bytes of that record.
    pub proof fn lemma_encode_decode(data: Seq<u8>)
        requires
            RewardsPool::decode(data) is Some,
        ensures
            RewardsPool::decode(data).unwrap().encode() == data,
    {
        lemma_le_range(data.subrange(1, 9));
        lemma_le_range(data.subrange(9, 17));
        lemma_le_range(data.subrange(17, 25));
        lemma_le_range(data.subrange(25, 33));
        lemma_le_range(data.subrange(33, 37));
        lemma_u64_le_bytes_round_trip(data.subrange(1, 9));
        lemma_u64_le_bytes_round_trip(data.subrange(9, 17));
        lemma_u64_le_bytes_round_trip(data.subrange(17, 25));
        lemma_u64_le_bytes_round_trip(data.subrange(25, 33));
        lemma_u32_le_bytes_round_trip(data.subrange(33, 37));
        assert(RewardsPool::decode(data).unwrap().encode() =~= data);
    }
}

impl BallotView {
    /// A ballot has five tallies.
    pub open spec fn wf(self) -> bool {
        self.choices.len() == 5
    }

    /// The bytes that store the record.
    pub open spec fn encode(self) -> Seq<u8> {
        seq![flag_byte(self.is_initialized)] + tallies_to_le(self.choices)
    }

    /// The record that `data` stores, if it stores one: it must have the
    /// record's exact length and a flag that is 0 or 1.
    pub open spec fn decode(data: Seq<u8>) -> Option<BallotView> {
        if data.len() == BALLOT_LEN && data[0] <= 1 {
            Some(
                BallotView {
                    is_initialized: data[0] == 1,
                    choices: seq![
                        u32_from_le(data.subrange(1, 5)) as u32,
                        u32_from_le(data.subrange(5, 9)) as u32,
                        u32_from_le(data.subrange(9, 13)) as u32,
                        u32_from_le(data.subrange(13, 17)) as u32,
                        u32_from_le(data.subrange(17, 21)) as u32,
                    ],
                },
            )
        } else {
            None
        }
    }

    /// A record read back from its own bytes is the record.
    pub proof fn lemma_decode_encode(self)
        requires
            self.wf(),
        ensures
            self.encode().len() == BALLOT_LEN,
            BallotView::decode(self.encode()) == Some(self),
    {
        let data = self.encode();
        lemma_u32_le_round_trip(self.choices[0]);
        lemma_u32_le_round_trip(self.choices[1]);
        lemma_u32_le_round_trip(self.choices[2]);
        lemma_u32_le_round_trip(self.choices[3]);
        lemma_u32_le_round_trip(self.choices[4]);
        assert(data.subrange(1, 5) =~= u32_to_le(self.choices[0]));
        assert(data.subrange(5, 9) =~= u32_to_le(self.choices[1]));
        assert(data.subrange(9, 13) =~= u32_to_le(self.choices[2]));
        assert(data.subrange(13, 17) =~= u32_to_le(self.choices[3]));
        assert(data.subrange(17, 21) =~= u32_to_le(self.choices[4]));
        assert(BallotView::decode(data).unwrap().choices =~= self.choices);
    }

    /// Bytes that store a record are the bytes of that record.
    pub proof fn lemma_encode_decode(data: Seq<u8>)
        requires
            BallotView::decode(data) is Some,
        ensures
            BallotView::decode(data).unwrap().wf(),
            BallotView::decode(data).unwrap().encode() == data,
    {
        lemma_le_range(data.subrange(1, 5));
        lemma_le_range(data.subrange(5, 9));
        lemma_le_range(data.subrange(9, 13));
        lemma_le_range(data.subrange(13, 17));
        lemma_le_range(data.subrange(17, 21));
        lemma_u32_le_bytes_round_trip(data.subrange(1, 5));
        lemma_u32_le_bytes_round_trip(data.subrange(5, 9));
        lemma_u32_le_bytes_round_trip(data.subrange(9, 13));
        lemma_u32_le_bytes_round_trip(data.subrange(13, 17));
        lemma_u32_le_bytes_round_trip(data.subrange(17, 21));
        assert(BallotView::decode(data).unwrap().encode() =~= data);
    }
}

/// Writes `bytes` over the start of `out`, whose length stays what it was.
/// Nothing is written where `out` is too short to take them.
pub fn write_over(out: &mut Vec<u8>, bytes: &Vec<u8>) -> (r: Result<(), StakingError>)
    ensures
        match r {
            Ok(_) => {
                &&& old(out)@.len() >= bytes@.len()
                &&& final(out)@ == bytes@ + old(out)@.skip(bytes@.len() as int)
            },
            Err(e) => {
                &&& old(out)@.len() < bytes@.len()
                &&& e == StakingError::BorshIoError
                &&& final(out)@ == old(out)@
            },
        },
{
    if out.len() < bytes.len() {
        return Err(StakingError::BorshIoError);
    }
    let mut i: usize = 0;
    while i < bytes.len()
        invariant
            i <= bytes@.len() <= out@.len(),
            out@.len() == old(out)@.len(),
            forall|j: int| 0 <= j < i ==> out@[j] == bytes@[j],
            forall|j: int| i <= j < out@.len() ==> out@[j] == old(out)@[j],
        decreases bytes@.len() - i,
    {
        out[i] = bytes[i];
        i += 1;
    }
    assert(out@ =~= bytes@ + old(out)@.skip(bytes@.len() as int));
    Ok(())
}

impl Stake {
    /// Reads the record that `data` stores.
    pub fn try_from_slice(data: &[u8]) -> (r: Result<Stake, StakingError>)
        ensures
            match StakeView::decode(data@) {
                Some(stake) => r is Ok && r->Ok_0@ == stake,
                None => r == Err::<Stake, StakingError>(StakingError::BorshIoError),
            },
    {
        if data.len() != STAKE_LEN || data[0] > 1 {
            return Err(StakingError::BorshIoError);
        }
        Ok(
            Stake {
                is_initialized: data[0] == 1,
                owner: Address::from_slice(data, 1),
                amount: read_u64(data, 33),
                time_started: read_i64(data, 41),
            },
        )
    }

    /// The bytes that store the record.
    pub fn to_bytes(&self) -> (r: Vec<u8>)
        ensures
            r@ == self@.encode(),
            r@.len() == STAKE_LEN,
    {
        let mut out: Vec<u8> = Vec::new();
        out.push(if self.is_initialized { 1u8 } else { 0u8 });
        let mut i: usize = 0;
        while i < 32
            invariant
                i <= 32,
                out@ == seq![flag_byte(self.is_initialized)] + self.owner@.take(i as int),
            decreases 32 - i,
        {
            out.push(self.owner.bytes[i]);
            assert(self.owner@.take(i + 1) =~= self.owner@.take(i as int).push(
                self.owner@[i as int],
            ));
            assert(out@ =~= seq![flag_byte(self.is_initialized)] + self.owner@.take(i + 1));
            i += 1;
        }
        assert(self.owner@.take(32) =~= self.owner@);
        push_u64(&mut out, self.amount);
        push_i64(&mut out, self.time_started);
        out
    }

    /// Writes the record over the start of `out`, whose length stays what it
    /// was. Nothing is written where `out` is too short for the record.
    pub fn serialize(&self, out: &mut Vec<u8>) -> (r: Result<(), StakingError>)
        ensures
            match r {
                Ok(_) => {
                    &&& old(out)@.len() >= STAKE_LEN
                    &&& final(out)@ == self@.encode() + old(out)@.skip(STAKE_LEN as int)
                },
                Err(e) => {
                    &&& old(out)@.len() < STAKE_LEN
                    &&& e == StakingError::BorshIoError
                    &&& final(out)@ == old(out)@
                },
            },
    {
        let bytes: Vec<u8> = self.to_bytes();
        write_over(out, &bytes)?;
        Ok(())
    }
}

impl RewardsPool {
    /// Reads the record that `data` stores.
    pub fn try_from_slice(data: &[u8]) -> (r: Result<RewardsPool, StakingError>)
        ensures
            match RewardsPool::decode(data@) {
                Some(pool) => r == Ok::<RewardsPool, StakingError>(pool),
                None => r == Err::<RewardsPool, StakingError>(StakingError::BorshIoError),
            },
    {
        if data.len() != REWARDS_POOL_LEN || data[0] > 1 {
            return Err(StakingError::BorshIoError);
        }
        Ok(
            RewardsPool {
                is_initialized: data[0] == 1,
                amount: read_u64(data, 1),
                airdrop_supply: read_u64(data, 9),
                airdrop_fee: read_u64(data, 17),
                total_coins_staked: read_u64(data, 25),
                total_stakes_count: read_u32(data, 33),
            },
        )
    }

    /// The bytes that store the record.
    pub fn to_bytes(&self) -> (r: Vec<u8>)
        ensures
            r@ == self.encode(),
            r@.len() == REWARDS_POOL_LEN,
    {
        let mut out: Vec<u8> = Vec::new();
        out.push(if self.is_initialized { 1u8 } else { 0u8 });
        push_u64(&mut out, self.amount);
        push_u64(&mut out, self.airdrop_supply);
        push_u64(&mut out, self.airdrop_fee);
        push_u64(&mut out, self.total_coins_staked);
        push_u32(&mut out, self.total_stakes_count);
        assert(out@ =~= self.encode());
        out
    }

    /// Writes the record over the start of `out`, whose length stays what it
    /// was. Nothing is written where `out` is too short for the record.
    pub fn serialize(&self, out: &mut Vec<u8>) -> (r: Result<(), StakingError>)
        ensures
            match r {
                Ok(_) => {
                    &&& old(out)@.len() >= REWARDS_POOL_LEN
                    &&& final(out)@ == self.encode() + old(out)@.skip(REWARDS_POOL_LEN as int)
                },
                Err(e) => {
                    &&& old(out)@.len() < REWARDS_POOL_LEN
                    &&& e == StakingError::BorshIoError
                    &&& final(out)@ == old(out)@
                },
            },
    {
        let bytes: Vec<u8> = self.to_bytes();
        write_over(out, &bytes)?;
        Ok(())
    }
}

impl Ballot {
    /// Reads the record that `data` stores.
    pub fn try_from_slice(data: &[u8]) -> (r: Result<Ballot, StakingError>)
        ensures
            match BallotView::decode(data@) {
                Some(ballot) => r is Ok && r->Ok_0@ == ballot,
                None => r == Err::<Ballot, StakingError>(StakingError::BorshIoError),
            },
    {
        if data.len() != BALLOT_LEN || data[0] > 1 {
            return Err(StakingError::BorshIoError);
        }
        let choices: [u32; 5] = [
            read_u32(data, 1),
            read_u32(data, 5),
            read_u32(data, 9),
            read_u32(data, 13),
            read_u32(data, 17),
        ];
        assert(choices@ =~= BallotView::decode(data@).unwrap().choices);
        Ok(Ballot { is_initialized: data[0] == 1, choices })
    }

    /// The bytes that store the record.
    pub fn to_bytes(&self) -> (r: Vec<u8>)
        ensures
            r@ == self@.encode(),
            r@.len() == BALLOT_LEN,
    {
        let mut out: Vec<u8> = Vec::new();
        out.push(if self.is_initialized { 1u8 } else { 0u8 });
        push_u32(&mut out, self.choices[0]);
        push_u32(&mut out, self.choices[1]);
        push_u32(&mut out, self.choices[2]);
        push_u32(&mut out, self.choices[3]);
        push_u32(&mut out, self.choices[4]);
        assert(out@ =~= self@.encode());
        out
    }

    /// Writes the record over the start of `out`, whose length stays what it
    /// was. Nothing is written where `out` is too short for the record.
    pub fn serialize(&self, out: &mut Vec<u8>) -> (r: Result<(), StakingError>)
        ensures
            match r {
                Ok(_) => {
                    &&& old(out)@.len() >= BALLOT_LEN
                    &&& final(out)@ == self@.encode() + old(out)@.skip(BALLOT_LEN as int)
                },
                Err(e) => {
                    &&& old(out)@.len() < BALLOT_LEN
                    &&& e == StakingError::BorshIoError
                    &&& final(out)@ == old(out)@
                },
            },
    {
        let bytes: Vec<u8> = self.to_bytes();
        write_over(out, &bytes)?;
        Ok(())
    }
}

} // verus!
