use kittycoin_staking::address::Address;
use kittycoin_staking::error::StakingError;
use kittycoin_staking::state::{
    write_over, Ballot, RewardsPool, Stake, BALLOT_LEN, REWARDS_POOL_LEN, STAKE_LEN,
};

fn stake() -> Stake {
    Stake {
        is_initialized: true,
        owner: Address::new([9u8; 32]),
        amount: 2_160_000,
        time_started: 1_700_000_000,
    }
}

fn pool() -> RewardsPool {
    RewardsPool {
        is_initialized: true,
        amount: 1,
        airdrop_supply: 0x0102,
        airdrop_fee: 100_000,
        total_coins_staked: u64::MAX,
        total_stakes_count: 0x0a0b0c0d,
    }
}

fn ballot() -> Ballot {
    Ballot { is_initialized: true, choices: [1, 0, 0x0100, u32::MAX, 5] }
}

#[test]
fn stake_bytes_are_flag_owner_amount_time() {
    let bytes = stake().to_bytes();
    assert_eq!(bytes.len(), STAKE_LEN);
    assert_eq!(bytes[0], 1);
    assert_eq!(bytes[1..33], [9u8; 32]);
    assert_eq!(bytes[33..41], 2_160_000u64.to_le_bytes());
    assert_eq!(bytes[41..49], 1_700_000_000i64.to_le_bytes());
}

#[test]
fn pool_bytes_are_its_fields_in_order() {
    let bytes = pool().to_bytes();
    assert_eq!(bytes.len(), REWARDS_POOL_LEN);
    let mut expected = vec![1u8];
    expected.extend_from_slice(&[1, 0, 0, 0, 0, 0, 0, 0]);
    expected.extend_from_slice(&[2, 1, 0, 0, 0, 0, 0, 0]);
    expected.extend_from_slice(&100_000u64.to_le_bytes());
    expected.extend_from_slice(&[0xff; 8]);
    expected.extend_from_slice(&[0x0d, 0x0c, 0x0b, 0x0a]);
    assert_eq!(bytes, expected);
}

#[test]
fn ballot_bytes_are_flag_and_five_tallies() {
    let bytes = ballot().to_bytes();
    assert_eq!(bytes.len(), BALLOT_LEN);
    assert_eq!(
        bytes,
        vec![1, 1, 0, 0, 0, 0, 0, 0, 0, 0, 1, 0, 0, 0xff, 0xff, 0xff, 0xff, 5, 0, 0, 0]
    );
}

#[test]
fn records_are_stored_as_borsh_stores_their_fields() {
    let s = stake();
    assert_eq!(
        s.to_bytes(),
        borsh::to_vec(&(s.is_initialized, s.owner.bytes, s.amount, s.time_started)).unwrap()
    );
    let p = pool();
    assert_eq!(
        p.to_bytes(),
        borsh::to_vec(&(
            p.is_initialized,
            p.amount,
            p.airdrop_supply,
            p.airdrop_fee,
            p.total_coins_staked,
            p.total_stakes_count
        ))
        .unwrap()
    );
    let b = ballot();
    assert_eq!(b.to_bytes(), borsh::to_vec(&(b.is_initialized, b.choices)).unwrap());
    let negative = Stake { time_started: -61, is_initialized: false, ..s };
    assert_eq!(
        negative.to_bytes(),
        borsh::to_vec(&(false, negative.owner.bytes, negative.amount, -61i64)).unwrap()
    );
}

#[test]
fn records_are_read_as_borsh_reads_their_fields() {
    let mut inputs: Vec<Vec<u8>> = vec![
        stake().to_bytes(),
        vec![0u8; STAKE_LEN],
        vec![0u8; STAKE_LEN - 1],
        vec![0u8; STAKE_LEN + 1],
        vec![],
    ];
    let mut bad_flag = stake().to_bytes();
    bad_flag[0] = 2;
    inputs.push(bad_flag);
    for input in inputs {
        let ours = Stake::try_from_slice(&input).ok();
        let theirs = borsh::from_slice::<(bool, [u8; 32], u64, i64)>(&input).ok().map(
            |(is_initialized, owner, amount, time_started)| Stake {
                is_initialized,
                owner: Address::new(owner),
                amount,
                time_started,
            },
        );
        assert_eq!(ours, theirs);
    }
}

#[test]
fn stake_reads_back() {
    assert_eq!(Stake::try_from_slice(&stake().to_bytes()), Ok(stake()));
    let free = Stake {
        is_initialized: false,
        owner: Address::new([0u8; 32]),
        amount: 0,
        time_started: 0,
    };
    assert_eq!(Stake::try_from_slice(&[0u8; 49]), Ok(free));
    let early = Stake { time_started: i64::MIN, ..stake() };
    assert_eq!(Stake::try_from_slice(&early.to_bytes()), Ok(early));
}

#[test]
fn pool_reads_back() {
    assert_eq!(RewardsPool::try_from_slice(&pool().to_bytes()), Ok(pool()));
    let blank = RewardsPool {
        is_initialized: false,
        amount: 0,
        airdrop_supply: 0,
        airdrop_fee: 0,
        total_coins_staked: 0,
        total_stakes_count: 0,
    };
    assert_eq!(RewardsPool::try_from_slice(&[0u8; 37]), Ok(blank));
}

#[test]
fn ballot_reads_back() {
    assert_eq!(Ballot::try_from_slice(&ballot().to_bytes()), Ok(ballot()));
    assert_eq!(
        Ballot::try_from_slice(&[0u8; 21]),
        Ok(Ballot { is_initialized: false, choices: [0; 5] })
    );
}

#[test]
fn data_of_another_length_is_no_record() {
    assert_eq!(Stake::try_from_slice(&[0u8; 48]), Err(StakingError::BorshIoError));
    assert_eq!(Stake::try_from_slice(&[0u8; 50]), Err(StakingError::BorshIoError));
    assert_eq!(Stake::try_from_slice(&[]), Err(StakingError::BorshIoError));
    assert_eq!(RewardsPool::try_from_slice(&[0u8; 36]), Err(StakingError::BorshIoError));
    assert_eq!(RewardsPool::try_from_slice(&[0u8; 38]), Err(StakingError::BorshIoError));
    assert_eq!(RewardsPool::try_from_slice(&[]), Err(StakingError::BorshIoError));
    assert_eq!(Ballot::try_from_slice(&[0u8; 20]), Err(StakingError::BorshIoError));
    assert_eq!(Ballot::try_from_slice(&[0u8; 22]), Err(StakingError::BorshIoError));
    assert_eq!(Ballot::try_from_slice(&[]), Err(StakingError::BorshIoError));
}

#[test]
fn a_flag_that_is_not_zero_or_one_is_no_record() {
    let mut bytes = stake().to_bytes();
    bytes[0] = 2;
    assert_eq!(Stake::try_from_slice(&bytes), Err(StakingError::BorshIoError));
    let mut bytes = pool().to_bytes();
    bytes[0] = 255;
    assert_eq!(RewardsPool::try_from_slice(&bytes), Err(StakingError::BorshIoError));
    let mut bytes = ballot().to_bytes();
    bytes[0] = 3;
    assert_eq!(Ballot::try_from_slice(&bytes), Err(StakingError::BorshIoError));
}

#[test]
fn serialize_writes_over_the_start_and_keeps_the_length() {
    let mut out = vec![0xee; 52];
    assert_eq!(stake().serialize(&mut out), Ok(()));
    assert_eq!(out.len(), 52);
    assert_eq!(out[..49], stake().to_bytes()[..]);
    assert_eq!(out[49..], [0xee; 3]);

    let mut out = vec![0xee; 37];
    assert_eq!(pool().serialize(&mut out), Ok(()));
    assert_eq!(out, pool().to_bytes());

    let mut out = vec![0xee; 21];
    assert_eq!(ballot().serialize(&mut out), Ok(()));
    assert_eq!(out, ballot().to_bytes());
}

#[test]
fn serialize_writes_nothing_where_the_record_does_not_fit() {
    let mut out = vec![0xee; 48];
    assert_eq!(stake().serialize(&mut out), Err(StakingError::BorshIoError));
    assert_eq!(out, vec![0xee; 48]);
    let mut out = vec![0xee; 36];
    assert_eq!(pool().serialize(&mut out), Err(StakingError::BorshIoError));
    assert_eq!(out, vec![0xee; 36]);
    let mut out = vec![];
    assert_eq!(ballot().serialize(&mut out), Err(StakingError::BorshIoError));
    assert_eq!(out, Vec::<u8>::new());
}

#[test]
fn write_over_replaces_a_prefix() {
    let mut out = vec![1, 2, 3, 4, 5];
    assert_eq!(write_over(&mut out, &vec![9, 8]), Ok(()));
    assert_eq!(out, vec![9, 8, 3, 4, 5]);
    assert_eq!(write_over(&mut out, &vec![]), Ok(()));
    assert_eq!(out, vec![9, 8, 3, 4, 5]);
    assert_eq!(write_over(&mut out, &vec![0; 6]), Err(StakingError::BorshIoError));
    assert_eq!(out, vec![9, 8, 3, 4, 5]);
}
