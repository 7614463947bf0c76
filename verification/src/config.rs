//! The amounts that the rules are written in, and the two addresses that the
//! program trusts.

use crate::address::Address;
use vstd::prelude::*;

verus! {

/// Base units in one token.
pub const BASE_COIN: u64 = 1_000_000;

/// Base units that a stake must hold to earn one base unit a minute.
pub const COINS_FOR_1_INTEREST: u64 = 2_160_000;

/// What a vote costs, in base units: a thousand tokens.
pub const VOTING_FEE: u64 = 1000 * BASE_COIN;

/// The most that one airdrop hands out, in base units: 200 000 tokens.
pub const AIRDROP_MAX: u64 = 200_000 * BASE_COIN;

/// Lamports in one SOL.
pub const LAMPORTS_PER_SOL: u64 = 1_000_000_000;

/// What an airdrop costs until the administrator says otherwise, in lamports.
pub const DEFAULT_AIRDROP_COST: u64 = LAMPORTS_PER_SOL / 10000;

/// Seconds that must pass for a stake to earn once.
pub const SECONDS_PER_MINUTE: i64 = 60;

/// The mint of the token that the program keeps.
pub const KITTYCOIN_MINT: [u8; 32] = [
    83, 253, 12, 237, 188, 72, 195, 47, 36, 136, 47, 129, 204, 109, 25, 144, 91, 81, 3, 78, 116,
    125, 93, 233, 32, 239, 68, 27, 127, 118, 163, 167,
];

/// The administrator, who opens the pool and the ballot and sets the airdrop
/// fee, and whose account takes the airdrop fees.
pub const ADMIN_ADDRESS: [u8; 32] = [
    252, 183, 216, 215, 153, 134, 231, 182, 0, 96, 138, 106, 16, 14, 99, 194, 5, 112, 181, 170,
    137, 219, 8, 176, 131, 117, 4, 201, 41, 234, 154, 123,
];

/// The addresses that the program trusts.
#[derive(Clone, Copy, Debug, PartialEq, Eq)]
pub struct Config {
    /// The administrator.
    pub admin: Address,
    /// The mint of the token kept in the vault.
    pub mint: Address,
}

/// What a [`Config`] holds, in sequences.
pub struct ConfigView {
    pub admin: Seq<u8>,
    pub mint: Seq<u8>,
}

impl View for Config {
    type V = ConfigView;

    open spec fn view(&self) -> ConfigView {
        ConfigView { admin: self.admin@, mint: self.mint@ }
    }
}

impl Config {
    /// A program that trusts `admin` and keeps tokens of `mint`.
    pub fn new(admin: Address, mint: Address) -> (r: Config)
        ensures
            r.admin == admin,
            r.mint == mint,
    {
        Config { admin, mint }
    }
}

impl Default for Config {
    /// The program as it is deployed.
    fn default() -> (r: Config)
        ensures
            r@.admin == ADMIN_ADDRESS@,
            r@.mint == KITTYCOIN_MINT@,
    {
        Config { admin: Address::new(ADMIN_ADDRESS), mint: Address::new(KITTYCOIN_MINT) }
    }
}

} // verus!
