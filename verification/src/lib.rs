//! Rules of a token staking program: stakes that earn interest by the minute,
//! a shared rewards pool, a ballot and an airdrop, all settled against one
//! program-controlled vault.
//!
//! The program decides here and moves nothing itself. A request comes as
//! bytes ([`instruction`]) with a list of accounts ([`account`]); the records
//! that the accounts store have a fixed layout ([`state`]) and change by
//! fixed rules ([`rules`]). Each operation ([`processor`]) first checks the
//! request and says which tokens are to move ([`token`]) into or out of the
//! vault ([`vault`]); once they have moved, it writes the records. What holds
//! of the operations whatever the request is proved in [`laws`] and, for the
//! pool's count of the stakes, in [`ledger`].

pub mod account;
pub mod address;
pub mod bytes;
pub mod config;
pub mod error;
pub mod instruction;
pub mod laws;
pub mod ledger;
pub mod processor;
pub mod rules;
pub mod state;
pub mod token;
pub mod vault;
