//! The accounts that an operation is handed: what the program sees of each,
//! and the list in which they come.
//!
//! One account may stand at several places of the list. It is then one
//! account still: what is written to it at one place is read at the others.

use crate::address::Address;
use crate::error::StakingError;
use crate::state::write_over;
use vstd::prelude::*;

verus! {

/// What the program sees of one account.
#[derive(Clone, Debug, PartialEq, Eq)]
pub struct Account {
    /// The account's address.
    pub key: Address,
    /// The program that owns the account.
    pub owner: Address,
    /// Whether the account signed the request.
    pub is_signer: bool,
    /// The account's balance in lamports.
    pub lamports: u64,
    /// The bytes that the account stores.
    pub data: Vec<u8>,
}

/// What an [`Account`] holds, in sequences.
pub struct AccountView {
    pub key: Seq<u8>,
    pub owner: Seq<u8>,
    pub is_signer: bool,
    pub lamports: u64,
    pub data: Seq<u8>,
}

impl View for Account {
    type V = AccountView;

    open spec fn view(&self) -> AccountView {
        AccountView {
            key: self.key@,
            owner: self.owner@,
            is_signer: self.is_signer,
            lamports: self.lamports,
            data: self.data@,
        }
    }
}

/// A list of accounts: the accounts themselves, each once (`slots`), and for
/// each place of the list the slot of the account that stands there (`order`).
pub struct AccountsView {
    pub slots: Seq<AccountView>,
    pub order: Seq<usize>,
}

impl AccountsView {
    /// Every place names a slot that exists, and every account has an
    /// address and an owner of thirty-two bytes.
    pub open spec fn wf(self) -> bool {
        &&& forall|i: int| 0 <= i < self.order.len() ==> self.order[i] < self.slots.len()
        &&& forall|s: int|
            0 <= s < self.slots.len() ==> self.slots[s].key.len() == 32 && self.slots[s].owner.len()
                == 32
    }

    /// The number of places.
    pub open spec fn len(self) -> nat {
        self.order.len()
    }

    /// The account at place `i`.
    pub open spec fn at(self, i: int) -> AccountView
        recommends
            0 <= i < self.len(),
    {
        self.slots[self.order[i] as int]
    }

    /// The list after the account at place `i` is given the balance `lamports`.
    pub open spec fn with_lamports(self, i: int, lamports: u64) -> AccountsView
        recommends
            0 <= i < self.len(),
    {
        AccountsView {
            slots: self.slots.update(
                self.order[i] as int,
                AccountView { lamports, ..self.at(i) },
            ),
            order: self.order,
        }
    }

    /// The list after `bytes` are written over the start of the data of the
    /// account at place `i`.
    pub open spec fn with_record(self, i: int, bytes: Seq<u8>) -> AccountsView
        recommends
            0 <= i < self.len(),
            bytes.len() <= self.at(i).data.len(),
    {
        AccountsView {
            slots: self.slots.update(
                self.order[i] as int,
                AccountView {
                    data: bytes + self.at(i).data.skip(bytes.len() as int),
                    ..self.at(i)
                },
            ),
            order: self.order,
        }
    }

    /// Whether two lists hold the same accounts at the same places, each with
    /// the address, the owner, the signature and the length of data that it
    /// has in the other: balances and bytes alone may differ.
    pub open spec fn same_shape(self, other: AccountsView) -> bool {
        &&& self.order == other.order
        &&& self.slots.len() == other.slots.len()
        &&& forall|s: int|
            0 <= s < self.slots.len() ==> {
                &&& self.slots[s].key == other.slots[s].key
                &&& self.slots[s].owner == other.slots[s].owner
                &&& self.slots[s].is_signer == other.slots[s].is_signer
                &&& self.slots[s].data.len() == other.slots[s].data.len()
            }
    }

    /// Whether two lists hold the same bytes in every account.
    pub open spec fn same_data(self, other: AccountsView) -> bool {
        &&& self.order == other.order
        &&& self.slots.len() == other.slots.len()
        &&& forall|s: int| 0 <= s < self.slots.len() ==> self.slots[s].data == other.slots[s].data
    }
}

/// The accounts handed to an operation, in the order in which it names them.
pub struct Accounts {
    slots: Vec<Account>,
    order: Vec<usize>,
}

impl View for Accounts {
    type V = AccountsView;

    closed spec fn view(&self) -> AccountsView {
        AccountsView { slots: self.slots@.map_values(|a: Account| a@), order: self.order@ }
    }
}

impl Accounts {
    #[verifier::type_invariant]
    spec fn inv(&self) -> bool {
        self@.wf()
    }

    /// The list that puts at place `i` the account `slots[order[i]]`, or
    /// nothing where `order` names a slot that does not exist.
    pub fn new(slots: Vec<Account>, order: Vec<usize>) -> (r: Option<Accounts>)
        ensures
            match r {
                Some(accounts) => accounts@ == (AccountsView {
                    slots: slots@.map_values(|a: Account| a@),
                    order: order@,
                }) && accounts@.wf(),
                None => exists|i: int| 0 <= i < order@.len() && order@[i] >= slots@.len(),
            },
    {
        let mut i: usize = 0;
        while i < order.len()
            invariant
                i <= order@.len(),
                forall|j: int| 0 <= j < i ==> order@[j] < slots@.len(),
            decreases order@.len() - i,
        {
            if order[i] >= slots.len() {
                return None;
            }
            i += 1;
        }
        Some(Accounts { slots, order })
    }

    /// The list of `slots` as they stand, no account twice.
    pub fn distinct(slots: Vec<Account>) -> (r: Accounts)
        ensures
            r@.slots == slots@.map_values(|a: Account| a@),
            r@.order.len() == slots@.len(),
            forall|i: int| 0 <= i < slots@.len() ==> r@.order[i] == i,
            r@.wf(),
    {
        let mut order: Vec<usize> = Vec::new();
        let mut i: usize = 0;
        while i < slots.len()
            invariant
                i <= slots@.len(),
                order@.len() == i,
                forall|j: int| 0 <= j < i ==> order@[j] == j,
            decreases slots@.len() - i,
        {
            order.push(i);
            i += 1;
        }
        Accounts { slots, order }
    }

    /// The number of places.
    pub fn len(&self) -> (n: usize)
        ensures
            n == self@.len(),
            self@.wf(),
    {
        proof {
            use_type_invariant(self);
        }
        self.order.len()
    }

    /// The account at place `i`.
    pub fn get(&self, i: usize) -> (r: &Account)
        requires
            i < self@.len(),
        ensures
            r@ == self@.at(i as int),
    {
        proof {
            use_type_invariant(self);
        }
        &self.slots[self.order[i]]
    }

    /// Gives the account at place `i` the balance `lamports`.
    pub fn set_lamports(&mut self, i: usize, lamports: u64)
        requires
            i < old(self)@.len(),
        ensures
            final(self)@ == old(self)@.with_lamports(i as int, lamports),
    {
        proof {
            use_type_invariant(&*self);
        }
        let slot: usize = self.order[i];
        self.slots[slot].lamports = lamports;
        assert(self@.slots =~= old(self)@.with_lamports(i as int, lamports).slots);
    }

    /// Writes `bytes` over the start of the data of the account at place `i`.
    /// The data keeps its length; where it is too short for `bytes`, nothing
    /// is written.
    pub fn write_record(&mut self, i: usize, bytes: &Vec<u8>) -> (r: Result<(), StakingError>)
        requires
            i < old(self)@.len(),
        ensures
            match r {
                Ok(_) => {
                    &&& old(self)@.at(i as int).data.len() >= bytes@.len()
                    &&& final(self)@ == old(self)@.with_record(i as int, bytes@)
                },
                Err(e) => {
                    &&& old(self)@.at(i as int).data.len() < bytes@.len()
                    &&& e == StakingError::BorshIoError
                    &&& final(self)@ == old(self)@
                },
            },
    {
        proof {
            use_type_invariant(&*self);
        }
        let slot: usize = self.order[i];
        let r = write_over(&mut self.slots[slot].data, bytes);
        assert(self@.slots =~= if r is Ok {
            old(self)@.with_record(i as int, bytes@).slots
        } else {
            old(self)@.slots
        });
        r
    }
}

} // verus!
