//! The vault: the one token account that holds what the program keeps, and
//! the address without a private key that controls it. Both follow from the
//! program's own address and the mint, so no caller can put another token
//! account in the vault's place.

use crate::address::Address;
use vstd::prelude::*;

verus! {

/// The token program.
pub const TOKEN_PROGRAM_ID: [u8; 32] = [
    6, 221, 246, 225, 215, 101, 161, 147, 217, 203, 225, 70, 206, 235, 121, 172, 28, 180, 133,
    237, 95, 91, 55, 145, 58, 140, 245, 133, 126, 255, 0, 169,
];

/// The program under which the token accounts of wallets are derived.
pub const ASSOCIATED_TOKEN_PROGRAM_ID: [u8; 32] = [
    140, 151, 37, 143, 78, 36, 137, 241, 187, 61, 16, 41, 20, 142, 13, 131, 11, 90, 19, 153, 218,
    255, 16, 132, 4, 142, 123, 216, 219, 233, 248, 89,
];

/// The address, off the signing curve, that `seeds` derive under
/// `program_id`, with the bump seed that led to it; nothing where no bump
/// seed leads to such an address or the seeds are too many or too long.
pub uninterp spec fn program_address(seeds: Seq<Seq<u8>>, program_id: Seq<u8>) -> Option<
    (Seq<u8>, u8),
>;

/// The seeds from which the token account of `wallet` for `mint` derives.
pub open spec fn token_account_seeds(wallet: Seq<u8>, mint: Seq<u8>) -> Seq<Seq<u8>> {
    seq![wallet, TOKEN_PROGRAM_ID@, mint]
}

/// The token account of `wallet` for `mint`.
pub open spec fn token_account_address(wallet: Seq<u8>, mint: Seq<u8>) -> Option<Seq<u8>> {
    match program_address(token_account_seeds(wallet, mint), ASSOCIATED_TOKEN_PROGRAM_ID@) {
        Some((address, _)) => Some(address),
        None => None,
    }
}

/// What a [`VaultAuthority`] holds, in sequences.
pub struct VaultView {
    /// The address that controls the vault.
    pub authority: Seq<u8>,
    /// The bump seed with which the program signs for that address.
    pub bump_seed: u8,
    /// The vault: the authority's token account for the mint.
    pub token_address: Seq<u8>,
}

/// The vault of the program `program_id` for `mint`: its authority derives
/// from no seeds under the program, its token account is the authority's for
/// the mint.
pub open spec fn vault_binding(program_id: Seq<u8>, mint: Seq<u8>) -> Option<VaultView> {
    match program_address(Seq::<Seq<u8>>::empty(), program_id) {
        Some((authority, bump_seed)) => match token_account_address(authority, mint) {
            Some(token_address) => Some(VaultView { authority, bump_seed, token_address }),
            None => None,
        },
        None => None,
    }
}

/// Whether `token_account` is the vault of `program_id` for `mint`.
pub open spec fn is_vault(program_id: Seq<u8>, mint: Seq<u8>, token_account: Seq<u8>) -> bool {
    match vault_binding(program_id, mint) {
        Some(vault) => vault.token_address == token_account,
        None => false,
    }
}

/// Calls `Pubkey::try_find_program_address` of solana_program: the search,
/// from bump seed 255 downwards, for an address that the seeds and the bump
/// seed hash to under `program_id` and that is no point of the signing curve.
/// The result depends on the arguments alone; the contract gives it its name.
#[verifier::external_body]
fn find_program_address(seeds: &Vec<Vec<u8>>, program_id: &Address) -> (r: Option<(Address, u8)>)
    ensures
        match r {
            Some((address, bump_seed)) => program_address(seeds.deep_view(), program_id@) == Some(
                (address@, bump_seed),
            ),
            None => program_address(seeds.deep_view(), program_id@) is None,
        },
{
    let seeds: Vec<&[u8]> = seeds.iter().map(|seed| seed.as_slice()).collect();
    let program_id = solana_program::pubkey::Pubkey::new_from_array(program_id.bytes);
    solana_program::pubkey::Pubkey::try_find_program_address(&seeds, &program_id)
        .map(|(key, bump_seed)| (Address { bytes: key.to_bytes() }, bump_seed))
}

/// Calls `get_associated_token_address` of spl_associated_token_account,
/// which derives an address from the wallet, the token program and the mint
/// under the associated token program, and panics where that derivation
/// finds none: the precondition leaves those arguments out.
#[verifier::external_body]
#[allow(deprecated)]
fn associated_token_address(wallet: &Address, mint: &Address) -> (r: Address)
    requires
        token_account_address(wallet@, mint@) is Some,
    ensures
        Some(r@) == token_account_address(wallet@, mint@),
{
    let wallet = solana_program::pubkey::Pubkey::new_from_array(wallet.bytes);
    let mint = solana_program::pubkey::Pubkey::new_from_array(mint.bytes);
    Address {
        bytes: spl_associated_token_account::get_associated_token_address(&wallet, &mint)
            .to_bytes(),
    }
}

/// Control of the vault of one program for one mint. A value of this type is
/// made by [`VaultAuthority::bind`] alone, so whoever holds one holds the
/// vault's true address and the bump seed that signs for it.
#[derive(Clone, Copy, Debug, PartialEq, Eq)]
pub struct VaultAuthority {
    program_id: Address,
    mint: Address,
    address: Address,
    bump_seed: u8,
    token_address: Address,
}

impl View for VaultAuthority {
    type V = VaultView;

    closed spec fn view(&self) -> VaultView {
        VaultView {
            authority: self.address@,
            bump_seed: self.bump_seed,
            token_address: self.token_address@,
        }
    }
}

impl VaultAuthority {
    #[verifier::type_invariant]
    spec fn inv(&self) -> bool {
        vault_binding(self.program_id@, self.mint@) == Some(self@)
    }

    /// The program that the vault belongs to.
    pub closed spec fn program_id(&self) -> Seq<u8> {
        self.program_id@
    }

    /// The mint of the tokens in the vault.
    pub closed spec fn mint(&self) -> Seq<u8> {
        self.mint@
    }

    /// Derives the vault of `program_id` for `mint`. Nothing is kept from one
    /// call to the next: every operation derives it anew.
    pub fn bind(program_id: &Address, mint: &Address) -> (r: Option<VaultAuthority>)
        ensures
            match r {
                Some(vault) => vault_binding(program_id@, mint@) == Some(vault@)
                    && vault.program_id() == program_id@ && vault.mint() == mint@,
                None => vault_binding(program_id@, mint@) is None,
            },
    {
        let no_seeds: Vec<Vec<u8>> = Vec::new();
        assert(no_seeds.deep_view() =~~= Seq::<Seq<u8>>::empty());
        let (address, bump_seed) = match find_program_address(&no_seeds, program_id) {
            Some(found) => found,
            None => {
                return None;
            },
        };
        let mut seeds: Vec<Vec<u8>> = Vec::new();
        seeds.push(address.to_vec());
        seeds.push(Address::new(TOKEN_PROGRAM_ID).to_vec());
        seeds.push(mint.to_vec());
        assert(seeds.deep_view() =~~= token_account_seeds(address@, mint@));
        let associated_program: Address = Address::new(ASSOCIATED_TOKEN_PROGRAM_ID);
        if find_program_address(&seeds, &associated_program).is_none() {
            return None;
        }
        let token_address: Address = associated_token_address(&address, mint);
        Some(
            VaultAuthority {
                program_id: *program_id,
                mint: *mint,
                address,
                bump_seed,
                token_address,
            },
        )
    }

    /// The address that controls the vault.
    pub fn address(&self) -> (r: Address)
        ensures
            r@ == self@.authority,
    {
        self.address
    }

    /// The bump seed with which the program signs for the vault's authority.
    /// It is the true one: the vault is the vault of its program.
    pub fn bump_seed(&self) -> (r: u8)
        ensures
            r == self@.bump_seed,
            vault_binding(self.program_id(), self.mint()) == Some(self@),
    {
        proof {
            use_type_invariant(self);
        }
        self.bump_seed
    }

    /// The vault's token account.
    pub fn token_address(&self) -> (r: Address)
        ensures
            r@ == self@.token_address,
    {
        self.token_address
    }
}

/// Whether `token_account` is the vault of `program_id` for `mint`, and if
/// so, control of that vault.
pub fn vault_of(program_id: &Address, mint: &Address, token_account: &Address) -> (r: Option<
    VaultAuthority,
>)
    ensures
        r is Some == is_vault(program_id@, mint@, token_account@),
        r matches Some(vault) ==> vault_binding(program_id@, mint@) == Some(vault@)
            && vault.program_id() == program_id@ && vault.mint() == mint@,
{
    match VaultAuthority::bind(program_id, mint) {
        Some(vault) => {
            if vault.token_address().same(token_account) {
                Some(vault)
            } else {
                None
            }
        },
        None => None,
    }
}

} // verus!
