//! Views of the fungible-token collaborator's records.
//!
//! The token program's account and mint records are parsed by its own
//! library; the handlers only read a few fields of the result, carried
//! here as plain values.

use vstd::prelude::*;

use crate::addr::Address;
use crate::error::StakePoolError;
use solana_program::program_option::COption;
use solana_program::program_pack::Pack;

verus! {

/// What the handlers read of a token account record: its mint, whether
/// its state is exactly "initialized", and whether a delegate or a close
/// authority is set.
#[derive(Clone, Copy, Debug)]
pub struct TokenAccountView {
    /// The mint the account holds tokens of.
    pub mint: Address,
    /// Whether the account state is exactly the initialized one (not
    /// uninitialized, not frozen).
    pub state_initialized: bool,
    /// Whether a delegate is set.
    pub has_delegate: bool,
    /// Whether a close authority is set.
    pub has_close_authority: bool,
}

/// What the handlers read of a mint record: its minting authority, if
/// any, and the current supply.
#[derive(Clone, Copy, Debug)]
pub struct MintView {
    /// The authority allowed to mint, if one is set.
    pub mint_authority: Option<Address>,
    /// Total supply of tokens.
    pub supply: u64,
}

/// What the token program's codec reads out of a 165-byte token account
/// record: mint key, exact-initialized flag, delegate flag, close
/// authority flag; `None` where the record does not parse. A function of
/// the bytes alone.
pub uninterp spec fn token_account_of(data: Seq<u8>) -> Option<(Seq<u8>, bool, bool, bool)>;

/// What the token program's codec reads out of an 82-byte mint record:
/// minting authority, if set, and supply; `None` where the record does
/// not parse. A function of the bytes alone.
pub uninterp spec fn mint_of(data: Seq<u8>) -> Option<(Option<Seq<u8>>, u64)>;

/// Relies on spl_token's `Account::unpack_from_slice`: it parses the
/// first 165 bytes of the buffer, a function of those bytes alone, and
/// every failure path reports bad account data.
#[verifier::external_body]
pub(crate) fn unpack_token_account(data: &[u8]) -> (r: Result<TokenAccountView, StakePoolError>)
    requires
        data@.len() >= 165,
    ensures
        match r {
            Ok(v) => token_account_of(data@.take(165)) == Some(
                (v.mint@, v.state_initialized, v.has_delegate, v.has_close_authority),
            ),
            Err(e) => {
                &&& token_account_of(data@.take(165)) is None
                &&& e == StakePoolError::InvalidAccountData
            },
        },
{
    match spl_token::state::Account::unpack_from_slice(data) {
        Ok(a) => Ok(TokenAccountView {
            mint: Address { bytes: a.mint.to_bytes() },
            state_initialized: a.state == spl_token::state::AccountState::Initialized,
            has_delegate: a.delegate.is_some(),
            has_close_authority: a.close_authority.is_some(),
        }),
        Err(_) => Err(StakePoolError::InvalidAccountData),
    }
}

/// Relies on spl_token's `Mint::unpack_from_slice`: it parses the first
/// 82 bytes of the buffer, a function of those bytes alone, and every
/// failure path reports bad account data.
#[verifier::external_body]
pub(crate) fn unpack_mint(data: &[u8]) -> (r: Result<MintView, StakePoolError>)
    requires
        data@.len() >= 82,
    ensures
        match r {
            Ok(v) => mint_of(data@.take(82)) == Some(
                (
                    match v.mint_authority {
                        Some(a) => Some(a@),
                        None => None,
                    },
                    v.supply,
                ),
            ),
            Err(e) => {
                &&& mint_of(data@.take(82)) is None
                &&& e == StakePoolError::InvalidAccountData
            },
        },
{
    match spl_token::state::Mint::unpack_from_slice(data) {
        Ok(m) => Ok(MintView {
            mint_authority: match m.mint_authority {
                COption::Some(k) => Some(Address { bytes: k.to_bytes() }),
                COption::None => None,
            },
            supply: m.supply,
        }),
        Err(_) => Err(StakePoolError::InvalidAccountData),
    }
}

} // verus!
