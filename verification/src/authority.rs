//! Derived authorities: deterministic, unforgeable sub-addresses computed
//! from a seed tuple and the program id.
//!
//! The host chain supplies one primitive: deriving an address from seeds,
//! which fails for some tuples (seed limits, or a hash that lands on the
//! curve). Probing bump bytes from 255 downward for the first tuple that
//! derives, and checking a caller-supplied address against a recomputed
//! one, are ordinary verified code on top of that primitive.

use vstd::prelude::*;

use vstd::array::array_as_slice;
use vstd::bytes::spec_u32_to_le_bytes;
use vstd::bytes::u32_to_le_bytes;

use crate::addr::Address;
use crate::error::StakePoolError;
use crate::processor::Processor;
use crate::state::StakePool;
use crate::state::ValidatorStakeInfo;

verus! {

/// The address the host chain derives from a seed tuple and a program id,
/// if that tuple derives one at all. A function of its arguments alone.
pub uninterp spec fn derived_address(seeds: Seq<Seq<u8>>, program_id: Seq<u8>) -> Option<Seq<u8>>;

/// The seed tuples handlers use: a base tuple with one trailing
/// single-byte bump seed.
pub open spec fn spec_bump_seeds(base: Seq<Seq<u8>>, bump: u8) -> Seq<Seq<u8>> {
    base.push(seq![bump])
}

/// The byte views of a vector of seed vectors.
pub open spec fn seeds_view(seeds: Seq<Vec<u8>>) -> Seq<Seq<u8>> {
    seeds.map_values(|v: Vec<u8>| v@)
}

/// Relies on `Pubkey::create_program_address` of the host chain's SDK:
/// the result is a deterministic function of the seed slices and the
/// program id, returning an address for some tuples and an error for the
/// rest (too many seeds, a seed over the length cap, or a hash that is a
/// curve point). The bump byte is appended as the final single-byte seed,
/// as every caller in this program shapes its tuples.
#[verifier::external_body]
fn try_derive_with_bump(seeds: &Vec<Vec<u8>>, bump: u8, program_id: &Address) -> (r: Option<
    Address,
>)
    ensures
        match r {
            Some(a) => derived_address(spec_bump_seeds(seeds_view(seeds@), bump), program_id@)
                == Some(a@),
            None => derived_address(spec_bump_seeds(seeds_view(seeds@), bump), program_id@)
                is None,
        },
{
    let mut refs: Vec<&[u8]> = Vec::new();
    for s in seeds.iter() {
        refs.push(s.as_slice());
    }
    let bump_arr = [bump];
    refs.push(&bump_arr);
    let pk = solana_program::pubkey::Pubkey::new_from_array(program_id.bytes);
    match solana_program::pubkey::Pubkey::create_program_address(&refs, &pk) {
        Ok(a) => Some(Address { bytes: a.to_bytes() }),
        Err(_) => None,
    }
}

/// Probes bump bytes from 255 down to 1 and returns the first address
/// that derives, with its bump. Fails only if no bump in that range
/// derives an address.
fn find_program_address_for(seeds: &Vec<Vec<u8>>, program_id: &Address) -> (r: Result<
    (Address, u8),
    StakePoolError,
>)
    ensures
        match r {
            Ok((a, bump)) => {
                &&& bump >= 1
                &&& derived_address(spec_bump_seeds(seeds_view(seeds@), bump), program_id@)
                    == Some(a@)
                &&& forall|b: u8|
                    b > bump ==> derived_address(
                        spec_bump_seeds(seeds_view(seeds@), b),
                        program_id@,
                    ) is None
            },
            Err(e) => {
                &&& e == StakePoolError::InvalidProgramAddress
                &&& forall|b: u8|
                    b >= 1 ==> derived_address(
                        spec_bump_seeds(seeds_view(seeds@), b),
                        program_id@,
                    ) is None
            },
        },
{
    let mut bump: u8 = 255;
    loop
        invariant
            bump >= 1,
            forall|b: u8|
                b > bump ==> derived_address(
                    spec_bump_seeds(seeds_view(seeds@), b),
                    program_id@,
                ) is None,
        decreases bump,
    {
        match try_derive_with_bump(seeds, bump, program_id) {
            Some(a) => {
                return Ok((a, bump));
            },
            None => {},
        }
        if bump == 1 {
            return Err(StakePoolError::InvalidProgramAddress);
        }
        bump = bump - 1;
    }
}

/// Probing from 255 downward lands on `(addr, bump)`: that bump derives
/// `addr` and every higher bump derives nothing.
pub open spec fn spec_pda_found(base: Seq<Seq<u8>>, program_id: Seq<u8>, addr: Seq<u8>, bump: u8) -> bool {
    &&& bump >= 1
    &&& derived_address(spec_bump_seeds(base, bump), program_id) == Some(addr)
    &&& forall|b: u8|
        b > bump ==> derived_address(spec_bump_seeds(base, b), program_id) is None
}

/// Probing lands on some address other than `key`.
pub open spec fn spec_pda_differs(base: Seq<Seq<u8>>, program_id: Seq<u8>, key: Seq<u8>) -> bool {
    exists|bump: u8, a: Seq<u8>|
        #![trigger spec_pda_found(base, program_id, a, bump)]
        spec_pda_found(base, program_id, a, bump) && a != key
}

/// Landing on another address rules out landing on `key`, and rules out
/// the probe failing altogether.
pub proof fn lemma_pda_differs_not_matches(base: Seq<Seq<u8>>, program_id: Seq<u8>, key: Seq<u8>)
    requires
        spec_pda_differs(base, program_id, key),
    ensures
        !spec_pda_matches(base, program_id, key),
        !spec_pda_none(base, program_id),
{
    let (bump, a): (u8, Seq<u8>) = choose|bump: u8, a: Seq<u8>|
        #![trigger spec_pda_found(base, program_id, a, bump)]
        spec_pda_found(base, program_id, a, bump) && a != key;
    assert(derived_address(spec_bump_seeds(base, bump), program_id) is Some);
    if spec_pda_matches(base, program_id, key) {
        let b2 = choose|b: u8| spec_pda_found(base, program_id, key, b);
        lemma_pda_found_unique(base, program_id, a, bump, key, b2);
    }
}

/// No bump byte from 1 to 255 derives an address for this tuple.
pub open spec fn spec_pda_none(base: Seq<Seq<u8>>, program_id: Seq<u8>) -> bool {
    forall|b: u8| b >= 1 ==> derived_address(spec_bump_seeds(base, b), program_id) is None
}

/// Probing lands exactly on `key`.
pub open spec fn spec_pda_matches(base: Seq<Seq<u8>>, program_id: Seq<u8>, key: Seq<u8>) -> bool {
    exists|bump: u8| #[trigger] spec_pda_found(base, program_id, key, bump)
}

/// Probing can land on at most one address-and-bump pair.
pub proof fn lemma_pda_found_unique(
    base: Seq<Seq<u8>>,
    program_id: Seq<u8>,
    a1: Seq<u8>,
    b1: u8,
    a2: Seq<u8>,
    b2: u8,
)
    requires
        spec_pda_found(base, program_id, a1, b1),
        spec_pda_found(base, program_id, a2, b2),
    ensures
        a1 == a2,
        b1 == b2,
{
    if b1 < b2 {
        assert(derived_address(spec_bump_seeds(base, b2), program_id) is None);
    }
    if b2 < b1 {
        assert(derived_address(spec_bump_seeds(base, b1), program_id) is None);
    }
}

/// The two-seed base tuple every pool authority derives from: the pool
/// key, then an authority-kind tag.
pub open spec fn spec_authority_seeds(stake_pool: Seq<u8>, authority_type: Seq<u8>) -> Seq<
    Seq<u8>,
> {
    seq![stake_pool, authority_type]
}

/// The three-seed base tuple a validator's stake sub-account derives
/// from: the validator key, the pool key, then the slot index in
/// little-endian bytes.
pub open spec fn spec_stake_address_seeds(validator: Seq<u8>, stake_pool: Seq<u8>, index: u32) -> Seq<Seq<u8>> {
    seq![validator, stake_pool, spec_u32_to_le_bytes(index)]
}

/// Builds the two-seed authority tuple.
fn authority_seeds(stake_pool: &Address, authority_type: &Vec<u8>) -> (r: Vec<Vec<u8>>)
    ensures
        seeds_view(r@) == spec_authority_seeds(stake_pool@, authority_type@),
{
    let mut r: Vec<Vec<u8>> = Vec::new();
    let mut v1: Vec<u8> = Vec::new();
    v1.extend_from_slice(array_as_slice(&stake_pool.bytes));
    proof {
        assert(v1@ =~= stake_pool@);
    }
    r.push(v1);
    let mut v2: Vec<u8> = Vec::new();
    v2.extend_from_slice(authority_type.as_slice());
    proof {
        assert(v2@ =~= authority_type@);
    }
    r.push(v2);
    proof {
        assert(seeds_view(r@) =~= spec_authority_seeds(stake_pool@, authority_type@));
    }
    r
}

/// Builds the three-seed stake sub-account tuple.
fn stake_address_seeds(validator: &Address, stake_pool: &Address, index: u32) -> (r: Vec<Vec<u8>>)
    ensures
        seeds_view(r@) == spec_stake_address_seeds(validator@, stake_pool@, index),
{
    let mut r: Vec<Vec<u8>> = Vec::new();
    let mut v1: Vec<u8> = Vec::new();
    v1.extend_from_slice(array_as_slice(&validator.bytes));
    proof {
        assert(v1@ =~= validator@);
    }
    r.push(v1);
    let mut v2: Vec<u8> = Vec::new();
    v2.extend_from_slice(array_as_slice(&stake_pool.bytes));
    proof {
        assert(v2@ =~= stake_pool@);
    }
    r.push(v2);
    let v3 = u32_to_le_bytes(index);
    r.push(v3);
    proof {
        assert(seeds_view(r@) =~= spec_stake_address_seeds(validator@, stake_pool@, index));
    }
    r
}

/// The "deposit" authority tag, as ASCII bytes.
pub open spec fn spec_authority_deposit() -> Seq<u8> {
    seq![100u8, 101u8, 112u8, 111u8, 115u8, 105u8, 116u8]
}

/// The "withdraw" authority tag, as ASCII bytes.
pub open spec fn spec_authority_withdraw() -> Seq<u8> {
    seq![119u8, 105u8, 116u8, 104u8, 100u8, 114u8, 97u8, 119u8]
}

/// The "reserve" account tag, as ASCII bytes.
pub open spec fn spec_authority_reserve() -> Seq<u8> {
    seq![114u8, 101u8, 115u8, 101u8, 114u8, 118u8, 101u8]
}

/// The "temp" account tag, as ASCII bytes.
pub open spec fn spec_temp_account() -> Seq<u8> {
    seq![116u8, 101u8, 109u8, 112u8]
}

impl Processor {
    /// Seed tag for the deposit authority: the bytes of `"deposit"`.
    pub fn authority_deposit() -> (r: Vec<u8>)
        ensures
            r@ == spec_authority_deposit(),
    {
        let r = vec![100u8, 101u8, 112u8, 111u8, 115u8, 105u8, 116u8];
        proof {
            assert(r@ =~= spec_authority_deposit());
        }
        r
    }

    /// Seed tag for the withdraw authority: the bytes of `"withdraw"`.
    pub fn authority_withdraw() -> (r: Vec<u8>)
        ensures
            r@ == spec_authority_withdraw(),
    {
        let r = vec![119u8, 105u8, 116u8, 104u8, 100u8, 114u8, 97u8, 119u8];
        proof {
            assert(r@ =~= spec_authority_withdraw());
        }
        r
    }

    /// Seed tag for the reserve account: the bytes of `"reserve"`.
    pub fn authority_reserve() -> (r: Vec<u8>)
        ensures
            r@ == spec_authority_reserve(),
    {
        let r = vec![114u8, 101u8, 115u8, 101u8, 114u8, 118u8, 101u8];
        proof {
            assert(r@ =~= spec_authority_reserve());
        }
        r
    }

    /// Seed tag for the temp account: the bytes of `"temp"`.
    pub fn temp_account() -> (r: Vec<u8>)
        ensures
            r@ == spec_temp_account(),
    {
        let r = vec![116u8, 101u8, 109u8, 112u8];
        proof {
            assert(r@ =~= spec_temp_account());
        }
        r
    }

    /// Calculates the authority address for a known bump seed.
    pub fn authority_id(
        program_id: &Address,
        stake_pool: &Address,
        authority_type: &Vec<u8>,
        bump_seed: u8,
    ) -> (r: Result<Address, StakePoolError>)
        ensures
            match r {
                Ok(a) => derived_address(
                    spec_bump_seeds(spec_authority_seeds(stake_pool@, authority_type@), bump_seed),
                    program_id@,
                ) == Some(a@),
                Err(e) => {
                    &&& e == StakePoolError::InvalidProgramAddress
                    &&& derived_address(
                        spec_bump_seeds(
                            spec_authority_seeds(stake_pool@, authority_type@),
                            bump_seed,
                        ),
                        program_id@,
                    ) is None
                },
            },
    {
        let seeds = authority_seeds(stake_pool, authority_type);
        match try_derive_with_bump(&seeds, bump_seed, program_id) {
            Some(a) => Ok(a),
            None => Err(StakePoolError::InvalidProgramAddress),
        }
    }

    /// Generates the seed bump (and address) for a pool authority.
    pub fn find_authority_bump_seed(
        program_id: &Address,
        stake_pool: &Address,
        authority_type: &Vec<u8>,
    ) -> (r: Result<(Address, u8), StakePoolError>)
        ensures
            match r {
                Ok((a, bump)) => {
                    &&& bump >= 1
                    &&& derived_address(
                        spec_bump_seeds(spec_authority_seeds(stake_pool@, authority_type@), bump),
                        program_id@,
                    ) == Some(a@)
                    &&& forall|b: u8|
                        b > bump ==> derived_address(
                            spec_bump_seeds(spec_authority_seeds(stake_pool@, authority_type@), b),
                            program_id@,
                        ) is None
                },
                Err(e) => {
                    &&& e == StakePoolError::InvalidProgramAddress
                    &&& forall|b: u8|
                        b >= 1 ==> derived_address(
                            spec_bump_seeds(spec_authority_seeds(stake_pool@, authority_type@), b),
                            program_id@,
                        ) is None
                },
            },
    {
        let seeds = authority_seeds(stake_pool, authority_type);
        find_program_address_for(&seeds, program_id)
    }

    /// Checks a withdraw or deposit authority against the recomputed one.
    pub fn check_authority(
        authority_to_check: &Address,
        program_id: &Address,
        stake_pool_key: &Address,
        authority_type: &Vec<u8>,
        bump_seed: u8,
    ) -> (r: Result<(), StakePoolError>)
        ensures
            match r {
                Ok(()) => derived_address(
                    spec_bump_seeds(
                        spec_authority_seeds(stake_pool_key@, authority_type@),
                        bump_seed,
                    ),
                    program_id@,
                ) == Some(authority_to_check@),
                Err(e) => {
                    &&& e == StakePoolError::InvalidProgramAddress
                    &&& derived_address(
                        spec_bump_seeds(
                            spec_authority_seeds(stake_pool_key@, authority_type@),
                            bump_seed,
                        ),
                        program_id@,
                    ) != Some(authority_to_check@)
                },
            },
    {
        let id = match Self::authority_id(program_id, stake_pool_key, authority_type, bump_seed) {
            Ok(a) => a,
            Err(e) => {
                return Err(e);
            },
        };
        if !authority_to_check.eq_key(&id) {
            return Err(StakePoolError::InvalidProgramAddress);
        }
        Ok(())
    }

    /// Address (and bump) of the pool's reserve account.
    pub fn get_reserve_adderess(program_id: &Address, stake_pool: &Address) -> (r: Result<
        (Address, u8),
        StakePoolError,
    >)
        ensures
            match r {
                Ok((a, bump)) => {
                    &&& bump >= 1
                    &&& derived_address(
                        spec_bump_seeds(
                            spec_authority_seeds(stake_pool@, spec_authority_reserve()),
                            bump,
                        ),
                        program_id@,
                    ) == Some(a@)
                    &&& forall|b: u8|
                        b > bump ==> derived_address(
                            spec_bump_seeds(
                                spec_authority_seeds(stake_pool@, spec_authority_reserve()),
                                b,
                            ),
                            program_id@,
                        ) is None
                },
                Err(e) => {
                    &&& e == StakePoolError::InvalidProgramAddress
                    &&& forall|b: u8|
                        b >= 1 ==> derived_address(
                            spec_bump_seeds(
                                spec_authority_seeds(stake_pool@, spec_authority_reserve()),
                                b,
                            ),
                            program_id@,
                        ) is None
                },
            },
    {
        let tag = Self::authority_reserve();
        Self::find_authority_bump_seed(program_id, stake_pool, &tag)
    }
}

impl StakePool {
    /// Checks the withdraw authority against the pool's stored bump seed.
    pub fn check_authority_withdraw(
        &self,
        authority_to_check: &Address,
        program_id: &Address,
        stake_pool_key: &Address,
    ) -> (r: Result<(), StakePoolError>)
        ensures
            match r {
                Ok(()) => derived_address(
                    spec_bump_seeds(
                        spec_authority_seeds(stake_pool_key@, spec_authority_withdraw()),
                        self.withdraw_bump_seed,
                    ),
                    program_id@,
                ) == Some(authority_to_check@),
                Err(e) => {
                    &&& e == StakePoolError::InvalidProgramAddress
                    &&& derived_address(
                        spec_bump_seeds(
                            spec_authority_seeds(stake_pool_key@, spec_authority_withdraw()),
                            self.withdraw_bump_seed,
                        ),
                        program_id@,
                    ) != Some(authority_to_check@)
                },
            },
    {
        let tag = Processor::authority_withdraw();
        Processor::check_authority(
            authority_to_check,
            program_id,
            stake_pool_key,
            &tag,
            self.withdraw_bump_seed,
        )
    }

    /// Checks the deposit authority against the pool's stored bump seed.
    pub fn check_authority_deposit(
        &self,
        authority_to_check: &Address,
        program_id: &Address,
        stake_pool_key: &Address,
    ) -> (r: Result<(), StakePoolError>)
        ensures
            match r {
                Ok(()) => derived_address(
                    spec_bump_seeds(
                        spec_authority_seeds(stake_pool_key@, spec_authority_deposit()),
                        self.deposit_bump_seed,
                    ),
                    program_id@,
                ) == Some(authority_to_check@),
                Err(e) => {
                    &&& e == StakePoolError::InvalidProgramAddress
                    &&& derived_address(
                        spec_bump_seeds(
                            spec_authority_seeds(stake_pool_key@, spec_authority_deposit()),
                            self.deposit_bump_seed,
                        ),
                        program_id@,
                    ) != Some(authority_to_check@)
                },
            },
    {
        let tag = Processor::authority_deposit();
        Processor::check_authority(
            authority_to_check,
            program_id,
            stake_pool_key,
            &tag,
            self.deposit_bump_seed,
        )
    }
}

impl ValidatorStakeInfo {
    /// Stake sub-account address (and bump) for this validator's slot
    /// `index`.
    pub fn stake_address(&self, program_id: &Address, stake_pool: &Address, index: u32) -> (r:
        Result<(Address, u8), StakePoolError>)
        ensures
            match r {
                Ok((a, bump)) => {
                    &&& bump >= 1
                    &&& derived_address(
                        spec_bump_seeds(
                            spec_stake_address_seeds(self.validator_account@, stake_pool@, index),
                            bump,
                        ),
                        program_id@,
                    ) == Some(a@)
                    &&& forall|b: u8|
                        b > bump ==> derived_address(
                            spec_bump_seeds(
                                spec_stake_address_seeds(
                                    self.validator_account@,
                                    stake_pool@,
                                    index,
                                ),
                                b,
                            ),
                            program_id@,
                        ) is None
                },
                Err(e) => {
                    &&& e == StakePoolError::InvalidProgramAddress
                    &&& forall|b: u8|
                        b >= 1 ==> derived_address(
                            spec_bump_seeds(
                                spec_stake_address_seeds(
                                    self.validator_account@,
                                    stake_pool@,
                                    index,
                                ),
                                b,
                            ),
                            program_id@,
                        ) is None
                },
            },
    {
        let seeds = stake_address_seeds(&self.validator_account, stake_pool, index);
        find_program_address_for(&seeds, program_id)
    }

    /// Checks that a caller-supplied stake sub-account key is the proper
    /// derived address for this validator's slot `index`, returning the
    /// bump seed the program may sign with.
    pub fn check_validator_stake_address(
        &self,
        program_id: &Address,
        stake_pool: &Address,
        index: u32,
        stake_account_key: &Address,
    ) -> (r: Result<u8, StakePoolError>)
        ensures
            match r {
                Ok(bump) => spec_pda_found(
                    spec_stake_address_seeds(self.validator_account@, stake_pool@, index),
                    program_id@,
                    stake_account_key@,
                    bump,
                ),
                Err(e) => {
                    ||| (e == StakePoolError::InvalidProgramAddress && spec_pda_none(
                        spec_stake_address_seeds(self.validator_account@, stake_pool@, index),
                        program_id@,
                    ))
                    ||| (e == StakePoolError::InvalidStakeAccountAddress && spec_pda_differs(
                        spec_stake_address_seeds(self.validator_account@, stake_pool@, index),
                        program_id@,
                        stake_account_key@,
                    ))
                },
            },
    {
        let (expected_stake_address, bump_seed) = match self.stake_address(
            program_id,
            stake_pool,
            index,
        ) {
            Ok(p) => p,
            Err(e) => {
                return Err(e);
            },
        };
        if !stake_account_key.eq_key(&expected_stake_address) {
            proof {
                let sseeds = spec_stake_address_seeds(self.validator_account@, stake_pool@, index);
                assert(spec_pda_found(sseeds, program_id@, expected_stake_address@, bump_seed));
                assert(spec_pda_differs(sseeds, program_id@, stake_account_key@));
            }
            return Err(StakePoolError::InvalidStakeAccountAddress);
        }
        Ok(bump_seed)
    }
}

} // verus!
