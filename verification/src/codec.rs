//! Binary state codec: explicit little-endian, field-by-field layouts for
//! every persisted record.
//!
//! Fixed-width records occupy a fixed prefix of their account buffer.
//! Variable-length lists use a 1-byte version, a 2-byte little-endian
//! count, then `count` fixed-width entries, inside a buffer whose capacity
//! is fixed at creation to the maximum cardinality. A first byte of 0
//! always decodes to the empty, uninitialized value, so freshly allocated
//! storage decodes safely.

use vstd::prelude::*;

use vstd::array::array_as_slice;
use vstd::bytes::spec_u16_from_le_bytes;
use vstd::bytes::spec_u32_from_le_bytes;
use vstd::bytes::spec_u64_from_le_bytes;
use vstd::bytes::u16_from_le_bytes;
use vstd::bytes::u16_to_le_bytes;
use vstd::bytes::u32_from_le_bytes;
use vstd::bytes::u64_from_le_bytes;
use vstd::bytes::u64_to_le_bytes;
use vstd::bytes::lemma_auto_spec_u64_to_from_le_bytes;
use vstd::slice::slice_subrange;

use crate::addr::Address;
use crate::error::StakePoolError;
use crate::state::CreditList;
use crate::state::CreditRecord;
use crate::state::StakePool;
use crate::state::Fee;
use crate::state::ValidatorStakeInfo;
use crate::state::ValidatorStakeList;
use crate::state::MAX_CREDIT_RECORDS;
use crate::state::MAX_VALIDATORS;

verus! {

/// Serialized length of a [`StakePool`] record.
pub const STAKE_POOL_LEN: usize = 267;

/// Serialized length of a [`ValidatorStakeInfo`] entry.
pub const VALIDATOR_STAKE_INFO_LEN: usize = 52;

/// Header of a list record: version byte plus 2-byte count.
pub const LIST_HEADER_LEN: usize = 3;

/// Serialized length of a [`ValidatorStakeList`] buffer at full capacity.
pub const VALIDATOR_STAKE_LIST_LEN: usize = 5203;

/// Serialized length of a [`CreditRecord`] entry.
pub const CREDIT_RECORD_LEN: usize = 72;

/// Serialized length of a [`CreditList`] buffer at full capacity.
pub const CREDIT_LIST_LEN: usize = 720003;

/// The pool record `p` and the first 267 bytes of `s` carry the same
/// fields. For a given `s` this pins every field of `p`, and for a given
/// `p` it pins every one of those bytes.
pub open spec fn spec_stake_pool_matches(p: StakePool, s: Seq<u8>) -> bool
    recommends
        s.len() >= STAKE_POOL_LEN,
{
    &&& p.version == s[0]
    &&& p.owner@ == s.subrange(1, 33)
    &&& p.deposit_bump_seed == s[33]
    &&& p.withdraw_bump_seed == s[34]
    &&& p.validator_stake_list@ == s.subrange(35, 67)
    &&& p.credit_list@ == s.subrange(67, 99)
    &&& p.pool_mint@ == s.subrange(99, 131)
    &&& p.owner_fee_account@ == s.subrange(131, 163)
    &&& p.credit_reserve@ == s.subrange(163, 195)
    &&& p.token_program_id@ == s.subrange(195, 227)
    &&& p.stake_total == spec_u64_from_le_bytes(s.subrange(227, 235))
    &&& p.pool_total == spec_u64_from_le_bytes(s.subrange(235, 243))
    &&& p.last_update_epoch == spec_u64_from_le_bytes(s.subrange(243, 251))
    &&& p.fee.denominator == spec_u64_from_le_bytes(s.subrange(251, 259))
    &&& p.fee.numerator == spec_u64_from_le_bytes(s.subrange(259, 267))
}

/// The entry `v` and the 52 bytes of `s` carry the same fields.
pub open spec fn spec_validator_stake_info_matches(v: ValidatorStakeInfo, s: Seq<u8>) -> bool
    recommends
        s.len() == VALIDATOR_STAKE_INFO_LEN,
{
    &&& v.validator_account@ == s.subrange(0, 32)
    &&& v.balance == spec_u64_from_le_bytes(s.subrange(32, 40))
    &&& v.last_update_epoch == spec_u64_from_le_bytes(s.subrange(40, 48))
    &&& v.stake_count == spec_u32_from_le_bytes(s.subrange(48, 52))
}

/// The claim `c` and the 72 bytes of `s` carry the same fields.
pub open spec fn spec_credit_record_matches(c: CreditRecord, s: Seq<u8>) -> bool
    recommends
        s.len() == CREDIT_RECORD_LEN,
{
    &&& c.sol_target@ == s.subrange(0, 32)
    &&& c.cancel_authority@ == s.subrange(32, 64)
    &&& c.token_amount == spec_u64_from_le_bytes(s.subrange(64, 72))
}

/// The list `l` and the buffer `s` carry the same contents: a zero first
/// byte stands for the empty, uninitialized list; otherwise the header
/// gives the version and count and the entries follow densely.
pub open spec fn spec_validator_stake_list_matches(l: ValidatorStakeList, s: Seq<u8>) -> bool
    recommends
        s.len() >= VALIDATOR_STAKE_LIST_LEN,
{
    if s[0] == 0 {
        l.version == 0 && l.validators@.len() == 0
    } else {
        &&& l.version == s[0]
        &&& l.validators@.len() == spec_u16_from_le_bytes(s.subrange(1, 3))
        &&& l.validators@.len() <= MAX_VALIDATORS
        &&& forall|i: int|
            0 <= i < l.validators@.len() ==> spec_validator_stake_info_matches(
                l.validators@[i],
                s.subrange(
                    LIST_HEADER_LEN + i * VALIDATOR_STAKE_INFO_LEN,
                    LIST_HEADER_LEN + i * VALIDATOR_STAKE_INFO_LEN + VALIDATOR_STAKE_INFO_LEN,
                ),
            )
    }
}

/// The list `l` and the buffer `s` carry the same contents.
pub open spec fn spec_credit_list_matches(l: CreditList, s: Seq<u8>) -> bool
    recommends
        s.len() >= CREDIT_LIST_LEN,
{
    if s[0] == 0 {
        l.version == 0 && l.credits@.len() == 0
    } else {
        &&& l.version == s[0]
        &&& l.credits@.len() == spec_u16_from_le_bytes(s.subrange(1, 3))
        &&& l.credits@.len() <= MAX_CREDIT_RECORDS
        &&& forall|i: int|
            0 <= i < l.credits@.len() ==> spec_credit_record_matches(
                l.credits@[i],
                s.subrange(
                    LIST_HEADER_LEN + i * CREDIT_RECORD_LEN,
                    LIST_HEADER_LEN + i * CREDIT_RECORD_LEN + CREDIT_RECORD_LEN,
                ),
            )
    }
}

/// Codec idempotence for the pool record: the bytes written for a record
/// determine it completely, so decoding what was encoded gives the record
/// back. Stated as injectivity of the layout: two records that match the
/// same buffer are the same record.
pub proof fn lemma_stake_pool_codec_round_trip(p: StakePool, q: StakePool, s: Seq<u8>)
    requires
        s.len() >= STAKE_POOL_LEN,
        spec_stake_pool_matches(p, s),
        spec_stake_pool_matches(q, s),
    ensures
        p == q,
{
    crate::addr::lemma_address_view_injective(p.owner, q.owner);
    crate::addr::lemma_address_view_injective(p.validator_stake_list, q.validator_stake_list);
    crate::addr::lemma_address_view_injective(p.credit_list, q.credit_list);
    crate::addr::lemma_address_view_injective(p.pool_mint, q.pool_mint);
    crate::addr::lemma_address_view_injective(p.owner_fee_account, q.owner_fee_account);
    crate::addr::lemma_address_view_injective(p.credit_reserve, q.credit_reserve);
    crate::addr::lemma_address_view_injective(p.token_program_id, q.token_program_id);
}

/// Codec idempotence for one validator entry: two entries that match the
/// same 52 bytes are the same entry.
pub proof fn lemma_validator_stake_info_codec_round_trip(
    v: ValidatorStakeInfo,
    w: ValidatorStakeInfo,
    s: Seq<u8>,
)
    requires
        s.len() == VALIDATOR_STAKE_INFO_LEN,
        spec_validator_stake_info_matches(v, s),
        spec_validator_stake_info_matches(w, s),
    ensures
        v == w,
{
    crate::addr::lemma_address_view_injective(v.validator_account, w.validator_account);
}

/// Codec idempotence for one credit claim: two claims that match the same
/// 72 bytes are the same claim.
pub proof fn lemma_credit_record_codec_round_trip(c: CreditRecord, d: CreditRecord, s: Seq<u8>)
    requires
        s.len() == CREDIT_RECORD_LEN,
        spec_credit_record_matches(c, s),
        spec_credit_record_matches(d, s),
    ensures
        c == d,
{
    crate::addr::lemma_address_view_injective(c.sol_target, d.sol_target);
    crate::addr::lemma_address_view_injective(c.cancel_authority, d.cancel_authority);
}

/// Codec idempotence for the validator list, the all-zero uninitialized
/// buffer included: two lists that match the same buffer hold the same
/// version and the same records.
pub proof fn lemma_validator_stake_list_codec_round_trip(
    p: ValidatorStakeList,
    q: ValidatorStakeList,
    s: Seq<u8>,
)
    requires
        s.len() >= VALIDATOR_STAKE_LIST_LEN,
        spec_validator_stake_list_matches(p, s),
        spec_validator_stake_list_matches(q, s),
    ensures
        p.version == q.version,
        p.validators@ == q.validators@,
{
    if s[0] == 0 {
        assert(p.validators@ =~= q.validators@);
    } else {
        assert forall|i: int| 0 <= i < p.validators@.len() implies p.validators@[i]
            == q.validators@[i] by {
            lemma_validator_stake_info_codec_round_trip(
                p.validators@[i],
                q.validators@[i],
                s.subrange(3 + i * 52, 3 + i * 52 + 52),
            );
        }
        assert(p.validators@ =~= q.validators@);
    }
}

/// Codec idempotence for the credit list, the all-zero uninitialized
/// buffer included: two lists that match the same buffer hold the same
/// version and the same claims.
pub proof fn lemma_credit_list_codec_round_trip(p: CreditList, q: CreditList, s: Seq<u8>)
    requires
        s.len() >= CREDIT_LIST_LEN,
        spec_credit_list_matches(p, s),
        spec_credit_list_matches(q, s),
    ensures
        p.version == q.version,
        p.credits@ == q.credits@,
{
    if s[0] == 0 {
        assert(p.credits@ =~= q.credits@);
    } else {
        assert forall|i: int| 0 <= i < p.credits@.len() implies p.credits@[i]
            == q.credits@[i] by {
            lemma_credit_record_codec_round_trip(
                p.credits@[i],
                q.credits@[i],
                s.subrange(3 + i * 72, 3 + i * 72 + 72),
            );
        }
        assert(p.credits@ =~= q.credits@);
    }
}

/// Overwrites `dst[off .. off + src.len()]` with `src`, leaving the rest
/// of `dst` as it was.
fn copy_at(dst: &mut Vec<u8>, off: usize, src: &[u8])
    requires
        off + src@.len() <= old(dst)@.len(),
    ensures
        final(dst)@.len() == old(dst)@.len(),
        forall|j: int|
            off <= j < off + src@.len() ==> final(dst)@[j] == src@[j - off],
        forall|j: int|
            (0 <= j < off || off + src@.len() <= j < old(dst)@.len()) ==> final(dst)@[j] == old(
                dst,
            )@[j],
{
    let n = src.len();
    let dlen = dst.len();
    let mut i: usize = 0;
    while i < n
        invariant
            n == src@.len(),
            dlen == dst@.len(),
            off + n <= dlen,
            dst@.len() == old(dst)@.len(),
            i <= n,
            forall|j: int| off <= j < off + i ==> dst@[j] == src@[j - off],
            forall|j: int|
                (0 <= j < off || off + i <= j < old(dst)@.len()) ==> dst@[j] == old(dst)@[j],
        decreases n - i,
    {
        dst[off + i] = src[i];
        i += 1;
    }
}

impl StakePool {
    /// Length of state data when serialized.
    pub const LEN: usize = 267;

    /// Deserializes a byte buffer into a [`StakePool`].
    pub fn deserialize(input: &[u8]) -> (r: Result<StakePool, StakePoolError>)
        ensures
            match r {
                Ok(p) => input@.len() >= STAKE_POOL_LEN && spec_stake_pool_matches(p, input@),
                Err(e) => input@.len() < STAKE_POOL_LEN && e == StakePoolError::InvalidAccountData,
            },
    {
        if input.len() < STAKE_POOL_LEN {
            return Err(StakePoolError::InvalidAccountData);
        }
        let p = StakePool {
            version: input[0],
            owner: Address::read(input, 1),
            deposit_bump_seed: input[33],
            withdraw_bump_seed: input[34],
            validator_stake_list: Address::read(input, 35),
            credit_list: Address::read(input, 67),
            pool_mint: Address::read(input, 99),
            owner_fee_account: Address::read(input, 131),
            credit_reserve: Address::read(input, 163),
            token_program_id: Address::read(input, 195),
            stake_total: u64_from_le_bytes(slice_subrange(input, 227, 235)),
            pool_total: u64_from_le_bytes(slice_subrange(input, 235, 243)),
            last_update_epoch: u64_from_le_bytes(slice_subrange(input, 243, 251)),
            fee: Fee {
                denominator: u64_from_le_bytes(slice_subrange(input, 251, 259)),
                numerator: u64_from_le_bytes(slice_subrange(input, 259, 267)),
            },
        };
        Ok(p)
    }

    /// Serializes a [`StakePool`] into the front of a byte buffer, leaving
    /// the bytes past the record as they were.
    pub fn serialize(&self, output: &mut Vec<u8>) -> (r: Result<(), StakePoolError>)
        ensures
            match r {
                Ok(()) => {
                    &&& old(output)@.len() >= STAKE_POOL_LEN
                    &&& final(output)@.len() == old(output)@.len()
                    &&& spec_stake_pool_matches(*self, final(output)@)
                    &&& forall|j: int|
                        STAKE_POOL_LEN <= j < old(output)@.len() ==> final(output)@[j] == old(
                            output,
                        )@[j]
                },
                Err(e) => {
                    &&& old(output)@.len() < STAKE_POOL_LEN
                    &&& e == StakePoolError::InvalidAccountData
                    &&& final(output)@ == old(output)@
                },
            },
    {
        if output.len() < STAKE_POOL_LEN {
            return Err(StakePoolError::InvalidAccountData);
        }
        proof {
            lemma_auto_spec_u64_to_from_le_bytes();
        }
        let version: [u8; 1] = [self.version];
        copy_at(output, 0, array_as_slice(&version));
        copy_at(output, 1, array_as_slice(&self.owner.bytes));
        let bumps: [u8; 2] = [self.deposit_bump_seed, self.withdraw_bump_seed];
        copy_at(output, 33, array_as_slice(&bumps));
        copy_at(output, 35, array_as_slice(&self.validator_stake_list.bytes));
        copy_at(output, 67, array_as_slice(&self.credit_list.bytes));
        copy_at(output, 99, array_as_slice(&self.pool_mint.bytes));
        copy_at(output, 131, array_as_slice(&self.owner_fee_account.bytes));
        copy_at(output, 163, array_as_slice(&self.credit_reserve.bytes));
        copy_at(output, 195, array_as_slice(&self.token_program_id.bytes));
        let b = u64_to_le_bytes(self.stake_total);
        copy_at(output, 227, b.as_slice());
        let b = u64_to_le_bytes(self.pool_total);
        copy_at(output, 235, b.as_slice());
        let b = u64_to_le_bytes(self.last_update_epoch);
        copy_at(output, 243, b.as_slice());
        let b = u64_to_le_bytes(self.fee.denominator);
        copy_at(output, 251, b.as_slice());
        let b = u64_to_le_bytes(self.fee.numerator);
        copy_at(output, 259, b.as_slice());
        proof {
            assert(self.owner@ =~= final(output)@.subrange(1, 33));
            assert(self.validator_stake_list@ =~= final(output)@.subrange(35, 67));
            assert(self.credit_list@ =~= final(output)@.subrange(67, 99));
            assert(self.pool_mint@ =~= final(output)@.subrange(99, 131));
            assert(self.owner_fee_account@ =~= final(output)@.subrange(131, 163));
            assert(self.credit_reserve@ =~= final(output)@.subrange(163, 195));
            assert(self.token_program_id@ =~= final(output)@.subrange(195, 227));
            assert(vstd::bytes::spec_u64_to_le_bytes(self.stake_total) =~= final(output)@.subrange(227, 235));
            assert(vstd::bytes::spec_u64_to_le_bytes(self.pool_total) =~= final(output)@.subrange(235, 243));
            assert(vstd::bytes::spec_u64_to_le_bytes(self.last_update_epoch) =~= final(output)@.subrange(243, 251));
            assert(vstd::bytes::spec_u64_to_le_bytes(self.fee.denominator) =~= final(output)@.subrange(251, 259));
            assert(vstd::bytes::spec_u64_to_le_bytes(self.fee.numerator) =~= final(output)@.subrange(259, 267));
        }
        Ok(())
    }
}

impl ValidatorStakeInfo {
    /// Length of one entry when serialized.
    pub const LEN: usize = 52;

    /// Deserializes a 52-byte slice into a [`ValidatorStakeInfo`].
    pub fn deserialize(input: &[u8]) -> (r: Result<ValidatorStakeInfo, StakePoolError>)
        ensures
            match r {
                Ok(v) => input@.len() >= VALIDATOR_STAKE_INFO_LEN
                    && spec_validator_stake_info_matches(v, input@.subrange(0, 52)),
                Err(e) => input@.len() < VALIDATOR_STAKE_INFO_LEN && e
                    == StakePoolError::InvalidAccountData,
            },
    {
        if input.len() < VALIDATOR_STAKE_INFO_LEN {
            return Err(StakePoolError::InvalidAccountData);
        }
        let v = ValidatorStakeInfo {
            validator_account: Address::read(input, 0),
            balance: u64_from_le_bytes(slice_subrange(input, 32, 40)),
            last_update_epoch: u64_from_le_bytes(slice_subrange(input, 40, 48)),
            stake_count: u32_from_le_bytes(slice_subrange(input, 48, 52)),
        };
        proof {
            let s = input@.subrange(0, 52);
            assert(s.subrange(0, 32) =~= input@.subrange(0, 32));
            assert(s.subrange(32, 40) =~= input@.subrange(32, 40));
            assert(s.subrange(40, 48) =~= input@.subrange(40, 48));
            assert(s.subrange(48, 52) =~= input@.subrange(48, 52));
        }
        Ok(v)
    }

    /// Serializes a [`ValidatorStakeInfo`] into a fresh 52-byte vector.
    pub fn to_bytes(&self) -> (r: Vec<u8>)
        ensures
            r@.len() == VALIDATOR_STAKE_INFO_LEN,
            spec_validator_stake_info_matches(*self, r@),
    {
        proof {
            lemma_auto_spec_u64_to_from_le_bytes();
            vstd::bytes::lemma_auto_spec_u32_to_from_le_bytes();
        }
        let mut out: Vec<u8> = Vec::new();
        out.extend_from_slice(array_as_slice(&self.validator_account.bytes));
        let mut b = u64_to_le_bytes(self.balance);
        out.append(&mut b);
        let mut b = u64_to_le_bytes(self.last_update_epoch);
        out.append(&mut b);
        let mut b = vstd::bytes::u32_to_le_bytes(self.stake_count);
        out.append(&mut b);
        proof {
            assert(self.validator_account@ =~= out@.subrange(0, 32));
            assert(vstd::bytes::spec_u64_to_le_bytes(self.balance) =~= out@.subrange(32, 40));
            assert(vstd::bytes::spec_u64_to_le_bytes(self.last_update_epoch) =~= out@.subrange(
                40,
                48,
            ));
            assert(vstd::bytes::spec_u32_to_le_bytes(self.stake_count) =~= out@.subrange(48, 52));
        }
        out
    }

    /// Serializes a [`ValidatorStakeInfo`] into the front of a byte buffer.
    pub fn serialize(&self, output: &mut Vec<u8>) -> (r: Result<(), StakePoolError>)
        ensures
            match r {
                Ok(()) => {
                    &&& old(output)@.len() >= VALIDATOR_STAKE_INFO_LEN
                    &&& final(output)@.len() == old(output)@.len()
                    &&& spec_validator_stake_info_matches(*self, final(output)@.subrange(0, 52))
                    &&& forall|j: int|
                        VALIDATOR_STAKE_INFO_LEN <= j < old(output)@.len() ==> final(output)@[j]
                            == old(output)@[j]
                },
                Err(e) => {
                    &&& old(output)@.len() < VALIDATOR_STAKE_INFO_LEN
                    &&& e == StakePoolError::InvalidAccountData
                    &&& final(output)@ == old(output)@
                },
            },
    {
        if output.len() < VALIDATOR_STAKE_INFO_LEN {
            return Err(StakePoolError::InvalidAccountData);
        }
        let bytes = self.to_bytes();
        copy_at(output, 0, bytes.as_slice());
        proof {
            assert(final(output)@.subrange(0, 52) =~= bytes@);
        }
        Ok(())
    }
}

impl ValidatorStakeList {
    /// Length of the list buffer when serialized, at full capacity.
    pub const LEN: usize = 5203;

    /// Header length: version byte plus 2-byte count.
    pub const HEADER_LEN: usize = 3;

    /// Deserializes a byte buffer into a [`ValidatorStakeList`]. A zero
    /// first byte decodes to the empty, uninitialized list.
    pub fn deserialize(input: &[u8]) -> (r: Result<ValidatorStakeList, StakePoolError>)
        ensures
            match r {
                Ok(l) => input@.len() >= VALIDATOR_STAKE_LIST_LEN
                    && spec_validator_stake_list_matches(l, input@),
                Err(e) => {
                    &&& e == StakePoolError::InvalidAccountData
                    &&& (input@.len() < VALIDATOR_STAKE_LIST_LEN || (input@[0] != 0
                        && spec_u16_from_le_bytes(input@.subrange(1, 3)) > MAX_VALIDATORS))
                },
            },
    {
        if input.len() < VALIDATOR_STAKE_LIST_LEN {
            return Err(StakePoolError::InvalidAccountData);
        }
        if input[0] == 0 {
            return Ok(ValidatorStakeList { version: 0, validators: Vec::new() });
        }
        let count = u16_from_le_bytes(slice_subrange(input, 1, 3)) as usize;
        if count > MAX_VALIDATORS {
            return Err(StakePoolError::InvalidAccountData);
        }
        let mut validators: Vec<ValidatorStakeInfo> = Vec::new();
        let mut i: usize = 0;
        while i < count
            invariant
                input@.len() >= VALIDATOR_STAKE_LIST_LEN,
                count <= MAX_VALIDATORS,
                count == spec_u16_from_le_bytes(input@.subrange(1, 3)),
                i <= count,
                validators@.len() == i,
                forall|k: int|
                    0 <= k < i ==> spec_validator_stake_info_matches(
                        validators@[k],
                        input@.subrange(3 + k * 52, 3 + k * 52 + 52),
                    ),
            decreases count - i,
        {
            let entry = slice_subrange(input, 3 + i * 52, 3 + i * 52 + 52);
            match ValidatorStakeInfo::deserialize(entry) {
                Ok(v) => {
                    proof {
                        assert(entry@.subrange(0, 52) =~= entry@);
                    }
                    validators.push(v);
                },
                Err(e) => {
                    return Err(e);
                },
            }
            i += 1;
        }
        Ok(ValidatorStakeList { version: input[0], validators })
    }

    /// Serializes a [`ValidatorStakeList`] into the front of a byte
    /// buffer: version, little-endian count, then the entries, leaving the
    /// bytes past the last entry as they were.
    pub fn serialize(&self, output: &mut Vec<u8>) -> (r: Result<(), StakePoolError>)
        ensures
            match r {
                Ok(()) => {
                    &&& old(output)@.len() >= VALIDATOR_STAKE_LIST_LEN
                    &&& self.validators@.len() <= MAX_VALIDATORS
                    &&& final(output)@.len() == old(output)@.len()
                    &&& final(output)@[0] == self.version
                    &&& final(output)@.subrange(1, 3) == vstd::bytes::spec_u16_to_le_bytes(
                        self.validators@.len() as u16,
                    )
                    &&& forall|i: int|
                        0 <= i < self.validators@.len() ==> spec_validator_stake_info_matches(
                            self.validators@[i],
                            final(output)@.subrange(3 + i * 52, 3 + i * 52 + 52),
                        )
                    &&& forall|j: int|
                        3 + self.validators@.len() * 52 <= j < old(output)@.len()
                            ==> final(output)@[j] == old(output)@[j]
                },
                Err(e) => {
                    &&& e == StakePoolError::InvalidAccountData
                    &&& (old(output)@.len() < VALIDATOR_STAKE_LIST_LEN || self.validators@.len()
                        > MAX_VALIDATORS)
                    &&& final(output)@ == old(output)@
                },
            },
    {
        if output.len() < VALIDATOR_STAKE_LIST_LEN {
            return Err(StakePoolError::InvalidAccountData);
        }
        if self.validators.len() > MAX_VALIDATORS {
            return Err(StakePoolError::InvalidAccountData);
        }
        let version: [u8; 1] = [self.version];
        copy_at(output, 0, array_as_slice(&version));
        let cb = u16_to_le_bytes(self.validators.len() as u16);
        copy_at(output, 1, cb.as_slice());
        proof {
            assert(output@.subrange(1, 3) =~= cb@);
        }
        let n = self.validators.len();
        let mut i: usize = 0;
        while i < n
            invariant
                n == self.validators@.len(),
                n <= MAX_VALIDATORS,
                i <= n,
                output@.len() == old(output)@.len(),
                old(output)@.len() >= VALIDATOR_STAKE_LIST_LEN,
                output@[0] == self.version,
                output@.subrange(1, 3) == vstd::bytes::spec_u16_to_le_bytes(
                    self.validators@.len() as u16,
                ),
                forall|k: int|
                    0 <= k < i ==> spec_validator_stake_info_matches(
                        self.validators@[k],
                        output@.subrange(3 + k * 52, 3 + k * 52 + 52),
                    ),
                forall|j: int|
                    3 + i * 52 <= j < old(output)@.len() ==> output@[j] == old(output)@[j],
            decreases n - i,
        {
            let bytes = self.validators[i].to_bytes();
            let ghost prev = output@;
            copy_at(output, 3 + i * 52, bytes.as_slice());
            proof {
                assert(output@.subrange(1, 3) =~= prev.subrange(1, 3));
                assert(output@.subrange(3 + i * 52, 3 + i * 52 + 52) =~= bytes@);
                assert forall|k: int| 0 <= k < i implies spec_validator_stake_info_matches(
                    self.validators@[k],
                    output@.subrange(3 + k * 52, 3 + k * 52 + 52),
                ) by {
                    assert(output@.subrange(3 + k * 52, 3 + k * 52 + 52) =~= prev.subrange(
                        3 + k * 52,
                        3 + k * 52 + 52,
                    ));
                }
            }
            i += 1;
        }
        Ok(())
    }
}

impl CreditList {
    /// Length of the list buffer when serialized, at full capacity.
    pub const LEN: usize = 720003;

    /// Header length: version byte plus 2-byte count.
    pub const HEADER_LEN: usize = 3;

    /// Deserializes a byte buffer into a [`CreditList`]. A zero first
    /// byte decodes to the empty, uninitialized list.
    pub fn deserialize(input: &[u8]) -> (r: Result<CreditList, StakePoolError>)
        ensures
            match r {
                Ok(l) => input@.len() >= CREDIT_LIST_LEN && spec_credit_list_matches(l, input@),
                Err(e) => {
                    &&& e == StakePoolError::InvalidAccountData
                    &&& (input@.len() < CREDIT_LIST_LEN || (input@[0] != 0
                        && spec_u16_from_le_bytes(input@.subrange(1, 3)) > MAX_CREDIT_RECORDS))
                },
            },
    {
        if input.len() < CREDIT_LIST_LEN {
            return Err(StakePoolError::InvalidAccountData);
        }
        if input[0] == 0 {
            return Ok(CreditList { version: 0, credits: Vec::new() });
        }
        let count = u16_from_le_bytes(slice_subrange(input, 1, 3)) as usize;
        if count > MAX_CREDIT_RECORDS {
            return Err(StakePoolError::InvalidAccountData);
        }
        let mut credits: Vec<CreditRecord> = Vec::new();
        let mut i: usize = 0;
        while i < count
            invariant
                input@.len() >= CREDIT_LIST_LEN,
                count <= MAX_CREDIT_RECORDS,
                count == spec_u16_from_le_bytes(input@.subrange(1, 3)),
                i <= count,
                credits@.len() == i,
                forall|k: int|
                    0 <= k < i ==> spec_credit_record_matches(
                        credits@[k],
                        input@.subrange(3 + k * 72, 3 + k * 72 + 72),
                    ),
            decreases count - i,
        {
            let entry = slice_subrange(input, 3 + i * 72, 3 + i * 72 + 72);
            match CreditRecord::deserialize(entry) {
                Ok(c) => {
                    proof {
                        assert(entry@.subrange(0, 72) =~= entry@);
                    }
                    credits.push(c);
                },
                Err(e) => {
                    return Err(e);
                },
            }
            i += 1;
        }
        Ok(CreditList { version: input[0], credits })
    }

    /// Serializes a [`CreditList`] into the front of a byte buffer:
    /// version, little-endian count, then the claims, leaving the bytes
    /// past the last claim as they were.
    pub fn serialize(&self, output: &mut Vec<u8>) -> (r: Result<(), StakePoolError>)
        ensures
            match r {
                Ok(()) => {
                    &&& old(output)@.len() >= CREDIT_LIST_LEN
                    &&& self.credits@.len() <= MAX_CREDIT_RECORDS
                    &&& final(output)@.len() == old(output)@.len()
                    &&& final(output)@[0] == self.version
                    &&& final(output)@.subrange(1, 3) == vstd::bytes::spec_u16_to_le_bytes(
                        self.credits@.len() as u16,
                    )
                    &&& forall|i: int|
                        0 <= i < self.credits@.len() ==> spec_credit_record_matches(
                            self.credits@[i],
                            final(output)@.subrange(3 + i * 72, 3 + i * 72 + 72),
                        )
                    &&& forall|j: int|
                        3 + self.credits@.len() * 72 <= j < old(output)@.len() ==> final(output)@[j]
                            == old(output)@[j]
                },
                Err(e) => {
                    &&& e == StakePoolError::InvalidAccountData
                    &&& (old(output)@.len() < CREDIT_LIST_LEN || self.credits@.len()
                        > MAX_CREDIT_RECORDS)
                    &&& final(output)@ == old(output)@
                },
            },
    {
        if output.len() < CREDIT_LIST_LEN {
            return Err(StakePoolError::InvalidAccountData);
        }
        if self.credits.len() > MAX_CREDIT_RECORDS {
            return Err(StakePoolError::InvalidAccountData);
        }
        let version: [u8; 1] = [self.version];
        copy_at(output, 0, array_as_slice(&version));
        let cb = u16_to_le_bytes(self.credits.len() as u16);
        copy_at(output, 1, cb.as_slice());
        proof {
            assert(output@.subrange(1, 3) =~= cb@);
        }
        let n = self.credits.len();
        let mut i: usize = 0;
        while i < n
            invariant
                n == self.credits@.len(),
                n <= MAX_CREDIT_RECORDS,
                i <= n,
                output@.len() == old(output)@.len(),
                old(output)@.len() >= CREDIT_LIST_LEN,
                output@[0] == self.version,
                output@.subrange(1, 3) == vstd::bytes::spec_u16_to_le_bytes(
                    self.credits@.len() as u16,
                ),
                forall|k: int|
                    0 <= k < i ==> spec_credit_record_matches(
                        self.credits@[k],
                        output@.subrange(3 + k * 72, 3 + k * 72 + 72),
                    ),
                forall|j: int|
                    3 + i * 72 <= j < old(output)@.len() ==> output@[j] == old(output)@[j],
            decreases n - i,
        {
            let bytes = self.credits[i].to_bytes();
            let ghost prev = output@;
            copy_at(output, 3 + i * 72, bytes.as_slice());
            proof {
                assert(output@.subrange(1, 3) =~= prev.subrange(1, 3));
                assert(output@.subrange(3 + i * 72, 3 + i * 72 + 72) =~= bytes@);
                assert forall|k: int| 0 <= k < i implies spec_credit_record_matches(
                    self.credits@[k],
                    output@.subrange(3 + k * 72, 3 + k * 72 + 72),
                ) by {
                    assert(output@.subrange(3 + k * 72, 3 + k * 72 + 72) =~= prev.subrange(
                        3 + k * 72,
                        3 + k * 72 + 72,
                    ));
                }
            }
            i += 1;
        }
        Ok(())
    }
}

impl CreditRecord {
    /// Length of one claim when serialized.
    pub const LEN: usize = 72;

    /// Deserializes a 72-byte slice into a [`CreditRecord`].
    pub fn deserialize(input: &[u8]) -> (r: Result<CreditRecord, StakePoolError>)
        ensures
            match r {
                Ok(c) => input@.len() >= CREDIT_RECORD_LEN && spec_credit_record_matches(
                    c,
                    input@.subrange(0, 72),
                ),
                Err(e) => input@.len() < CREDIT_RECORD_LEN && e
                    == StakePoolError::InvalidAccountData,
            },
    {
        if input.len() < CREDIT_RECORD_LEN {
            return Err(StakePoolError::InvalidAccountData);
        }
        let c = CreditRecord {
            sol_target: Address::read(input, 0),
            cancel_authority: Address::read(input, 32),
            token_amount: u64_from_le_bytes(slice_subrange(input, 64, 72)),
        };
        proof {
            let s = input@.subrange(0, 72);
            assert(s.subrange(0, 32) =~= input@.subrange(0, 32));
            assert(s.subrange(32, 64) =~= input@.subrange(32, 64));
            assert(s.subrange(64, 72) =~= input@.subrange(64, 72));
        }
        Ok(c)
    }

    /// Serializes a [`CreditRecord`] into a fresh 72-byte vector.
    pub fn to_bytes(&self) -> (r: Vec<u8>)
        ensures
            r@.len() == CREDIT_RECORD_LEN,
            spec_credit_record_matches(*self, r@),
    {
        proof {
            lemma_auto_spec_u64_to_from_le_bytes();
        }
        let mut out: Vec<u8> = Vec::new();
        out.extend_from_slice(array_as_slice(&self.sol_target.bytes));
        out.extend_from_slice(array_as_slice(&self.cancel_authority.bytes));
        let mut b = u64_to_le_bytes(self.token_amount);
        out.append(&mut b);
        proof {
            assert(self.sol_target@ =~= out@.subrange(0, 32));
            assert(self.cancel_authority@ =~= out@.subrange(32, 64));
            assert(vstd::bytes::spec_u64_to_le_bytes(self.token_amount) =~= out@.subrange(64, 72));
        }
        out
    }

    /// Serializes a [`CreditRecord`] into the front of a byte buffer.
    pub fn serialize(&self, output: &mut Vec<u8>) -> (r: Result<(), StakePoolError>)
        ensures
            match r {
                Ok(()) => {
                    &&& old(output)@.len() >= CREDIT_RECORD_LEN
                    &&& final(output)@.len() == old(output)@.len()
                    &&& spec_credit_record_matches(*self, final(output)@.subrange(0, 72))
                    &&& forall|j: int|
                        CREDIT_RECORD_LEN <= j < old(output)@.len() ==> final(output)@[j] == old(
                            output,
                        )@[j]
                },
                Err(e) => {
                    &&& old(output)@.len() < CREDIT_RECORD_LEN
                    &&& e == StakePoolError::InvalidAccountData
                    &&& final(output)@ == old(output)@
                },
            },
    {
        if output.len() < CREDIT_RECORD_LEN {
            return Err(StakePoolError::InvalidAccountData);
        }
        let bytes = self.to_bytes();
        copy_at(output, 0, bytes.as_slice());
        proof {
            assert(final(output)@.subrange(0, 72) =~= bytes@);
        }
        Ok(())
    }
}

} // verus!
