//! Wire command set: 1-byte opcode, then the payload in the codec's
//! fixed or length-prefixed form.

use vstd::prelude::*;

use vstd::bytes::spec_u32_from_le_bytes;
use vstd::bytes::spec_u64_from_le_bytes;
use vstd::bytes::u32_from_le_bytes;
use vstd::bytes::u64_from_le_bytes;
use vstd::slice::slice_subrange;

use crate::addr::Address;
use crate::error::StakePoolError;
use crate::state::Fee;
use crate::state::InitArgs;

verus! {

/// One delegation order: move `amount` from the reserve into the stake
/// sub-account at `stake_index`.
#[derive(Clone, Copy, Debug, PartialEq, Eq, Structural)]
pub struct DelegateReserveInstruction {
    /// Amount to delegate.
    pub amount: u64,
    /// Stake sub-account slot index.
    pub stake_index: u32,
}

/// One merge order: fold the stake at `additional_index` into the stake
/// at `main_index` of the given validator.
#[derive(Clone, Copy, Debug, PartialEq, Eq)]
pub struct MergeStakesInstruction {
    /// Validator vote key.
    pub validator_address: Address,
    /// Merge target slot.
    pub main_index: u32,
    /// Merge source slot.
    pub additional_index: u32,
}

/// One unstake order.
#[derive(Clone, Copy, Debug, PartialEq, Eq)]
pub struct UnstakeInstruction {
    /// Validator vote key.
    pub validator_address: Address,
    /// Source slot.
    pub source_index: u32,
    /// Split target slot (the source slot itself for a full unstake).
    pub split_index: u32,
    /// Amount to unstake.
    pub amount: u64,
}

/// Instructions supported by the stake pool program.
#[derive(Clone, Debug, PartialEq)]
pub enum StakePoolInstruction {
    /// Initializes a new stake pool.
    Initialize(InitArgs),
    /// Adds a validator to the pool.
    AddValidator,
    /// Removes a validator from the pool.
    RemoveValidator,
    /// Re-measures the balances of validator stake accounts in the pool.
    UpdateListBalance,
    /// Updates the total pool balance from the validator list storage.
    UpdatePoolBalance,
    /// Deposits base currency into the pool for pool tokens.
    Deposit(u64),
    /// Withdraws base currency from the pool at the current ratio.
    Withdraw(u64),
    /// Updates the staking key for a stake (reserved).
    SetStakingAuthority,
    /// Updates the pool owner.
    SetOwner,
    /// Requests a delayed withdrawal (reserved).
    Credit(u64),
    /// Cancels a delayed withdrawal (reserved).
    Uncredit(u64),
    /// Delegates the reserve to stake sub-accounts.
    DelegateReserve(Vec<DelegateReserveInstruction>),
    /// Merges stake sub-accounts.
    MergeStakes(Vec<MergeStakesInstruction>),
    /// Unstakes (reserved).
    Unstake(Vec<UnstakeInstruction>),
    /// Pays queued delayed withdrawals (reserved).
    PayCreditors,
}

/// One delegation order and the 12 bytes of `s` carry the same fields.
pub open spec fn spec_delegate_instruction_matches(
    d: DelegateReserveInstruction,
    s: Seq<u8>,
) -> bool
    recommends
        s.len() == 12,
{
    &&& d.amount == spec_u64_from_le_bytes(s.subrange(0, 8))
    &&& d.stake_index == spec_u32_from_le_bytes(s.subrange(8, 12))
}

/// One merge order and the 40 bytes of `s` carry the same fields.
pub open spec fn spec_merge_instruction_matches(m: MergeStakesInstruction, s: Seq<u8>) -> bool
    recommends
        s.len() == 40,
{
    &&& m.validator_address@ == s.subrange(0, 32)
    &&& m.main_index == spec_u32_from_le_bytes(s.subrange(32, 36))
    &&& m.additional_index == spec_u32_from_le_bytes(s.subrange(36, 40))
}

/// One unstake order and the 48 bytes of `s` carry the same fields.
pub open spec fn spec_unstake_instruction_matches(u: UnstakeInstruction, s: Seq<u8>) -> bool
    recommends
        s.len() == 48,
{
    &&& u.validator_address@ == s.subrange(0, 32)
    &&& u.source_index == spec_u32_from_le_bytes(s.subrange(32, 36))
    &&& u.split_index == spec_u32_from_le_bytes(s.subrange(36, 40))
    &&& u.amount == spec_u64_from_le_bytes(s.subrange(40, 48))
}

/// The decoded command `ins` and the wire bytes `s` agree: the opcode is
/// the first byte and the payload lies where the layout puts it.
pub open spec fn spec_instruction_matches(ins: StakePoolInstruction, s: Seq<u8>) -> bool
    recommends
        s.len() >= 1,
{
    match ins {
        StakePoolInstruction::Initialize(args) => {
            &&& s[0] == 0
            &&& s.len() >= 17
            &&& args.fee.denominator == spec_u64_from_le_bytes(s.subrange(1, 9))
            &&& args.fee.numerator == spec_u64_from_le_bytes(s.subrange(9, 17))
        },
        StakePoolInstruction::AddValidator => s[0] == 2,
        StakePoolInstruction::RemoveValidator => s[0] == 3,
        StakePoolInstruction::UpdateListBalance => s[0] == 4,
        StakePoolInstruction::UpdatePoolBalance => s[0] == 5,
        StakePoolInstruction::Deposit(a) => s[0] == 6 && s.len() >= 9 && a
            == spec_u64_from_le_bytes(s.subrange(1, 9)),
        StakePoolInstruction::Withdraw(a) => s[0] == 7 && s.len() >= 9 && a
            == spec_u64_from_le_bytes(s.subrange(1, 9)),
        StakePoolInstruction::SetStakingAuthority => s[0] == 8,
        StakePoolInstruction::SetOwner => s[0] == 9,
        StakePoolInstruction::Credit(a) => s[0] == 10 && s.len() >= 9 && a
            == spec_u64_from_le_bytes(s.subrange(1, 9)),
        StakePoolInstruction::Uncredit(a) => s[0] == 11 && s.len() >= 9 && a
            == spec_u64_from_le_bytes(s.subrange(1, 9)),
        StakePoolInstruction::DelegateReserve(v) => {
            &&& s[0] == 12
            &&& s.len() >= 5
            &&& v@.len() == spec_u32_from_le_bytes(s.subrange(1, 5))
            &&& s.len() >= 5 + v@.len() * 12
            &&& forall|i: int|
                0 <= i < v@.len() ==> spec_delegate_instruction_matches(
                    v@[i],
                    s.subrange(5 + i * 12, 5 + i * 12 + 12),
                )
        },
        StakePoolInstruction::MergeStakes(v) => {
            &&& s[0] == 13
            &&& s.len() >= 5
            &&& v@.len() == spec_u32_from_le_bytes(s.subrange(1, 5))
            &&& s.len() >= 5 + v@.len() * 40
            &&& forall|i: int|
                0 <= i < v@.len() ==> spec_merge_instruction_matches(
                    v@[i],
                    s.subrange(5 + i * 40, 5 + i * 40 + 40),
                )
        },
        StakePoolInstruction::Unstake(v) => {
            &&& s[0] == 14
            &&& s.len() >= 5
            &&& v@.len() == spec_u32_from_le_bytes(s.subrange(1, 5))
            &&& s.len() >= 5 + v@.len() * 48
            &&& forall|i: int|
                0 <= i < v@.len() ==> spec_unstake_instruction_matches(
                    v@[i],
                    s.subrange(5 + i * 48, 5 + i * 48 + 48),
                )
        },
        StakePoolInstruction::PayCreditors => s[0] == 15,
    }
}

/// Exactly when decoding the wire bytes `s` fails, and with which error:
/// an empty buffer or an unknown opcode, a fixed payload cut short (all
/// bad account data), or a batch whose declared count does not fit in the
/// buffer (a bad argument).
pub open spec fn spec_instruction_error(s: Seq<u8>) -> Option<StakePoolError> {
    if s.len() < 1 {
        Some(StakePoolError::InvalidAccountData)
    } else if s[0] == 0 {
        if s.len() < 17 {
            Some(StakePoolError::InvalidAccountData)
        } else {
            None
        }
    } else if s[0] == 6 || s[0] == 7 || s[0] == 10 || s[0] == 11 {
        if s.len() < 9 {
            Some(StakePoolError::InvalidAccountData)
        } else {
            None
        }
    } else if s[0] == 12 || s[0] == 13 || s[0] == 14 {
        let item = if s[0] == 12 {
            12int
        } else if s[0] == 13 {
            40int
        } else {
            48int
        };
        if s.len() < 5 {
            Some(StakePoolError::InvalidAccountData)
        } else if s.len() < 5 + spec_u32_from_le_bytes(s.subrange(1, 5)) * item {
            Some(StakePoolError::InvalidArgument)
        } else {
            None
        }
    } else if s[0] == 2 || s[0] == 3 || s[0] == 4 || s[0] == 5 || s[0] == 8 || s[0] == 9 || s[0]
        == 15 {
        None
    } else {
        Some(StakePoolError::InvalidAccountData)
    }
}

impl StakePoolInstruction {
    /// Deserializes a byte buffer into a [`StakePoolInstruction`].
    pub fn deserialize(input: &[u8]) -> (r: Result<StakePoolInstruction, StakePoolError>)
        ensures
            match r {
                Ok(ins) => spec_instruction_error(input@) is None && spec_instruction_matches(
                    ins,
                    input@,
                ),
                Err(e) => spec_instruction_error(input@) == Some(e),
            },
    {
        let ilen = input.len();
        if ilen < 1 {
            return Err(StakePoolError::InvalidAccountData);
        }
        let opcode = input[0];
        match opcode {
            0 => {
                if ilen < 17 {
                    return Err(StakePoolError::InvalidAccountData);
                }
                let denominator = u64_from_le_bytes(slice_subrange(input, 1, 9));
                let numerator = u64_from_le_bytes(slice_subrange(input, 9, 17));
                Ok(StakePoolInstruction::Initialize(InitArgs { fee: Fee { denominator, numerator } }))
            },
            2 => Ok(StakePoolInstruction::AddValidator),
            3 => Ok(StakePoolInstruction::RemoveValidator),
            4 => Ok(StakePoolInstruction::UpdateListBalance),
            5 => Ok(StakePoolInstruction::UpdatePoolBalance),
            6 => {
                if ilen < 9 {
                    return Err(StakePoolError::InvalidAccountData);
                }
                Ok(StakePoolInstruction::Deposit(u64_from_le_bytes(slice_subrange(input, 1, 9))))
            },
            7 => {
                if ilen < 9 {
                    return Err(StakePoolError::InvalidAccountData);
                }
                Ok(StakePoolInstruction::Withdraw(u64_from_le_bytes(slice_subrange(input, 1, 9))))
            },
            8 => Ok(StakePoolInstruction::SetStakingAuthority),
            9 => Ok(StakePoolInstruction::SetOwner),
            10 => {
                if ilen < 9 {
                    return Err(StakePoolError::InvalidAccountData);
                }
                Ok(StakePoolInstruction::Credit(u64_from_le_bytes(slice_subrange(input, 1, 9))))
            },
            11 => {
                if ilen < 9 {
                    return Err(StakePoolError::InvalidAccountData);
                }
                Ok(StakePoolInstruction::Uncredit(u64_from_le_bytes(slice_subrange(input, 1, 9))))
            },
            12 => {
                if ilen < 5 {
                    return Err(StakePoolError::InvalidAccountData);
                }
                let count = u32_from_le_bytes(slice_subrange(input, 1, 5));
                if (ilen as u64) < 5 + (count as u64) * 12 {
                    return Err(StakePoolError::InvalidArgument);
                }
                let n = count as usize;
                let mut items: Vec<DelegateReserveInstruction> = Vec::new();
                let mut i: usize = 0;
                while i < n
                    invariant
                        ilen == input@.len(),
                        input@.len() >= 5 + n * 12,
                        i <= n,
                        items@.len() == i,
                        forall|k: int|
                            0 <= k < i ==> spec_delegate_instruction_matches(
                                items@[k],
                                input@.subrange(5 + k * 12, 5 + k * 12 + 12),
                            ),
                    decreases n - i,
                {
                    let amount = u64_from_le_bytes(
                        slice_subrange(input, 5 + i * 12, 5 + i * 12 + 8),
                    );
                    let stake_index = u32_from_le_bytes(
                        slice_subrange(input, 5 + i * 12 + 8, 5 + i * 12 + 12),
                    );
                    let d = DelegateReserveInstruction { amount, stake_index };
                    proof {
                        let e = input@.subrange(5 + i * 12, 5 + i * 12 + 12);
                        assert(e.subrange(0, 8) =~= input@.subrange(5 + i * 12, 5 + i * 12 + 8));
                        assert(e.subrange(8, 12) =~= input@.subrange(
                            5 + i * 12 + 8,
                            5 + i * 12 + 12,
                        ));
                    }
                    items.push(d);
                    i += 1;
                }
                Ok(StakePoolInstruction::DelegateReserve(items))
            },
            13 => {
                if ilen < 5 {
                    return Err(StakePoolError::InvalidAccountData);
                }
                let count = u32_from_le_bytes(slice_subrange(input, 1, 5));
                if (ilen as u64) < 5 + (count as u64) * 40 {
                    return Err(StakePoolError::InvalidArgument);
                }
                let n = count as usize;
                let mut items: Vec<MergeStakesInstruction> = Vec::new();
                let mut i: usize = 0;
                while i < n
                    invariant
                        ilen == input@.len(),
                        input@.len() >= 5 + n * 40,
                        i <= n,
                        items@.len() == i,
                        forall|k: int|
                            0 <= k < i ==> spec_merge_instruction_matches(
                                items@[k],
                                input@.subrange(5 + k * 40, 5 + k * 40 + 40),
                            ),
                    decreases n - i,
                {
                    let validator_address = Address::read(input, 5 + i * 40);
                    let main_index = u32_from_le_bytes(
                        slice_subrange(input, 5 + i * 40 + 32, 5 + i * 40 + 36),
                    );
                    let additional_index = u32_from_le_bytes(
                        slice_subrange(input, 5 + i * 40 + 36, 5 + i * 40 + 40),
                    );
                    let m = MergeStakesInstruction { validator_address, main_index, additional_index };
                    proof {
                        let e = input@.subrange(5 + i * 40, 5 + i * 40 + 40);
                        assert(e.subrange(0, 32) =~= input@.subrange(5 + i * 40, 5 + i * 40 + 32));
                        assert(e.subrange(32, 36) =~= input@.subrange(
                            5 + i * 40 + 32,
                            5 + i * 40 + 36,
                        ));
                        assert(e.subrange(36, 40) =~= input@.subrange(
                            5 + i * 40 + 36,
                            5 + i * 40 + 40,
                        ));
                    }
                    items.push(m);
                    i += 1;
                }
                Ok(StakePoolInstruction::MergeStakes(items))
            },
            14 => {
                if ilen < 5 {
                    return Err(StakePoolError::InvalidAccountData);
                }
                let count = u32_from_le_bytes(slice_subrange(input, 1, 5));
                if (ilen as u64) < 5 + (count as u64) * 48 {
                    return Err(StakePoolError::InvalidArgument);
                }
                let n = count as usize;
                let mut items: Vec<UnstakeInstruction> = Vec::new();
                let mut i: usize = 0;
                while i < n
                    invariant
                        ilen == input@.len(),
                        input@.len() >= 5 + n * 48,
                        i <= n,
                        items@.len() == i,
                        forall|k: int|
                            0 <= k < i ==> spec_unstake_instruction_matches(
                                items@[k],
                                input@.subrange(5 + k * 48, 5 + k * 48 + 48),
                            ),
                    decreases n - i,
                {
                    let validator_address = Address::read(input, 5 + i * 48);
                    let source_index = u32_from_le_bytes(
                        slice_subrange(input, 5 + i * 48 + 32, 5 + i * 48 + 36),
                    );
                    let split_index = u32_from_le_bytes(
                        slice_subrange(input, 5 + i * 48 + 36, 5 + i * 48 + 40),
                    );
                    let amount = u64_from_le_bytes(
                        slice_subrange(input, 5 + i * 48 + 40, 5 + i * 48 + 48),
                    );
                    let u = UnstakeInstruction {
                        validator_address,
                        source_index,
                        split_index,
                        amount,
                    };
                    proof {
                        let e = input@.subrange(5 + i * 48, 5 + i * 48 + 48);
                        assert(e.subrange(0, 32) =~= input@.subrange(5 + i * 48, 5 + i * 48 + 32));
                        assert(e.subrange(32, 36) =~= input@.subrange(
                            5 + i * 48 + 32,
                            5 + i * 48 + 36,
                        ));
                        assert(e.subrange(36, 40) =~= input@.subrange(
                            5 + i * 48 + 36,
                            5 + i * 48 + 40,
                        ));
                        assert(e.subrange(40, 48) =~= input@.subrange(
                            5 + i * 48 + 40,
                            5 + i * 48 + 48,
                        ));
                    }
                    items.push(u);
                    i += 1;
                }
                Ok(StakePoolInstruction::Unstake(items))
            },
            15 => Ok(StakePoolInstruction::PayCreditors),
            _ => Err(StakePoolError::InvalidAccountData),
        }
    }
}

} // verus!
