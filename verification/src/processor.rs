//! Instruction handlers: the decision core of each command.
//!
//! Every handler here is a pure function from the decoded records, the
//! caller-supplied account facts and the environment (epoch, rent floors)
//! to a decision: either the exact error the command dies with, or the new
//! state plus the external actions the host shell must perform. The shell
//! that reads accounts, runs the codec, calls these functions and issues
//! the external calls carries no logic of its own.

use vstd::prelude::*;

use crate::addr::Address;
use crate::authority::derived_address;
use crate::authority::spec_authority_seeds;
use crate::authority::spec_authority_reserve;
use crate::authority::spec_bump_seeds;
use crate::authority::spec_pda_found;
use crate::authority::spec_pda_matches;
use crate::authority::spec_pda_none;
use crate::authority::lemma_pda_found_unique;
use crate::error::StakePoolError;
use crate::state::AccountView;
use crate::state::StakePool;
use crate::state::ValidatorStakeInfo;
use crate::state::ValidatorStakeList;
use crate::state::spec_find_validator;
use crate::state::spec_mul_div;
use crate::state::spec_sum_balances;
use crate::state::MAX_VALIDATORS;
use crate::authority::spec_authority_deposit;
use crate::authority::spec_authority_withdraw;
use crate::authority::spec_pda_differs;
use crate::authority::spec_stake_address_seeds;
use crate::authority::spec_temp_account;
use crate::authority::lemma_pda_differs_not_matches;
use crate::state::MIN_STAKE_ACCOUNT_BALANCE;
use crate::token::token_account_of;
use crate::token::unpack_token_account;

verus! {

/// Program state handler.
pub struct Processor {}

/// Minimum operating balance the reserve may never fall below.
pub const MIN_RESERVE_BALANCE: u64 = 1000000;

/// What the external staking subsystem reports of one stake sub-account,
/// read at the instruction boundary and handed in as plain values.
#[derive(Clone, Copy, Debug, PartialEq, Eq)]
pub enum StakeStateView {
    /// The sub-account exists but was never initialized.
    Uninitialized,
    /// Initialized but not delegated; part of the balance is the
    /// rent-exemption reserve.
    Initialized {
        /// Lamports that must stay to keep the account rent-exempt.
        rent_exempt_reserve: u64,
    },
    /// Delegated stake.
    Stake {
        /// Lamports that must stay to keep the account rent-exempt.
        rent_exempt_reserve: u64,
        /// Lamports currently delegated.
        delegation_stake: u64,
        /// The validator the stake votes for.
        voter: Address,
    },
    /// A rewards pool account; never a pool sub-account.
    RewardsPool,
}

/// The error `AddValidator` dies with, if any: the full check cascade in
/// the order the handler runs it.
pub open spec fn spec_add_validator_checks(
    program_id: Seq<u8>,
    stake_pool_account: AccountView,
    owner_account: AccountView,
    validator_stake_list_key: Seq<u8>,
    validator_key: Seq<u8>,
    epoch: u64,
    pool: StakePool,
    list: ValidatorStakeList,
) -> Option<StakePoolError> {
    if stake_pool_account.owner@ != program_id {
        Some(StakePoolError::WrongOwner)
    } else if pool.version == 0 {
        Some(StakePoolError::InvalidState)
    } else if owner_account.key@ != pool.owner@ {
        Some(StakePoolError::WrongOwner)
    } else if !owner_account.is_signer {
        Some(StakePoolError::SignatureMissing)
    } else if pool.last_update_epoch < epoch {
        Some(StakePoolError::StakeListAndPoolOutOfDate)
    } else if validator_stake_list_key != pool.validator_stake_list@ {
        Some(StakePoolError::InvalidValidatorStakeList)
    } else if list.version == 0 {
        Some(StakePoolError::InvalidState)
    } else if list.validators@.len() >= MAX_VALIDATORS {
        Some(StakePoolError::ValidatorListOverflow)
    } else if spec_find_validator(list.validators@, validator_key) is Some {
        Some(StakePoolError::ValidatorAlreadyAdded)
    } else {
        None
    }
}

/// The error `RemoveValidator` dies with, if any.
pub open spec fn spec_remove_validator_checks(
    program_id: Seq<u8>,
    stake_pool_account: AccountView,
    owner_account: AccountView,
    validator_stake_list_key: Seq<u8>,
    validator_key: Seq<u8>,
    epoch: u64,
    pool: StakePool,
    list: ValidatorStakeList,
) -> Option<StakePoolError> {
    if stake_pool_account.owner@ != program_id {
        Some(StakePoolError::WrongOwner)
    } else if pool.version == 0 {
        Some(StakePoolError::InvalidState)
    } else if owner_account.key@ != pool.owner@ {
        Some(StakePoolError::WrongOwner)
    } else if !owner_account.is_signer {
        Some(StakePoolError::SignatureMissing)
    } else if pool.last_update_epoch < epoch {
        Some(StakePoolError::StakeListAndPoolOutOfDate)
    } else if validator_stake_list_key != pool.validator_stake_list@ {
        Some(StakePoolError::InvalidValidatorStakeList)
    } else if list.version == 0 {
        Some(StakePoolError::InvalidState)
    } else {
        match spec_find_validator(list.validators@, validator_key) {
            None => Some(StakePoolError::ValidatorNotFound),
            Some(i) => if list.validators@[i].stake_count > 0 {
                Some(StakePoolError::ValidatorHasStakes)
            } else {
                None
            },
        }
    }
}

/// Walks the validator records in order, refusing the first stale one and
/// accumulating the cached balances onto `acc` with overflow checked.
pub open spec fn spec_update_total(vs: Seq<ValidatorStakeInfo>, acc: u64, epoch: u64) -> Result<
    u64,
    StakePoolError,
>
    decreases vs.len(),
{
    if vs.len() == 0 {
        Ok(acc)
    } else if vs[0].last_update_epoch < epoch {
        Err(StakePoolError::StakeListOutOfDate)
    } else if acc + vs[0].balance > u64::MAX {
        Err(StakePoolError::CalculationFailure)
    } else {
        spec_update_total(vs.skip(1), (acc + vs[0].balance) as u64, epoch)
    }
}

/// The error the pre-reserve checks of `UpdatePoolBalance` die with, if
/// any.
pub open spec fn spec_update_pool_balance_checks(
    program_id: Seq<u8>,
    stake_pool_account: AccountView,
    validator_stake_list_key: Seq<u8>,
    pool: StakePool,
    list: ValidatorStakeList,
) -> Option<StakePoolError> {
    if stake_pool_account.owner@ != program_id {
        Some(StakePoolError::WrongOwner)
    } else if pool.version == 0 {
        Some(StakePoolError::InvalidState)
    } else if validator_stake_list_key != pool.validator_stake_list@ {
        Some(StakePoolError::InvalidValidatorStakeList)
    } else if list.version == 0 {
        Some(StakePoolError::InvalidState)
    } else {
        None
    }
}

/// The error `SetOwner` dies with, if any.
pub open spec fn spec_set_owner_checks(
    program_id: Seq<u8>,
    stake_pool_account: AccountView,
    owner_account: AccountView,
    new_owner_fee_data: Seq<u8>,
    pool: StakePool,
) -> Option<StakePoolError> {
    if stake_pool_account.owner@ != program_id {
        Some(StakePoolError::WrongOwner)
    } else if pool.version == 0 {
        Some(StakePoolError::InvalidState)
    } else if owner_account.key@ != pool.owner@ {
        Some(StakePoolError::WrongOwner)
    } else if !owner_account.is_signer {
        Some(StakePoolError::SignatureMissing)
    } else if new_owner_fee_data.len() < 165 {
        Some(StakePoolError::InvalidAccountData)
    } else {
        match token_account_of(new_owner_fee_data.take(165)) {
            None => Some(StakePoolError::InvalidAccountData),
            Some(t) => if t.0 != pool.pool_mint@ {
                Some(StakePoolError::WrongAccountMint)
            } else {
                None
            },
        }
    }
}

/// Which transfer the host shell performs to move the deposit into the
/// reserve.
#[derive(Clone, Copy, Debug, PartialEq, Eq, Structural)]
pub enum DepositTransfer {
    /// The depositor pays in wrapped tokens: create a temporary native
    /// token account at the derived temp address, move the tokens there,
    /// and close it into the reserve.
    WrappedToken {
        /// Bump seed of the derived temp account.
        temp_bump: u8,
    },
    /// The depositor pays from a plain system account: one direct
    /// transfer into the reserve.
    SystemTransfer,
}

/// What `Deposit` decides: the transfer path, the reserve's signing
/// bump, and the share amounts to mint.
#[derive(Clone, Copy, Debug, PartialEq, Eq, Structural)]
pub struct DepositOutcome {
    /// Transfer path for the deposited funds.
    pub transfer: DepositTransfer,
    /// Bump seed of the derived reserve account.
    pub reserve_bump: u8,
    /// Pool tokens the deposit is worth in all.
    pub pool_amount: u64,
    /// Pool tokens minted to the owner's fee account.
    pub fee_amount: u64,
    /// Pool tokens minted to the depositor.
    pub user_amount: u64,
}

/// What `Withdraw` decides: the payout and the reserve's signing bump.
#[derive(Clone, Copy, Debug, PartialEq, Eq, Structural)]
pub struct WithdrawOutcome {
    /// Base-currency units paid out of the reserve.
    pub stake_amount: u64,
    /// Bump seed of the derived reserve account.
    pub reserve_bump: u8,
}

/// Commits a priced deposit onto the pool record, with both totals
/// checked against overflow.
pub open spec fn spec_deposit_commit(
    pool: StakePool,
    amount: u64,
    pool_amount: u64,
    fee_amount: u64,
    user_amount: u64,
) -> Result<(StakePool, u64, u64, u64), StakePoolError> {
    if pool.pool_total + pool_amount > u64::MAX {
        Err(StakePoolError::CalculationFailure)
    } else if pool.stake_total + amount > u64::MAX {
        Err(StakePoolError::CalculationFailure)
    } else {
        Ok(
            (
                StakePool {
                    pool_total: (pool.pool_total + pool_amount) as u64,
                    stake_total: (pool.stake_total + amount) as u64,
                    ..pool
                },
                pool_amount,
                fee_amount,
                user_amount,
            ),
        )
    }
}

/// The full verdict of `Deposit`: either the exact error, in the order
/// the handler checks, or the new pool record and the priced amounts
/// (total, fee, depositor's share).
pub open spec fn spec_process_deposit(
    program_id: Seq<u8>,
    amount: u64,
    stake_pool_account: AccountView,
    withdraw_key: Seq<u8>,
    reserve_account: AccountView,
    owner_fee_key: Seq<u8>,
    token_program_key: Seq<u8>,
    source_system_owned: bool,
    wrapped_keys: Option<(Address, Address)>,
    native_mint: Seq<u8>,
    rent_exempt_zero: u64,
    pool: StakePool,
) -> Result<(StakePool, u64, u64, u64), StakePoolError> {
    let pool_key = stake_pool_account.key@;
    let reserve_base = spec_authority_seeds(pool_key, spec_authority_reserve());
    let temp_base = spec_authority_seeds(pool_key, spec_temp_account());
    let withdraw_ok = derived_address(
        spec_bump_seeds(
            spec_authority_seeds(pool_key, spec_authority_withdraw()),
            pool.withdraw_bump_seed,
        ),
        program_id,
    ) == Some(withdraw_key);
    if !source_system_owned && wrapped_keys is None {
        Err(StakePoolError::NotEnoughAccountKeys)
    } else if stake_pool_account.owner@ != program_id {
        Err(StakePoolError::WrongOwner)
    } else if pool.version == 0 {
        Err(StakePoolError::InvalidState)
    } else if !withdraw_ok {
        Err(StakePoolError::InvalidProgramAddress)
    } else if spec_pda_none(reserve_base, program_id) {
        Err(StakePoolError::InvalidProgramAddress)
    } else if !spec_pda_matches(reserve_base, program_id, reserve_account.key@) {
        Err(StakePoolError::IncorrectProgramId)
    } else if pool.owner_fee_account@ != owner_fee_key {
        Err(StakePoolError::InvalidFeeAccount)
    } else if pool.token_program_id@ != token_program_key {
        Err(StakePoolError::IncorrectProgramId)
    } else if reserve_account.lamports + amount > u64::MAX {
        Err(StakePoolError::CalculationFailure)
    } else if reserve_account.lamports + amount < rent_exempt_zero {
        Err(StakePoolError::FirstDepositIsTooSmall)
    } else {
        let pool_amount_opt = if pool.stake_total == 0 {
            Some(amount)
        } else {
            spec_mul_div(amount, pool.pool_total, pool.stake_total)
        };
        match pool_amount_opt {
            None => Err(StakePoolError::CalculationFailure),
            Some(pool_amount) => {
                let fee_opt = if pool.fee.denominator == 0 {
                    Some(0u64)
                } else {
                    spec_mul_div(pool_amount, pool.fee.numerator, pool.fee.denominator)
                };
                match fee_opt {
                    None => Err(StakePoolError::CalculationFailure),
                    Some(fee_amount) => {
                        if fee_amount > pool_amount {
                            Err(StakePoolError::CalculationFailure)
                        } else {
                            let user_amount = (pool_amount - fee_amount) as u64;
                            if !source_system_owned {
                                let temp_key = wrapped_keys->Some_0.0;
                                let native_key = wrapped_keys->Some_0.1;
                                if spec_pda_none(temp_base, program_id) {
                                    Err(StakePoolError::InvalidProgramAddress)
                                } else if !spec_pda_matches(temp_base, program_id, temp_key@) {
                                    Err(StakePoolError::InvalidArgument)
                                } else if native_key@ != native_mint {
                                    Err(StakePoolError::InvalidArgument)
                                } else {
                                    spec_deposit_commit(
                                        pool,
                                        amount,
                                        pool_amount,
                                        fee_amount,
                                        user_amount,
                                    )
                                }
                            } else if reserve_account.lamports + amount < MIN_RESERVE_BALANCE {
                                Err(StakePoolError::FirstDepositIsTooSmall)
                            } else {
                                spec_deposit_commit(
                                    pool,
                                    amount,
                                    pool_amount,
                                    fee_amount,
                                    user_amount,
                                )
                            }
                        }
                    },
                }
            },
        }
    }
}

/// The full verdict of `Withdraw`: either the exact error, in the order
/// the handler checks, or the new pool record and the payout.
pub open spec fn spec_process_withdraw(
    program_id: Seq<u8>,
    pool_amount: u64,
    stake_pool_account: AccountView,
    withdraw_key: Seq<u8>,
    reserve_account: AccountView,
    token_program_key: Seq<u8>,
    rent_exempt_zero: u64,
    pool: StakePool,
) -> Result<(StakePool, u64), StakePoolError> {
    let pool_key = stake_pool_account.key@;
    let reserve_base = spec_authority_seeds(pool_key, spec_authority_reserve());
    let withdraw_ok = derived_address(
        spec_bump_seeds(
            spec_authority_seeds(pool_key, spec_authority_withdraw()),
            pool.withdraw_bump_seed,
        ),
        program_id,
    ) == Some(withdraw_key);
    if stake_pool_account.owner@ != program_id {
        Err(StakePoolError::WrongOwner)
    } else if pool.version == 0 {
        Err(StakePoolError::InvalidState)
    } else if pool.token_program_id@ != token_program_key {
        Err(StakePoolError::IncorrectProgramId)
    } else if !withdraw_ok {
        Err(StakePoolError::InvalidProgramAddress)
    } else if spec_pda_none(reserve_base, program_id) {
        Err(StakePoolError::InvalidProgramAddress)
    } else if !spec_pda_matches(reserve_base, program_id, reserve_account.key@) {
        Err(StakePoolError::IncorrectProgramId)
    } else {
        match spec_mul_div(pool_amount, pool.stake_total, pool.pool_total) {
            None => Err(StakePoolError::CalculationFailure),
            Some(stake_amount) => {
                if stake_amount > reserve_account.lamports || reserve_account.lamports
                    - stake_amount < MIN_RESERVE_BALANCE || reserve_account.lamports - stake_amount
                    < rent_exempt_zero {
                    Err(StakePoolError::InsufficientFunds)
                } else if pool_amount > pool.pool_total {
                    Err(StakePoolError::CalculationFailure)
                } else if stake_amount > pool.stake_total {
                    Err(StakePoolError::CalculationFailure)
                } else {
                    Ok(
                        (
                            StakePool {
                                pool_total: (pool.pool_total - pool_amount) as u64,
                                stake_total: (pool.stake_total - stake_amount) as u64,
                                ..pool
                            },
                            stake_amount,
                        ),
                    )
                }
            },
        }
    }
}

/// One delegation the host shell must perform, funded from the reserve
/// and signed as the deposit and reserve authorities.
#[derive(Clone, Copy, Debug, PartialEq, Eq)]
pub enum DelegateAction {
    /// The slot's sub-account does not exist yet: create it at the
    /// derived address with `amount`, initialize it, and delegate.
    InitStake {
        /// The validator the new stake votes for.
        validator: Address,
        /// The derived sub-account address.
        stake_account: Address,
        /// The slot index.
        stake_index: u32,
        /// The sub-account's derivation bump, for signing its creation.
        stake_bump: u8,
        /// Base-currency units to fund it with.
        amount: u64,
    },
    /// The slot's sub-account exists: top it up with `amount` and
    /// re-delegate.
    Redelegate {
        /// The validator the stake votes for.
        validator: Address,
        /// The existing sub-account address.
        stake_account: Address,
        /// The slot index.
        stake_index: u32,
        /// Base-currency units to add.
        amount: u64,
    },
}

/// What `DelegateReserve` decides: the per-slot actions, the reserve's
/// signing bump, and the total moved out of the reserve.
pub struct DelegateOutcome {
    /// One action per delegation order, in order.
    pub actions: Vec<DelegateAction>,
    /// Bump seed of the derived reserve account.
    pub reserve_bump: u8,
    /// Total base-currency units delegated by the batch.
    pub total_amount: u64,
}

/// The error the pre-walk checks of `DelegateReserve` die with, if any.
pub open spec fn spec_delegate_reserve_checks(
    program_id: Seq<u8>,
    stake_pool_account: AccountView,
    validator_stake_list_key: Seq<u8>,
    withdraw_key: Seq<u8>,
    deposit_key: Seq<u8>,
    reserve_account: AccountView,
    rent_exempt_zero: u64,
    pool: StakePool,
    list: ValidatorStakeList,
) -> Option<StakePoolError> {
    let pool_key = stake_pool_account.key@;
    let reserve_base = spec_authority_seeds(pool_key, spec_authority_reserve());
    let deposit_ok = derived_address(
        spec_bump_seeds(
            spec_authority_seeds(pool_key, spec_authority_deposit()),
            pool.deposit_bump_seed,
        ),
        program_id,
    ) == Some(deposit_key);
    let withdraw_ok = derived_address(
        spec_bump_seeds(
            spec_authority_seeds(pool_key, spec_authority_withdraw()),
            pool.withdraw_bump_seed,
        ),
        program_id,
    ) == Some(withdraw_key);
    if stake_pool_account.owner@ != program_id {
        Some(StakePoolError::WrongOwner)
    } else if pool.version == 0 {
        Some(StakePoolError::InvalidState)
    } else if validator_stake_list_key != pool.validator_stake_list@ {
        Some(StakePoolError::InvalidValidatorStakeList)
    } else if list.version == 0 {
        Some(StakePoolError::InvalidState)
    } else if !deposit_ok {
        Some(StakePoolError::InvalidProgramAddress)
    } else if !withdraw_ok {
        Some(StakePoolError::InvalidProgramAddress)
    } else if spec_pda_none(reserve_base, program_id) {
        Some(StakePoolError::InvalidProgramAddress)
    } else if !spec_pda_matches(reserve_base, program_id, reserve_account.key@) {
        Some(StakePoolError::InvalidArgument)
    } else if reserve_account.lamports < rent_exempt_zero {
        Some(StakePoolError::CalculationFailure)
    } else {
        None
    }
}

/// Walks the delegation orders in turn: each must name a known
/// validator, stay within the reserve's spendable balance as a running
/// total, fill an existing slot or the first free one, and hand its
/// funds to the slot's properly derived sub-account. A new sub-account
/// must be viable (`MIN_STAKE_ACCOUNT_BALANCE`). Returns the final
/// records and the batch total.
pub open spec fn spec_delegate_walk(
    instructions: Seq<crate::instruction::DelegateReserveInstruction>,
    pairs: Seq<(Address, AccountView)>,
    vs: Seq<ValidatorStakeInfo>,
    total: u64,
    lamports_available: u64,
    program_id: Seq<u8>,
    pool_key: Seq<u8>,
    system_program: Seq<u8>,
) -> Result<(Seq<ValidatorStakeInfo>, u64), StakePoolError>
    decreases instructions.len(),
{
    if instructions.len() == 0 {
        Ok((vs, total))
    } else if pairs.len() == 0 {
        Err(StakePoolError::NotEnoughAccountKeys)
    } else {
        let ins = instructions[0];
        let vkey = pairs[0].0;
        let sacc = pairs[0].1;
        match spec_find_validator(vs, vkey@) {
            None => Err(StakePoolError::ValidatorNotFound),
            Some(vi) => {
                let v = vs[vi];
                let sseeds = spec_stake_address_seeds(v.validator_account@, pool_key, ins.stake_index);
                if total + ins.amount > u64::MAX {
                    Err(StakePoolError::CalculationFailure)
                } else if total + ins.amount > lamports_available {
                    Err(StakePoolError::InsufficientFunds)
                } else if ins.stake_index > v.stake_count {
                    Err(StakePoolError::InvalidStakeIndex)
                } else if spec_pda_none(sseeds, program_id) {
                    Err(StakePoolError::InvalidProgramAddress)
                } else if !spec_pda_matches(sseeds, program_id, sacc.key@) {
                    Err(StakePoolError::InvalidStakeAccountAddress)
                } else if sacc.owner@ == system_program && ins.amount < MIN_STAKE_ACCOUNT_BALANCE {
                    Err(StakePoolError::InsufficientFunds)
                } else if v.balance + ins.amount > u64::MAX {
                    Err(StakePoolError::CalculationFailure)
                } else if ins.stake_index >= v.stake_count && ins.stake_index + 1 > u32::MAX {
                    Err(StakePoolError::CalculationFailure)
                } else {
                    let new_count = if ins.stake_index >= v.stake_count {
                        (ins.stake_index + 1) as u32
                    } else {
                        v.stake_count
                    };
                    let v2 = ValidatorStakeInfo {
                        balance: (v.balance + ins.amount) as u64,
                        stake_count: new_count,
                        ..v
                    };
                    spec_delegate_walk(
                        instructions.skip(1),
                        pairs.skip(1),
                        vs.update(vi, v2),
                        (total + ins.amount) as u64,
                        lamports_available,
                        program_id,
                        pool_key,
                        system_program,
                    )
                }
            },
        }
    }
}

/// What the host shell reads of one account handed to the reconciliation
/// walk: its key, owning program, balance, and the parsed stake state
/// where the owner is the staking program (`None` for unparseable data).
#[derive(Clone, Copy, Debug)]
pub struct UpdateAccountView {
    /// The account's key.
    pub key: Address,
    /// The program that owns the account.
    pub owner: Address,
    /// The account's balance in base-currency units.
    pub lamports: u64,
    /// The parsed stake state, for staking-program-owned accounts.
    pub stake: Option<StakeStateView>,
}

/// One sweep the reconciliation walk tells the host shell to perform:
/// both kinds move funds into the reserve, a withdrawal signed by the
/// withdraw authority, a transfer signed by the sub-account's own
/// derived seeds.
#[derive(Clone, Copy, Debug, PartialEq, Eq)]
pub struct SweepAction {
    /// True for a stake withdrawal, false for a system transfer.
    pub is_withdraw: bool,
    /// The swept stake sub-account.
    pub stake_account: Address,
    /// The validator the slot belongs to.
    pub validator: Address,
    /// The slot index.
    pub stake_index: u32,
    /// The sub-account's derivation bump.
    pub stake_bump: u8,
    /// Base-currency units moved back to the reserve.
    pub amount: u64,
}

/// A sweep as the walk's contract describes it: everything of
/// [`SweepAction`] but the derivation bump.
#[derive(Clone, Copy, Debug, PartialEq, Eq)]
pub struct SweepOrder {
    /// True for a stake withdrawal, false for a system transfer.
    pub is_withdraw: bool,
    /// The swept stake sub-account.
    pub stake_account: Address,
    /// The validator the slot belongs to.
    pub validator: Address,
    /// The slot index.
    pub stake_index: u32,
    /// Base-currency units moved back to the reserve.
    pub amount: u64,
}

/// A recorded sweep action carries its order's fields and a bump that
/// really derives the swept sub-account.
pub open spec fn spec_action_matches_order(
    a: SweepAction,
    o: SweepOrder,
    pool_key: Seq<u8>,
    program_id: Seq<u8>,
) -> bool {
    &&& a.is_withdraw == o.is_withdraw
    &&& a.stake_account == o.stake_account
    &&& a.validator == o.validator
    &&& a.stake_index == o.stake_index
    &&& a.amount == o.amount
    &&& spec_pda_found(
        spec_stake_address_seeds(o.validator@, pool_key, o.stake_index),
        program_id,
        o.stake_account@,
        a.stake_bump,
    )
}

/// What one sub-account contributes to its validator's record: the
/// lamports that stay on it (the record keeps counting them), whether
/// the slot counts as occupied, and the sweep to perform, if any.
/// A zero-balance account is passed over. A staking-owned account gives
/// back everything above its rent reserve and delegated stake; a
/// system-owned account is swept back whole; anything else is a fault.
pub open spec fn spec_sweep_account(
    acc: UpdateAccountView,
    stake_program: Seq<u8>,
    system_program: Seq<u8>,
) -> Result<(u64, bool, Option<(bool, u64)>), StakePoolError> {
    if acc.lamports == 0 {
        Ok((0u64, false, None))
    } else if acc.owner@ == stake_program {
        match acc.stake {
            None => Err(StakePoolError::InvalidAccountData),
            Some(StakeStateView::Uninitialized) => Ok((0u64, true, Some((true, acc.lamports)))),
            Some(StakeStateView::Initialized { rent_exempt_reserve }) => {
                if rent_exempt_reserve > acc.lamports {
                    Err(StakePoolError::CalculationFailure)
                } else if acc.lamports > rent_exempt_reserve {
                    Ok(
                        (
                            rent_exempt_reserve,
                            true,
                            Some((true, (acc.lamports - rent_exempt_reserve) as u64)),
                        ),
                    )
                } else {
                    Ok((acc.lamports, true, None))
                }
            },
            Some(StakeStateView::Stake { rent_exempt_reserve, delegation_stake, .. }) => {
                if rent_exempt_reserve + delegation_stake > acc.lamports {
                    Err(StakePoolError::CalculationFailure)
                } else if acc.lamports > rent_exempt_reserve + delegation_stake {
                    Ok(
                        (
                            (rent_exempt_reserve + delegation_stake) as u64,
                            true,
                            Some(
                                (
                                    true,
                                    (acc.lamports - rent_exempt_reserve - delegation_stake) as u64,
                                ),
                            ),
                        ),
                    )
                } else {
                    Ok((acc.lamports, true, None))
                }
            },
            Some(StakeStateView::RewardsPool) => Err(StakePoolError::WrongStakeState),
        }
    } else if acc.owner@ == system_program {
        Ok((0u64, false, Some((false, acc.lamports))))
    } else {
        Err(StakePoolError::WrongStakeState)
    }
}

/// Puts already-collected sweep orders in front of the orders a
/// remaining sweep walk will collect.
pub open spec fn spec_prepend_sweep(
    pre: Seq<SweepOrder>,
    r: Result<(u64, u32, Seq<SweepOrder>), StakePoolError>,
) -> Result<(u64, u32, Seq<SweepOrder>), StakePoolError> {
    match r {
        Ok((b, n, os)) => Ok((b, n, pre + os)),
        Err(e) => Err(e),
    }
}

/// Walks one validator's stake sub-accounts from slot `index` on: each
/// must sit at its derived address; its contribution is added to the
/// rebuilt cached balance, and the slot count ends at the highest
/// contiguously occupied slot plus one, so slots beyond the first gap
/// are treated as unused.
pub open spec fn spec_sweep_stakes(
    stakes: Seq<UpdateAccountView>,
    index: u32,
    validator: Address,
    program_id: Seq<u8>,
    pool_key: Seq<u8>,
    stake_program: Seq<u8>,
    system_program: Seq<u8>,
    balance: u64,
    new_stake_count: u32,
) -> Result<(u64, u32, Seq<SweepOrder>), StakePoolError>
    decreases stakes.len(),
{
    if stakes.len() == 0 {
        Ok((balance, new_stake_count, Seq::empty()))
    } else {
        let acc = stakes[0];
        let sseeds = spec_stake_address_seeds(validator@, pool_key, index);
        if spec_pda_none(sseeds, program_id) {
            Err(StakePoolError::InvalidProgramAddress)
        } else if !spec_pda_matches(sseeds, program_id, acc.key@) {
            Err(StakePoolError::InvalidStakeAccountAddress)
        } else {
            match spec_sweep_account(acc, stake_program, system_program) {
                Err(e) => Err(e),
                Ok((retained, occupied, order)) => {
                    if balance + retained > u64::MAX {
                        Err(StakePoolError::CalculationFailure)
                    } else {
                        let pre = match order {
                            None => Seq::<SweepOrder>::empty(),
                            Some((is_withdraw, amount)) => seq![
                                SweepOrder {
                                    is_withdraw,
                                    stake_account: acc.key,
                                    validator,
                                    stake_index: index,
                                    amount,
                                },
                            ],
                        };
                        spec_prepend_sweep(
                            pre,
                            spec_sweep_stakes(
                                stakes.skip(1),
                                (index + 1) as u32,
                                validator,
                                program_id,
                                pool_key,
                                stake_program,
                                system_program,
                                (balance + retained) as u64,
                                if occupied && new_stake_count == index {
                                    (index + 1) as u32
                                } else {
                                    new_stake_count
                                },
                            ),
                        )
                    }
                },
            }
        }
    }
}

/// Puts already-collected sweep orders in front of the orders a
/// remaining reconciliation walk will collect.
pub open spec fn spec_prepend_walk(
    pre: Seq<SweepOrder>,
    r: Result<(Seq<ValidatorStakeInfo>, Seq<SweepOrder>), StakePoolError>,
) -> Result<(Seq<ValidatorStakeInfo>, Seq<SweepOrder>), StakePoolError> {
    match r {
        Ok((vs, os)) => Ok((vs, pre + os)),
        Err(e) => Err(e),
    }
}

/// The error the pre-walk checks of `UpdateListBalance` die with, if
/// any.
pub open spec fn spec_update_list_balance_checks(
    program_id: Seq<u8>,
    stake_pool_account: AccountView,
    validator_stake_list_key: Seq<u8>,
    withdraw_key: Seq<u8>,
    reserve_key: Seq<u8>,
    pool: StakePool,
    list: ValidatorStakeList,
) -> Option<StakePoolError> {
    let pool_key = stake_pool_account.key@;
    let reserve_base = spec_authority_seeds(pool_key, spec_authority_reserve());
    let withdraw_ok = derived_address(
        spec_bump_seeds(
            spec_authority_seeds(pool_key, spec_authority_withdraw()),
            pool.withdraw_bump_seed,
        ),
        program_id,
    ) == Some(withdraw_key);
    if stake_pool_account.owner@ != program_id {
        Some(StakePoolError::WrongOwner)
    } else if pool.version == 0 {
        Some(StakePoolError::InvalidState)
    } else if validator_stake_list_key != pool.validator_stake_list@ {
        Some(StakePoolError::InvalidValidatorStakeList)
    } else if list.version == 0 {
        Some(StakePoolError::InvalidState)
    } else if !withdraw_ok {
        Some(StakePoolError::InvalidProgramAddress)
    } else if spec_pda_none(reserve_base, program_id) {
        Some(StakePoolError::InvalidProgramAddress)
    } else if !spec_pda_matches(reserve_base, program_id, reserve_key) {
        Some(StakePoolError::InvalidArgument)
    } else {
        None
    }
}

/// Walks the caller-supplied account run: a validator entry, then
/// exactly that record's `stake_count` sub-accounts, repeated. Each
/// named validator's record is rebuilt from what its sub-accounts still
/// hold, its slot count recomputed, and its epoch stamp refreshed.
pub open spec fn spec_update_list_walk(
    accounts: Seq<UpdateAccountView>,
    vs: Seq<ValidatorStakeInfo>,
    program_id: Seq<u8>,
    pool_key: Seq<u8>,
    stake_program: Seq<u8>,
    system_program: Seq<u8>,
    epoch: u64,
) -> Result<(Seq<ValidatorStakeInfo>, Seq<SweepOrder>), StakePoolError>
    decreases accounts.len(),
{
    if accounts.len() == 0 {
        Ok((vs, Seq::empty()))
    } else {
        match spec_find_validator(vs, accounts[0].key@) {
            None => Err(StakePoolError::ValidatorNotFound),
            Some(vi) => {
                let v = vs[vi];
                let count = v.stake_count as int;
                if accounts.len() < 1 + count {
                    Err(StakePoolError::NotEnoughAccountKeys)
                } else {
                    match spec_sweep_stakes(
                        accounts.subrange(1, 1 + count),
                        0,
                        v.validator_account,
                        program_id,
                        pool_key,
                        stake_program,
                        system_program,
                        0,
                        0,
                    ) {
                        Err(e) => Err(e),
                        Ok((balance, new_stake_count, orders)) => {
                            let v2 = ValidatorStakeInfo {
                                validator_account: v.validator_account,
                                balance,
                                last_update_epoch: epoch,
                                stake_count: new_stake_count,
                            };
                            spec_prepend_walk(
                                orders,
                                spec_update_list_walk(
                                    accounts.skip(1 + count),
                                    vs.update(vi, v2),
                                    program_id,
                                    pool_key,
                                    stake_program,
                                    system_program,
                                    epoch,
                                ),
                            )
                        },
                    }
                }
            },
        }
    }
}

/// The action recorded for one delegation order is the right one for its
/// order and account pair: a creation order for a slot whose account the
/// host system still owns, a top-up otherwise, both aimed at the derived
/// sub-account with the order's amount.
pub open spec fn spec_delegate_action_ok(
    action: DelegateAction,
    ins: crate::instruction::DelegateReserveInstruction,
    pair: (Address, AccountView),
    program_id: Seq<u8>,
    pool_key: Seq<u8>,
    system_program: Seq<u8>,
) -> bool {
    if pair.1.owner@ == system_program {
        match action {
            DelegateAction::InitStake { validator, stake_account, stake_index, stake_bump, amount } => {
                &&& validator == pair.0
                &&& stake_account == pair.1.key
                &&& stake_index == ins.stake_index
                &&& amount == ins.amount
                &&& spec_pda_found(
                    spec_stake_address_seeds(pair.0@, pool_key, ins.stake_index),
                    program_id,
                    pair.1.key@,
                    stake_bump,
                )
            },
            _ => false,
        }
    } else {
        action == (DelegateAction::Redelegate {
            validator: pair.0,
            stake_account: pair.1.key,
            stake_index: ins.stake_index,
            amount: ins.amount,
        })
    }
}

/// One merge the host shell must perform, folding the source stake
/// sub-account into the target, signed as the deposit authority.
#[derive(Clone, Copy, Debug, PartialEq, Eq)]
pub struct MergeAction {
    /// The surviving target stake sub-account.
    pub main_stake: Address,
    /// The source stake sub-account, drained by the merge.
    pub additional_stake: Address,
}

/// The error the pre-walk checks of `MergeStakes` die with, if any.
pub open spec fn spec_merge_stakes_checks(
    program_id: Seq<u8>,
    stake_pool_account: AccountView,
    validator_stake_list_key: Seq<u8>,
    deposit_key: Seq<u8>,
    pool: StakePool,
    list: ValidatorStakeList,
) -> Option<StakePoolError> {
    let deposit_ok = derived_address(
        spec_bump_seeds(
            spec_authority_seeds(stake_pool_account.key@, spec_authority_deposit()),
            pool.deposit_bump_seed,
        ),
        program_id,
    ) == Some(deposit_key);
    if stake_pool_account.owner@ != program_id {
        Some(StakePoolError::WrongOwner)
    } else if pool.version == 0 {
        Some(StakePoolError::InvalidState)
    } else if validator_stake_list_key != pool.validator_stake_list@ {
        Some(StakePoolError::InvalidValidatorStakeList)
    } else if list.version == 0 {
        Some(StakePoolError::InvalidState)
    } else if !deposit_ok {
        Some(StakePoolError::InvalidProgramAddress)
    } else {
        None
    }
}

/// Walks the merge orders in turn: each must name a known validator and
/// a legal slot pair (`main < additional < stake_count`), and the record
/// loses its top slot exactly when the drained slot was the top one.
/// Returns the final records and whether any record changed.
pub open spec fn spec_merge_stakes_walk(
    instructions: Seq<crate::instruction::MergeStakesInstruction>,
    pairs: Seq<(Address, Address)>,
    vs: Seq<ValidatorStakeInfo>,
    changed: bool,
) -> Result<(Seq<ValidatorStakeInfo>, bool), StakePoolError>
    decreases instructions.len(),
{
    if instructions.len() == 0 {
        Ok((vs, changed))
    } else if pairs.len() == 0 {
        Err(StakePoolError::NotEnoughAccountKeys)
    } else {
        let ins = instructions[0];
        match spec_find_validator(vs, ins.validator_address@) {
            None => Err(StakePoolError::ValidatorNotFound),
            Some(vi) => {
                let v = vs[vi];
                if ins.main_index >= v.stake_count || ins.additional_index >= v.stake_count
                    || ins.main_index >= ins.additional_index {
                    Err(StakePoolError::InvalidStakeIndex)
                } else {
                    let decrement = ins.additional_index + 1 == v.stake_count;
                    let v2 = if decrement {
                        ValidatorStakeInfo { stake_count: (v.stake_count - 1) as u32, ..v }
                    } else {
                        v
                    };
                    spec_merge_stakes_walk(
                        instructions.skip(1),
                        pairs.skip(1),
                        vs.update(vi, v2),
                        changed || decrement,
                    )
                }
            },
        }
    }
}

/// A validator's sub-account slots are densely packed: the occupied
/// slots are exactly `0 .. count`, with no hole below the count and
/// nothing above it.
pub open spec fn spec_densely_packed(occupied: Seq<bool>, count: int) -> bool {
    forall|i: int| 0 <= i < occupied.len() ==> (occupied[i] <==> i < count)
}

/// Dense packing survives a delegation. `DelegateReserve` admits only a
/// slot index up to the current count and then raises the count to cover
/// it, so the order either refills an occupied slot or occupies the
/// first free one.
pub proof fn lemma_delegate_preserves_dense_packing(occupied: Seq<bool>, count: int, idx: int)
    requires
        spec_densely_packed(occupied, count),
        0 <= count <= occupied.len(),
        0 <= idx <= count,
        idx < occupied.len(),
    ensures
        spec_densely_packed(
            occupied.update(idx, true),
            if idx >= count {
                idx + 1
            } else {
                count
            },
        ),
{
}

/// Dense packing survives a merge that drains the top slot, the one
/// case in which `MergeStakes` decrements the count. Draining a slot
/// below the top would leave a hole while the count stands, so the law
/// is stated for the top slot only.
pub proof fn lemma_merge_preserves_dense_packing(
    occupied: Seq<bool>,
    count: int,
    main: int,
    additional: int,
)
    requires
        spec_densely_packed(occupied, count),
        0 <= count <= occupied.len(),
        0 <= main < additional < count,
        additional == count - 1,
    ensures
        spec_densely_packed(occupied.update(additional, false), count - 1),
{
}

/// What `Initialize` decides beyond the records themselves: the two
/// authority bumps and the withdraw authority's address, which the host
/// shell needs to hand the credit reserve to that authority.
#[derive(Clone, Copy, Debug)]
pub struct InitializeOutcome {
    /// Bump seed of the deposit authority.
    pub deposit_bump: u8,
    /// Address of the deposit authority.
    pub deposit_authority: Address,
    /// Bump seed of the withdraw authority.
    pub withdraw_bump: u8,
    /// Address of the withdraw authority.
    pub withdraw_authority: Address,
}

/// The error `Initialize` dies with, if any: the full check cascade in
/// the order the handler runs it, from ownership and one-shot-creation
/// checks through rent floors, authority derivation, the fee bound, and
/// the token-side checks on the fee, credit-reserve and mint records.
pub open spec fn spec_initialize_checks(
    program_id: Seq<u8>,
    init: crate::state::InitArgs,
    stake_pool_account: AccountView,
    owner_account: AccountView,
    validator_stake_list_account: AccountView,
    credit_list_account: AccountView,
    pool_mint_account: AccountView,
    owner_fee_account: AccountView,
    credit_reserve_account: AccountView,
    token_program_key: Seq<u8>,
    pool_rent_min: u64,
    list_rent_min: u64,
    credit_rent_min: u64,
    pool_mint_data: Seq<u8>,
    owner_fee_data: Seq<u8>,
    credit_reserve_data: Seq<u8>,
    pool: StakePool,
    list: ValidatorStakeList,
    clist: crate::state::CreditList,
) -> Option<StakePoolError> {
    let pool_key = stake_pool_account.key@;
    let deposit_base = spec_authority_seeds(pool_key, spec_authority_deposit());
    let withdraw_base = spec_authority_seeds(pool_key, spec_authority_withdraw());
    if stake_pool_account.owner@ != program_id {
        Some(StakePoolError::WrongOwner)
    } else if pool.version != 0 {
        Some(StakePoolError::AlreadyInUse)
    } else if !owner_account.is_signer {
        Some(StakePoolError::SignatureMissing)
    } else if list.version != 0 {
        Some(StakePoolError::AlreadyInUse)
    } else if clist.version != 0 {
        Some(StakePoolError::AlreadyInUse)
    } else if stake_pool_account.lamports < pool_rent_min {
        Some(StakePoolError::AccountNotRentExempt)
    } else if validator_stake_list_account.lamports < list_rent_min {
        Some(StakePoolError::AccountNotRentExempt)
    } else if credit_list_account.lamports < credit_rent_min {
        Some(StakePoolError::AccountNotRentExempt)
    } else if spec_pda_none(deposit_base, program_id) {
        Some(StakePoolError::InvalidProgramAddress)
    } else if spec_pda_none(withdraw_base, program_id) {
        Some(StakePoolError::InvalidProgramAddress)
    } else if init.fee.numerator > init.fee.denominator {
        Some(StakePoolError::FeeTooHigh)
    } else if owner_fee_account.owner@ != token_program_key {
        Some(StakePoolError::InvalidFeeAccount)
    } else if credit_reserve_account.owner@ != token_program_key {
        Some(StakePoolError::InvalidFeeAccount)
    } else if pool_mint_account.owner@ != token_program_key {
        Some(StakePoolError::IncorrectProgramId)
    } else if owner_fee_data.len() < 165 {
        Some(StakePoolError::InvalidAccountData)
    } else {
        match token_account_of(owner_fee_data.take(165)) {
            None => Some(StakePoolError::InvalidAccountData),
            Some(fee_view) => {
                if fee_view.0 != pool_mint_account.key@ {
                    Some(StakePoolError::WrongAccountMint)
                } else if credit_reserve_data.len() < 165 {
                    Some(StakePoolError::InvalidAccountData)
                } else {
                    match token_account_of(credit_reserve_data.take(165)) {
                        None => Some(StakePoolError::InvalidAccountData),
                        Some(cr) => {
                            if cr.0 != pool_mint_account.key@ {
                                Some(StakePoolError::WrongAccountMint)
                            } else if !cr.1 {
                                Some(StakePoolError::WrongCreditState)
                            } else if cr.2 {
                                Some(StakePoolError::WrongCreditState)
                            } else if cr.3 {
                                Some(StakePoolError::WrongCreditState)
                            } else if pool_mint_data.len() < 82 {
                                Some(StakePoolError::InvalidAccountData)
                            } else {
                                match crate::token::mint_of(pool_mint_data.take(82)) {
                                    None => Some(StakePoolError::InvalidAccountData),
                                    Some(m) => {
                                        if !(m.0 is Some && spec_pda_matches(
                                            withdraw_base,
                                            program_id,
                                            m.0->Some_0,
                                        )) {
                                            Some(StakePoolError::WrongMintingAuthority)
                                        } else if m.1 > 0 {
                                            Some(StakePoolError::MintHasInitialSupply)
                                        } else {
                                            None
                                        }
                                    },
                                }
                            }
                        },
                    }
                }
            },
        }
    }
}

impl Processor {
    /// Processes `Initialize`: creates the pool record, the empty
    /// validator list and the empty credit list in one shot, after
    /// checking creation preconditions, rent floors, the fee bound, the
    /// derived authorities, and the token-side records. The host shell
    /// must then hand the credit reserve to the returned withdraw
    /// authority.
    pub fn process_initialize(
        program_id: &Address,
        init: crate::state::InitArgs,
        stake_pool_account: &AccountView,
        owner_account: &AccountView,
        validator_stake_list_account: &AccountView,
        credit_list_account: &AccountView,
        pool_mint_account: &AccountView,
        owner_fee_account: &AccountView,
        credit_reserve_account: &AccountView,
        token_program_key: &Address,
        epoch: u64,
        pool_rent_min: u64,
        list_rent_min: u64,
        credit_rent_min: u64,
        pool_mint_data: &[u8],
        owner_fee_data: &[u8],
        credit_reserve_data: &[u8],
        stake_pool: &mut StakePool,
        validator_stake_list: &mut ValidatorStakeList,
        credit_list: &mut crate::state::CreditList,
    ) -> (r: Result<InitializeOutcome, StakePoolError>)
        ensures
            ({
                let checks = spec_initialize_checks(
                    program_id@,
                    init,
                    *stake_pool_account,
                    *owner_account,
                    *validator_stake_list_account,
                    *credit_list_account,
                    *pool_mint_account,
                    *owner_fee_account,
                    *credit_reserve_account,
                    token_program_key@,
                    pool_rent_min,
                    list_rent_min,
                    credit_rent_min,
                    pool_mint_data@,
                    owner_fee_data@,
                    credit_reserve_data@,
                    *old(stake_pool),
                    *old(validator_stake_list),
                    *old(credit_list),
                );
                let deposit_base = spec_authority_seeds(
                    stake_pool_account.key@,
                    spec_authority_deposit(),
                );
                let withdraw_base = spec_authority_seeds(
                    stake_pool_account.key@,
                    spec_authority_withdraw(),
                );
                match r {
                    Ok(out) => {
                        &&& checks is None
                        &&& spec_pda_found(
                            deposit_base,
                            program_id@,
                            out.deposit_authority@,
                            out.deposit_bump,
                        )
                        &&& spec_pda_found(
                            withdraw_base,
                            program_id@,
                            out.withdraw_authority@,
                            out.withdraw_bump,
                        )
                        &&& *final(stake_pool) == StakePool {
                            version: crate::PROGRAM_VERSION,
                            owner: owner_account.key,
                            deposit_bump_seed: out.deposit_bump,
                            withdraw_bump_seed: out.withdraw_bump,
                            validator_stake_list: validator_stake_list_account.key,
                            credit_list: credit_list_account.key,
                            pool_mint: pool_mint_account.key,
                            owner_fee_account: owner_fee_account.key,
                            credit_reserve: credit_reserve_account.key,
                            token_program_id: *token_program_key,
                            last_update_epoch: epoch,
                            fee: init.fee,
                            ..*old(stake_pool)
                        }
                        &&& final(validator_stake_list).version
                            == ValidatorStakeList::VALIDATOR_STAKE_LIST_VERSION
                        &&& final(validator_stake_list).validators@.len() == 0
                        &&& final(credit_list).version == crate::state::CreditList::VERSION
                        &&& final(credit_list).credits@.len() == 0
                    },
                    Err(e) => {
                        &&& checks == Some(e)
                        &&& *final(stake_pool) == *old(stake_pool)
                        &&& *final(validator_stake_list) == *old(validator_stake_list)
                        &&& *final(credit_list) == *old(credit_list)
                    },
                }
            }),
    {
        if !stake_pool_account.owner.eq_key(program_id) {
            return Err(StakePoolError::WrongOwner);
        }
        if stake_pool.is_initialized() {
            return Err(StakePoolError::AlreadyInUse);
        }
        if !owner_account.is_signer {
            return Err(StakePoolError::SignatureMissing);
        }
        if validator_stake_list.is_initialized() {
            return Err(StakePoolError::AlreadyInUse);
        }
        if credit_list.is_initialized() {
            return Err(StakePoolError::AlreadyInUse);
        }
        if stake_pool_account.lamports < pool_rent_min {
            return Err(StakePoolError::AccountNotRentExempt);
        }
        if validator_stake_list_account.lamports < list_rent_min {
            return Err(StakePoolError::AccountNotRentExempt);
        }
        if credit_list_account.lamports < credit_rent_min {
            return Err(StakePoolError::AccountNotRentExempt);
        }
        let tag = Self::authority_deposit();
        let (deposit_authority, deposit_bump) = match Self::find_authority_bump_seed(
            program_id,
            &stake_pool_account.key,
            &tag,
        ) {
            Ok(p) => p,
            Err(e) => {
                return Err(e);
            },
        };
        let tag = Self::authority_withdraw();
        let (withdraw_authority, withdraw_bump) = match Self::find_authority_bump_seed(
            program_id,
            &stake_pool_account.key,
            &tag,
        ) {
            Ok(p) => p,
            Err(e) => {
                return Err(e);
            },
        };
        let ghost withdraw_base = spec_authority_seeds(
            stake_pool_account.key@,
            spec_authority_withdraw(),
        );
        proof {
            assert(spec_pda_found(
                withdraw_base,
                program_id@,
                withdraw_authority@,
                withdraw_bump,
            ));
            assert(!spec_pda_none(withdraw_base, program_id@));
        }
        if init.fee.numerator > init.fee.denominator {
            return Err(StakePoolError::FeeTooHigh);
        }
        if !owner_fee_account.owner.eq_key(token_program_key) {
            return Err(StakePoolError::InvalidFeeAccount);
        }
        if !credit_reserve_account.owner.eq_key(token_program_key) {
            return Err(StakePoolError::InvalidFeeAccount);
        }
        if !pool_mint_account.owner.eq_key(token_program_key) {
            return Err(StakePoolError::IncorrectProgramId);
        }
        if owner_fee_data.len() < 165 {
            return Err(StakePoolError::InvalidAccountData);
        }
        let fee_view = match unpack_token_account(owner_fee_data) {
            Ok(v) => v,
            Err(e) => {
                return Err(e);
            },
        };
        if !fee_view.mint.eq_key(&pool_mint_account.key) {
            return Err(StakePoolError::WrongAccountMint);
        }
        if credit_reserve_data.len() < 165 {
            return Err(StakePoolError::InvalidAccountData);
        }
        let credit_view = match unpack_token_account(credit_reserve_data) {
            Ok(v) => v,
            Err(e) => {
                return Err(e);
            },
        };
        if !credit_view.mint.eq_key(&pool_mint_account.key) {
            return Err(StakePoolError::WrongAccountMint);
        }
        if !credit_view.state_initialized {
            return Err(StakePoolError::WrongCreditState);
        }
        if credit_view.has_delegate {
            return Err(StakePoolError::WrongCreditState);
        }
        if credit_view.has_close_authority {
            return Err(StakePoolError::WrongCreditState);
        }
        if pool_mint_data.len() < 82 {
            return Err(StakePoolError::InvalidAccountData);
        }
        let mint_view = match crate::token::unpack_mint(pool_mint_data) {
            Ok(v) => v,
            Err(e) => {
                return Err(e);
            },
        };
        match &mint_view.mint_authority {
            None => {
                return Err(StakePoolError::WrongMintingAuthority);
            },
            Some(authority) => {
                if !authority.eq_key(&withdraw_authority) {
                    proof {
                        if spec_pda_matches(withdraw_base, program_id@, authority@) {
                            let b2 = choose|b: u8|
                                spec_pda_found(withdraw_base, program_id@, authority@, b);
                            lemma_pda_found_unique(
                                withdraw_base,
                                program_id@,
                                withdraw_authority@,
                                withdraw_bump,
                                authority@,
                                b2,
                            );
                        }
                        assert(!spec_pda_matches(withdraw_base, program_id@, authority@));
                    }
                    return Err(StakePoolError::WrongMintingAuthority);
                }
                proof {
                    assert(spec_pda_matches(withdraw_base, program_id@, authority@));
                }
            },
        }
        if mint_view.supply > 0 {
            return Err(StakePoolError::MintHasInitialSupply);
        }
        validator_stake_list.version = ValidatorStakeList::VALIDATOR_STAKE_LIST_VERSION;
        validator_stake_list.validators.clear();
        credit_list.version = crate::state::CreditList::VERSION;
        credit_list.credits.clear();
        stake_pool.version = crate::PROGRAM_VERSION;
        stake_pool.owner = owner_account.key;
        stake_pool.deposit_bump_seed = deposit_bump;
        stake_pool.withdraw_bump_seed = withdraw_bump;
        stake_pool.validator_stake_list = validator_stake_list_account.key;
        stake_pool.credit_list = credit_list_account.key;
        stake_pool.pool_mint = pool_mint_account.key;
        stake_pool.owner_fee_account = owner_fee_account.key;
        stake_pool.credit_reserve = credit_reserve_account.key;
        stake_pool.token_program_id = *token_program_key;
        stake_pool.last_update_epoch = epoch;
        stake_pool.fee = init.fee;
        Ok(
            InitializeOutcome {
                deposit_bump,
                deposit_authority,
                withdraw_bump,
                withdraw_authority,
            },
        )
    }

    /// Sweeps one validator's run of stake sub-accounts, rebuilding its
    /// cached balance and slot count and recording the sweeps to
    /// perform.
    fn sweep_validator_stakes(
        accounts: &Vec<UpdateAccountView>,
        start: usize,
        count: u32,
        v: &ValidatorStakeInfo,
        program_id: &Address,
        pool_key: &Address,
        stake_program_id: &Address,
        system_program_id: &Address,
        actions: &mut Vec<SweepAction>,
    ) -> (r: Result<(u64, u32), StakePoolError>)
        requires
            start + count <= accounts@.len(),
        ensures
            ({
                let s = spec_sweep_stakes(
                    accounts@.subrange(start as int, start + count),
                    0,
                    v.validator_account,
                    program_id@,
                    pool_key@,
                    stake_program_id@,
                    system_program_id@,
                    0,
                    0,
                );
                match r {
                    Ok((balance, nsc)) => {
                        &&& s is Ok
                        &&& balance == s->Ok_0.0
                        &&& nsc == s->Ok_0.1
                        &&& final(actions)@.len() == old(actions)@.len() + s->Ok_0.2.len()
                        &&& final(actions)@.subrange(0, old(actions)@.len() as int) == old(
                            actions,
                        )@
                        &&& forall|k: int|
                            0 <= k < s->Ok_0.2.len() ==> spec_action_matches_order(
                                final(actions)@[old(actions)@.len() + k],
                                s->Ok_0.2[k],
                                pool_key@,
                                program_id@,
                            )
                    },
                    Err(e) => {
                        &&& s == Err::<(u64, u32, Seq<SweepOrder>), StakePoolError>(e)
                        &&& final(actions)@.subrange(0, old(actions)@.len() as int) == old(
                            actions,
                        )@
                    },
                }
            }),
    {
        let ghost sub = accounts@.subrange(start as int, start as int + count as int);
        let alen = accounts.len();
        let mut balance: u64 = 0;
        let mut nsc: u32 = 0;
        let mut idx: u32 = 0;
        let ghost mut done: Seq<SweepOrder> = Seq::empty();
        proof {
            assert(sub.skip(0) =~= sub);
            assert(Seq::<SweepOrder>::empty() + spec_sweep_stakes(
                sub,
                0,
                v.validator_account,
                program_id@,
                pool_key@,
                stake_program_id@,
                system_program_id@,
                0,
                0,
            )->Ok_0.2 =~= spec_sweep_stakes(
                sub,
                0,
                v.validator_account,
                program_id@,
                pool_key@,
                stake_program_id@,
                system_program_id@,
                0,
                0,
            )->Ok_0.2);
        }
        while idx < count
            invariant
                idx <= count,
                alen == accounts@.len(),
                start + count <= alen,
                sub == accounts@.subrange(start as int, start as int + count as int),
                sub.len() == count,
                actions@.len() == old(actions)@.len() + done.len(),
                actions@.subrange(0, old(actions)@.len() as int) == old(actions)@,
                forall|k: int|
                    0 <= k < done.len() ==> spec_action_matches_order(
                        actions@[old(actions)@.len() + k],
                        done[k],
                        pool_key@,
                        program_id@,
                    ),
                spec_sweep_stakes(
                    sub,
                    0,
                    v.validator_account,
                    program_id@,
                    pool_key@,
                    stake_program_id@,
                    system_program_id@,
                    0,
                    0,
                ) == spec_prepend_sweep(
                    done,
                    spec_sweep_stakes(
                        sub.skip(idx as int),
                        idx,
                        v.validator_account,
                        program_id@,
                        pool_key@,
                        stake_program_id@,
                        system_program_id@,
                        balance,
                        nsc,
                    ),
                ),
            decreases count - idx,
        {
            proof {
                assert(sub.skip(idx as int)[0] == sub[idx as int]);
                assert(sub[idx as int] == accounts@[start + idx]);
                assert(sub.skip(idx as int).skip(1) =~= sub.skip(idx as int + 1));
            }
            let acc = accounts[start + (idx as usize)];
            let sseeds = Ghost(
                spec_stake_address_seeds(v.validator_account@, pool_key@, idx),
            );
            let stake_bump = match v.check_validator_stake_address(
                program_id,
                pool_key,
                idx,
                &acc.key,
            ) {
                Ok(b) => b,
                Err(e) => {
                    proof {
                        if e == StakePoolError::InvalidStakeAccountAddress {
                            lemma_pda_differs_not_matches(sseeds@, program_id@, acc.key@);
                        }
                    }
                    return Err(e);
                },
            };
            proof {
                assert(spec_pda_found(sseeds@, program_id@, acc.key@, stake_bump));
                assert(!spec_pda_none(sseeds@, program_id@));
                assert(spec_pda_matches(sseeds@, program_id@, acc.key@));
            }
            let (retained, occupied, order): (u64, bool, Option<(bool, u64)>) = if acc.lamports
                == 0 {
                (0u64, false, None)
            } else if acc.owner.eq_key(stake_program_id) {
                match &acc.stake {
                    None => {
                        return Err(StakePoolError::InvalidAccountData);
                    },
                    Some(StakeStateView::Uninitialized) => (
                        0u64,
                        true,
                        Some((true, acc.lamports)),
                    ),
                    Some(StakeStateView::Initialized { rent_exempt_reserve }) => {
                        let rer = *rent_exempt_reserve;
                        match acc.lamports.checked_sub(rer) {
                            None => {
                                return Err(StakePoolError::CalculationFailure);
                            },
                            Some(available) => if available > 0 {
                                (rer, true, Some((true, available)))
                            } else {
                                (acc.lamports, true, None)
                            },
                        }
                    },
                    Some(StakeStateView::Stake { rent_exempt_reserve, delegation_stake, .. }) => {
                        let rer = *rent_exempt_reserve;
                        let ds = *delegation_stake;
                        match acc.lamports.checked_sub(rer) {
                            None => {
                                return Err(StakePoolError::CalculationFailure);
                            },
                            Some(a1) => match a1.checked_sub(ds) {
                                None => {
                                    return Err(StakePoolError::CalculationFailure);
                                },
                                Some(available) => if available > 0 {
                                    (rer + ds, true, Some((true, available)))
                                } else {
                                    (acc.lamports, true, None)
                                },
                            },
                        }
                    },
                    Some(StakeStateView::RewardsPool) => {
                        return Err(StakePoolError::WrongStakeState);
                    },
                }
            } else if acc.owner.eq_key(system_program_id) {
                (0u64, false, Some((false, acc.lamports)))
            } else {
                return Err(StakePoolError::WrongStakeState);
            };
            let new_balance = match balance.checked_add(retained) {
                Some(b) => b,
                None => {
                    return Err(StakePoolError::CalculationFailure);
                },
            };
            match order {
                Some((is_withdraw, amount)) => {
                    actions.push(
                        SweepAction {
                            is_withdraw,
                            stake_account: acc.key,
                            validator: v.validator_account,
                            stake_index: idx,
                            stake_bump,
                            amount,
                        },
                    );
                    proof {
                        let o = SweepOrder {
                            is_withdraw,
                            stake_account: acc.key,
                            validator: v.validator_account,
                            stake_index: idx,
                            amount,
                        };
                        let rest = spec_sweep_stakes(
                            sub.skip(idx as int + 1),
                            (idx + 1) as u32,
                            v.validator_account,
                            program_id@,
                            pool_key@,
                            stake_program_id@,
                            system_program_id@,
                            new_balance,
                            if occupied && nsc == idx {
                                (idx + 1) as u32
                            } else {
                                nsc
                            },
                        );
                        if rest is Ok {
                            assert(done + (seq![o] + rest->Ok_0.2) =~= (done + seq![o])
                                + rest->Ok_0.2);
                        }
                        assert(done.push(o) =~= done + seq![o]);
                        done = done.push(o);
                    }
                },
                None => {
                    proof {
                        let rest = spec_sweep_stakes(
                            sub.skip(idx as int + 1),
                            (idx + 1) as u32,
                            v.validator_account,
                            program_id@,
                            pool_key@,
                            stake_program_id@,
                            system_program_id@,
                            new_balance,
                            if occupied && nsc == idx {
                                (idx + 1) as u32
                            } else {
                                nsc
                            },
                        );
                        if rest is Ok {
                            assert(done + (Seq::<SweepOrder>::empty() + rest->Ok_0.2) =~= done
                                + rest->Ok_0.2);
                        }
                    }
                },
            }
            balance = new_balance;
            if occupied && nsc == idx {
                nsc = idx + 1;
            }
            idx = idx + 1;
        }
        proof {
            assert(sub.skip(count as int).len() == 0);
        }
        Ok((balance, nsc))
    }

    /// Processes `UpdateListBalance`: walks the caller-supplied run of
    /// validator and stake sub-account references, sweeps stray and
    /// excess funds back to the reserve, and rebuilds each named
    /// validator's cached balance, slot count and epoch stamp. Returns
    /// the sweeps to perform and whether the list must be written back.
    pub fn process_update_list_balance(
        program_id: &Address,
        stake_pool_account: &AccountView,
        validator_stake_list_key: &Address,
        withdraw_key: &Address,
        reserve_key: &Address,
        stake_program_id: &Address,
        system_program_id: &Address,
        epoch: u64,
        accounts: &Vec<UpdateAccountView>,
        stake_pool: &StakePool,
        validator_stake_list: &mut ValidatorStakeList,
    ) -> (r: Result<(Vec<SweepAction>, bool), StakePoolError>)
        ensures
            ({
                let checks = spec_update_list_balance_checks(
                    program_id@,
                    *stake_pool_account,
                    validator_stake_list_key@,
                    withdraw_key@,
                    reserve_key@,
                    *stake_pool,
                    *old(validator_stake_list),
                );
                let walk = spec_update_list_walk(
                    accounts@,
                    old(validator_stake_list).validators@,
                    program_id@,
                    stake_pool_account.key@,
                    stake_program_id@,
                    system_program_id@,
                    epoch,
                );
                match r {
                    Ok((actions, changed)) => {
                        &&& checks is None
                        &&& walk is Ok
                        &&& final(validator_stake_list).version == old(
                            validator_stake_list,
                        ).version
                        &&& final(validator_stake_list).validators@ == walk->Ok_0.0
                        &&& changed == (accounts@.len() > 0)
                        &&& actions@.len() == walk->Ok_0.1.len()
                        &&& forall|k: int|
                            0 <= k < actions@.len() ==> spec_action_matches_order(
                                actions@[k],
                                walk->Ok_0.1[k],
                                stake_pool_account.key@,
                                program_id@,
                            )
                    },
                    Err(e) => {
                        &&& *final(validator_stake_list) == *old(validator_stake_list)
                        &&& {
                            ||| checks == Some(e)
                            ||| (checks is None && walk == Err::<
                                (Seq<ValidatorStakeInfo>, Seq<SweepOrder>),
                                StakePoolError,
                            >(e))
                        }
                    },
                }
            }),
    {
        if !stake_pool_account.owner.eq_key(program_id) {
            return Err(StakePoolError::WrongOwner);
        }
        if !stake_pool.is_initialized() {
            return Err(StakePoolError::InvalidState);
        }
        if !validator_stake_list_key.eq_key(&stake_pool.validator_stake_list) {
            return Err(StakePoolError::InvalidValidatorStakeList);
        }
        if !validator_stake_list.is_initialized() {
            return Err(StakePoolError::InvalidState);
        }
        match stake_pool.check_authority_withdraw(
            withdraw_key,
            program_id,
            &stake_pool_account.key,
        ) {
            Ok(()) => {},
            Err(e) => {
                return Err(e);
            },
        }
        let reserve_base = Ghost(
            spec_authority_seeds(stake_pool_account.key@, spec_authority_reserve()),
        );
        let (reserve_address, _reserve_bump) = match Self::get_reserve_adderess(
            program_id,
            &stake_pool_account.key,
        ) {
            Ok(p) => p,
            Err(e) => {
                return Err(e);
            },
        };
        if !reserve_key.eq_key(&reserve_address) {
            proof {
                assert(spec_pda_found(reserve_base@, program_id@, reserve_address@, _reserve_bump));
                assert(!spec_pda_none(reserve_base@, program_id@));
                if spec_pda_matches(reserve_base@, program_id@, reserve_key@) {
                    let b2 = choose|b: u8|
                        spec_pda_found(reserve_base@, program_id@, reserve_key@, b);
                    lemma_pda_found_unique(
                        reserve_base@,
                        program_id@,
                        reserve_address@,
                        _reserve_bump,
                        reserve_key@,
                        b2,
                    );
                }
                assert(!spec_pda_matches(reserve_base@, program_id@, reserve_key@));
            }
            return Err(StakePoolError::InvalidArgument);
        }
        proof {
            assert(spec_pda_found(reserve_base@, program_id@, reserve_key@, _reserve_bump));
            assert(spec_pda_matches(reserve_base@, program_id@, reserve_key@));
        }
        let alen = accounts.len();
        let vlen = validator_stake_list.validators.len();
        let mut work: Vec<ValidatorStakeInfo> = Vec::new();
        let mut j: usize = 0;
        while j < vlen
            invariant
                vlen == validator_stake_list.validators@.len(),
                j <= vlen,
                work@ == validator_stake_list.validators@.subrange(0, j as int),
                *validator_stake_list == *old(validator_stake_list),
            decreases vlen - j,
        {
            work.push(validator_stake_list.validators[j]);
            proof {
                assert(work@ =~= validator_stake_list.validators@.subrange(0, j as int + 1));
            }
            j += 1;
        }
        proof {
            assert(work@ =~= validator_stake_list.validators@);
            assert(accounts@.skip(0) =~= accounts@);
        }
        let mut actions: Vec<SweepAction> = Vec::new();
        let ghost mut done: Seq<SweepOrder> = Seq::empty();
        let mut c: usize = 0;
        while c < alen
            invariant
                alen == accounts@.len(),
                c <= alen,
                *validator_stake_list == *old(validator_stake_list),
                spec_update_list_balance_checks(
                    program_id@,
                    *stake_pool_account,
                    validator_stake_list_key@,
                    withdraw_key@,
                    reserve_key@,
                    *stake_pool,
                    *old(validator_stake_list),
                ) is None,
                actions@.len() == done.len(),
                forall|k: int|
                    0 <= k < done.len() ==> spec_action_matches_order(
                        actions@[k],
                        done[k],
                        stake_pool_account.key@,
                        program_id@,
                    ),
                spec_update_list_walk(
                    accounts@,
                    old(validator_stake_list).validators@,
                    program_id@,
                    stake_pool_account.key@,
                    stake_program_id@,
                    system_program_id@,
                    epoch,
                ) == spec_prepend_walk(
                    done,
                    spec_update_list_walk(
                        accounts@.skip(c as int),
                        work@,
                        program_id@,
                        stake_pool_account.key@,
                        stake_program_id@,
                        system_program_id@,
                        epoch,
                    ),
                ),
            decreases alen - c,
        {
            proof {
                assert(accounts@.skip(c as int)[0] == accounts@[c as int]);
            }
            let vacc = accounts[c];
            let vi = match crate::state::find_validator_index(&work, &vacc.key) {
                Some(vi) => vi,
                None => {
                    return Err(StakePoolError::ValidatorNotFound);
                },
            };
            proof {
                crate::state::lemma_find_validator(work@, vacc.key@);
            }
            let v = work[vi];
            let count = v.stake_count;
            if ((alen - c) as u64) < 1 + (count as u64) {
                return Err(StakePoolError::NotEnoughAccountKeys);
            }
            proof {
                assert(accounts@.skip(c as int).subrange(1, 1 + count as int) =~= accounts@.subrange(
                    c + 1,
                    c + 1 + count as int,
                ));
                assert(accounts@.skip(c as int).skip(1 + count as int) =~= accounts@.skip(
                    c + 1 + count as int,
                ));
            }
            let (balance, nsc) = match Self::sweep_validator_stakes(
                accounts,
                c + 1,
                count,
                &v,
                program_id,
                &stake_pool_account.key,
                stake_program_id,
                system_program_id,
                &mut actions,
            ) {
                Ok(p) => p,
                Err(e) => {
                    return Err(e);
                },
            };
            let ghost orders = spec_sweep_stakes(
                accounts@.subrange(c + 1, c + 1 + count as int),
                0,
                v.validator_account,
                program_id@,
                stake_pool_account.key@,
                stake_program_id@,
                system_program_id@,
                0,
                0,
            )->Ok_0.2;
            let v2 = ValidatorStakeInfo {
                validator_account: v.validator_account,
                balance,
                last_update_epoch: epoch,
                stake_count: nsc,
            };
            work[vi] = v2;
            proof {
                let rest = spec_update_list_walk(
                    accounts@.skip(c + 1 + count as int),
                    work@,
                    program_id@,
                    stake_pool_account.key@,
                    stake_program_id@,
                    system_program_id@,
                    epoch,
                );
                if rest is Ok {
                    assert(done + (orders + rest->Ok_0.1) =~= (done + orders) + rest->Ok_0.1);
                }
                done = done + orders;
            }
            c = c + 1 + (count as usize);
        }
        proof {
            assert(accounts@.skip(alen as int).len() == 0);
            assert(done + Seq::<SweepOrder>::empty() =~= done);
        }
        validator_stake_list.validators = work;
        let changed = alen > 0;
        Ok((actions, changed))
    }

    /// Processes `DelegateReserve`: spends the reserve's balance above
    /// its rent floor into validator stake sub-accounts, slot by slot,
    /// creating a sub-account where the slot is still empty and topping
    /// it up where it exists, while keeping the slots densely packed.
    pub fn process_delegate_reserve(
        program_id: &Address,
        stake_pool_account: &AccountView,
        validator_stake_list_key: &Address,
        withdraw_key: &Address,
        deposit_key: &Address,
        reserve_account: &AccountView,
        system_program_id: &Address,
        rent_exempt_zero: u64,
        instructions: &Vec<crate::instruction::DelegateReserveInstruction>,
        stake_pairs: &Vec<(Address, AccountView)>,
        stake_pool: &mut StakePool,
        validator_stake_list: &mut ValidatorStakeList,
    ) -> (r: Result<DelegateOutcome, StakePoolError>)
        ensures
            ({
                let checks = spec_delegate_reserve_checks(
                    program_id@,
                    *stake_pool_account,
                    validator_stake_list_key@,
                    withdraw_key@,
                    deposit_key@,
                    *reserve_account,
                    rent_exempt_zero,
                    *old(stake_pool),
                    *old(validator_stake_list),
                );
                let available = (reserve_account.lamports - rent_exempt_zero) as u64;
                let walk = spec_delegate_walk(
                    instructions@,
                    stake_pairs@,
                    old(validator_stake_list).validators@,
                    0,
                    available,
                    program_id@,
                    stake_pool_account.key@,
                    system_program_id@,
                );
                let reserve_base = spec_authority_seeds(
                    stake_pool_account.key@,
                    spec_authority_reserve(),
                );
                match r {
                    Ok(out) => {
                        &&& checks is None
                        &&& walk is Ok
                        &&& final(validator_stake_list).version == old(
                            validator_stake_list,
                        ).version
                        &&& final(validator_stake_list).validators@ == walk->Ok_0.0
                        &&& out.total_amount == walk->Ok_0.1
                        &&& old(stake_pool).stake_total + out.total_amount <= u64::MAX
                        &&& *final(stake_pool) == StakePool {
                            stake_total: (old(stake_pool).stake_total + out.total_amount) as u64,
                            ..*old(stake_pool)
                        }
                        &&& spec_pda_found(
                            reserve_base,
                            program_id@,
                            reserve_account.key@,
                            out.reserve_bump,
                        )
                        &&& out.actions@.len() == instructions@.len()
                        &&& forall|i: int|
                            0 <= i < instructions@.len() ==> spec_delegate_action_ok(
                                out.actions@[i],
                                instructions@[i],
                                stake_pairs@[i],
                                program_id@,
                                stake_pool_account.key@,
                                system_program_id@,
                            )
                    },
                    Err(e) => {
                        &&& *final(stake_pool) == *old(stake_pool)
                        &&& *final(validator_stake_list) == *old(validator_stake_list)
                        &&& {
                            ||| checks == Some(e)
                            ||| (checks is None && walk == Err::<
                                (Seq<ValidatorStakeInfo>, u64),
                                StakePoolError,
                            >(e))
                            ||| (checks is None && walk is Ok && e
                                == StakePoolError::CalculationFailure && old(
                                stake_pool,
                            ).stake_total + walk->Ok_0.1 > u64::MAX)
                        }
                    },
                }
            }),
    {
        if !stake_pool_account.owner.eq_key(program_id) {
            return Err(StakePoolError::WrongOwner);
        }
        if !stake_pool.is_initialized() {
            return Err(StakePoolError::InvalidState);
        }
        if !validator_stake_list_key.eq_key(&stake_pool.validator_stake_list) {
            return Err(StakePoolError::InvalidValidatorStakeList);
        }
        if !validator_stake_list.is_initialized() {
            return Err(StakePoolError::InvalidState);
        }
        match stake_pool.check_authority_deposit(deposit_key, program_id, &stake_pool_account.key) {
            Ok(()) => {},
            Err(e) => {
                return Err(e);
            },
        }
        match stake_pool.check_authority_withdraw(
            withdraw_key,
            program_id,
            &stake_pool_account.key,
        ) {
            Ok(()) => {},
            Err(e) => {
                return Err(e);
            },
        }
        let reserve_base = Ghost(
            spec_authority_seeds(stake_pool_account.key@, spec_authority_reserve()),
        );
        let (reserve_address, reserve_bump) = match Self::get_reserve_adderess(
            program_id,
            &stake_pool_account.key,
        ) {
            Ok(p) => p,
            Err(e) => {
                return Err(e);
            },
        };
        if !reserve_account.key.eq_key(&reserve_address) {
            proof {
                assert(spec_pda_found(reserve_base@, program_id@, reserve_address@, reserve_bump));
                assert(!spec_pda_none(reserve_base@, program_id@));
                if spec_pda_matches(reserve_base@, program_id@, reserve_account.key@) {
                    let b2 = choose|b: u8|
                        spec_pda_found(reserve_base@, program_id@, reserve_account.key@, b);
                    lemma_pda_found_unique(
                        reserve_base@,
                        program_id@,
                        reserve_address@,
                        reserve_bump,
                        reserve_account.key@,
                        b2,
                    );
                }
                assert(!spec_pda_matches(reserve_base@, program_id@, reserve_account.key@));
            }
            return Err(StakePoolError::InvalidArgument);
        }
        proof {
            assert(spec_pda_found(reserve_base@, program_id@, reserve_account.key@, reserve_bump));
            assert(!spec_pda_none(reserve_base@, program_id@));
            assert(spec_pda_matches(reserve_base@, program_id@, reserve_account.key@));
        }
        let lamports_available = match reserve_account.lamports.checked_sub(rent_exempt_zero) {
            Some(a) => a,
            None => {
                return Err(StakePoolError::CalculationFailure);
            },
        };
        let n = instructions.len();
        let vlen = validator_stake_list.validators.len();
        let mut work: Vec<ValidatorStakeInfo> = Vec::new();
        let mut j: usize = 0;
        while j < vlen
            invariant
                vlen == validator_stake_list.validators@.len(),
                j <= vlen,
                work@ == validator_stake_list.validators@.subrange(0, j as int),
                *validator_stake_list == *old(validator_stake_list),
            decreases vlen - j,
        {
            work.push(validator_stake_list.validators[j]);
            proof {
                assert(work@ =~= validator_stake_list.validators@.subrange(0, j as int + 1));
            }
            j += 1;
        }
        proof {
            assert(work@ =~= validator_stake_list.validators@);
            assert(instructions@.skip(0) =~= instructions@);
            assert(stake_pairs@.skip(0) =~= stake_pairs@);
        }
        let mut actions: Vec<DelegateAction> = Vec::new();
        let mut total_amount: u64 = 0;
        let mut i: usize = 0;
        while i < n
            invariant
                n == instructions@.len(),
                i <= n,
                i <= stake_pairs@.len(),
                actions@.len() == i,
                forall|k: int|
                    0 <= k < i ==> spec_delegate_action_ok(
                        actions@[k],
                        instructions@[k],
                        stake_pairs@[k],
                        program_id@,
                        stake_pool_account.key@,
                        system_program_id@,
                    ),
                *stake_pool == *old(stake_pool),
                *validator_stake_list == *old(validator_stake_list),
                spec_delegate_reserve_checks(
                    program_id@,
                    *stake_pool_account,
                    validator_stake_list_key@,
                    withdraw_key@,
                    deposit_key@,
                    *reserve_account,
                    rent_exempt_zero,
                    *old(stake_pool),
                    *old(validator_stake_list),
                ) is None,
                spec_pda_found(
                    spec_authority_seeds(stake_pool_account.key@, spec_authority_reserve()),
                    program_id@,
                    reserve_account.key@,
                    reserve_bump,
                ),
                lamports_available == reserve_account.lamports - rent_exempt_zero,
                spec_delegate_walk(
                    instructions@,
                    stake_pairs@,
                    old(validator_stake_list).validators@,
                    0,
                    lamports_available,
                    program_id@,
                    stake_pool_account.key@,
                    system_program_id@,
                ) == spec_delegate_walk(
                    instructions@.skip(i as int),
                    stake_pairs@.skip(i as int),
                    work@,
                    total_amount,
                    lamports_available,
                    program_id@,
                    stake_pool_account.key@,
                    system_program_id@,
                ),
            decreases n - i,
        {
            proof {
                assert(instructions@.skip(i as int)[0] == instructions@[i as int]);
                assert(instructions@.skip(i as int).skip(1) =~= instructions@.skip(i as int + 1));
            }
            if i >= stake_pairs.len() {
                proof {
                    assert(stake_pairs@.skip(i as int).len() == 0);
                }
                return Err(StakePoolError::NotEnoughAccountKeys);
            }
            proof {
                assert(stake_pairs@.skip(i as int)[0] == stake_pairs@[i as int]);
                assert(stake_pairs@.skip(i as int).skip(1) =~= stake_pairs@.skip(i as int + 1));
            }
            let ins = &instructions[i];
            let pair = stake_pairs[i];
            let vi = match crate::state::find_validator_index(&work, &pair.0) {
                Some(vi) => vi,
                None => {
                    return Err(StakePoolError::ValidatorNotFound);
                },
            };
            proof {
                crate::state::lemma_find_validator(work@, pair.0@);
            }
            let new_total = match total_amount.checked_add(ins.amount) {
                Some(t) => t,
                None => {
                    return Err(StakePoolError::CalculationFailure);
                },
            };
            if new_total > lamports_available {
                return Err(StakePoolError::InsufficientFunds);
            }
            let v = work[vi];
            if ins.stake_index > v.stake_count {
                return Err(StakePoolError::InvalidStakeIndex);
            }
            let sseeds = Ghost(
                spec_stake_address_seeds(v.validator_account@, stake_pool_account.key@, ins.stake_index),
            );
            let stake_bump = match v.check_validator_stake_address(
                program_id,
                &stake_pool_account.key,
                ins.stake_index,
                &pair.1.key,
            ) {
                Ok(b) => b,
                Err(e) => {
                    proof {
                        if e == StakePoolError::InvalidStakeAccountAddress {
                            lemma_pda_differs_not_matches(sseeds@, program_id@, pair.1.key@);
                        }
                    }
                    return Err(e);
                },
            };
            proof {
                assert(spec_pda_found(sseeds@, program_id@, pair.1.key@, stake_bump));
                assert(!spec_pda_none(sseeds@, program_id@));
                assert(spec_pda_matches(sseeds@, program_id@, pair.1.key@));
            }
            if pair.1.owner.eq_key(system_program_id) {
                if ins.amount < MIN_STAKE_ACCOUNT_BALANCE {
                    return Err(StakePoolError::InsufficientFunds);
                }
                actions.push(
                    DelegateAction::InitStake {
                        validator: pair.0,
                        stake_account: pair.1.key,
                        stake_index: ins.stake_index,
                        stake_bump,
                        amount: ins.amount,
                    },
                );
            } else {
                actions.push(
                    DelegateAction::Redelegate {
                        validator: pair.0,
                        stake_account: pair.1.key,
                        stake_index: ins.stake_index,
                        amount: ins.amount,
                    },
                );
            }
            let new_balance = match v.balance.checked_add(ins.amount) {
                Some(b) => b,
                None => {
                    return Err(StakePoolError::CalculationFailure);
                },
            };
            let mut v2 = v;
            v2.balance = new_balance;
            if ins.stake_index >= v.stake_count {
                let new_count = match ins.stake_index.checked_add(1) {
                    Some(c) => c,
                    None => {
                        return Err(StakePoolError::CalculationFailure);
                    },
                };
                v2.stake_count = new_count;
            }
            work[vi] = v2;
            total_amount = new_total;
            i += 1;
        }
        proof {
            assert(instructions@.skip(n as int).len() == 0);
        }
        let new_stake_total = match stake_pool.stake_total.checked_add(total_amount) {
            Some(t) => t,
            None => {
                return Err(StakePoolError::CalculationFailure);
            },
        };
        validator_stake_list.validators = work;
        stake_pool.stake_total = new_stake_total;
        Ok(DelegateOutcome { actions, reserve_bump, total_amount })
    }

    /// Processes `MergeStakes`: folds source stake sub-accounts into
    /// target ones, keeping each record's slot packing dense by dropping
    /// the top slot exactly when it was the one drained. The returned
    /// actions are the merges the host shell performs; the flag says
    /// whether the list must be written back.
    pub fn process_merge_stakes(
        program_id: &Address,
        stake_pool_account: &AccountView,
        validator_stake_list_key: &Address,
        deposit_key: &Address,
        instructions: &Vec<crate::instruction::MergeStakesInstruction>,
        stake_pairs: &Vec<(Address, Address)>,
        stake_pool: &StakePool,
        validator_stake_list: &mut ValidatorStakeList,
    ) -> (r: Result<(Vec<MergeAction>, bool), StakePoolError>)
        ensures
            ({
                let checks = spec_merge_stakes_checks(
                    program_id@,
                    *stake_pool_account,
                    validator_stake_list_key@,
                    deposit_key@,
                    *stake_pool,
                    *old(validator_stake_list),
                );
                let walk = spec_merge_stakes_walk(
                    instructions@,
                    stake_pairs@,
                    old(validator_stake_list).validators@,
                    false,
                );
                match r {
                    Ok((actions, changed)) => {
                        &&& checks is None
                        &&& walk is Ok
                        &&& final(validator_stake_list).version == old(
                            validator_stake_list,
                        ).version
                        &&& final(validator_stake_list).validators@ == walk->Ok_0.0
                        &&& changed == walk->Ok_0.1
                        &&& actions@.len() == instructions@.len()
                        &&& forall|i: int|
                            0 <= i < actions@.len() ==> actions@[i] == (MergeAction {
                                main_stake: stake_pairs@[i].0,
                                additional_stake: stake_pairs@[i].1,
                            })
                    },
                    Err(e) => {
                        &&& *final(validator_stake_list) == *old(validator_stake_list)
                        &&& {
                            ||| checks == Some(e)
                            ||| (checks is None && walk == Err::<
                                (Seq<ValidatorStakeInfo>, bool),
                                StakePoolError,
                            >(e))
                        }
                    },
                }
            }),
    {
        if !stake_pool_account.owner.eq_key(program_id) {
            return Err(StakePoolError::WrongOwner);
        }
        if !stake_pool.is_initialized() {
            return Err(StakePoolError::InvalidState);
        }
        if !validator_stake_list_key.eq_key(&stake_pool.validator_stake_list) {
            return Err(StakePoolError::InvalidValidatorStakeList);
        }
        if !validator_stake_list.is_initialized() {
            return Err(StakePoolError::InvalidState);
        }
        let tag = Self::authority_deposit();
        match Self::check_authority(
            deposit_key,
            program_id,
            &stake_pool_account.key,
            &tag,
            stake_pool.deposit_bump_seed,
        ) {
            Ok(()) => {},
            Err(e) => {
                return Err(e);
            },
        }
        let n = instructions.len();
        let vlen = validator_stake_list.validators.len();
        let mut work: Vec<ValidatorStakeInfo> = Vec::new();
        let mut j: usize = 0;
        while j < vlen
            invariant
                vlen == validator_stake_list.validators@.len(),
                j <= vlen,
                work@ == validator_stake_list.validators@.subrange(0, j as int),
                *validator_stake_list == *old(validator_stake_list),
            decreases vlen - j,
        {
            work.push(validator_stake_list.validators[j]);
            proof {
                assert(work@ =~= validator_stake_list.validators@.subrange(0, j as int + 1));
            }
            j += 1;
        }
        proof {
            assert(work@ =~= validator_stake_list.validators@);
        }
        let mut actions: Vec<MergeAction> = Vec::new();
        let mut changed = false;
        let mut i: usize = 0;
        proof {
            assert(instructions@.skip(0) =~= instructions@);
            assert(stake_pairs@.skip(0) =~= stake_pairs@);
        }
        while i < n
            invariant
                n == instructions@.len(),
                i <= n,
                i <= stake_pairs@.len(),
                actions@.len() == i,
                forall|k: int|
                    0 <= k < i ==> actions@[k] == (MergeAction {
                        main_stake: stake_pairs@[k].0,
                        additional_stake: stake_pairs@[k].1,
                    }),
                *validator_stake_list == *old(validator_stake_list),
                spec_merge_stakes_checks(
                    program_id@,
                    *stake_pool_account,
                    validator_stake_list_key@,
                    deposit_key@,
                    *stake_pool,
                    *old(validator_stake_list),
                ) is None,
                spec_merge_stakes_walk(
                    instructions@,
                    stake_pairs@,
                    old(validator_stake_list).validators@,
                    false,
                ) == spec_merge_stakes_walk(
                    instructions@.skip(i as int),
                    stake_pairs@.skip(i as int),
                    work@,
                    changed,
                ),
            decreases n - i,
        {
            proof {
                assert(instructions@.skip(i as int)[0] == instructions@[i as int]);
                assert(instructions@.skip(i as int).skip(1) =~= instructions@.skip(i as int + 1));
            }
            if i >= stake_pairs.len() {
                proof {
                    assert(stake_pairs@.skip(i as int).len() == 0);
                }
                return Err(StakePoolError::NotEnoughAccountKeys);
            }
            proof {
                assert(stake_pairs@.skip(i as int)[0] == stake_pairs@[i as int]);
                assert(stake_pairs@.skip(i as int).skip(1) =~= stake_pairs@.skip(i as int + 1));
            }
            let ins = &instructions[i];
            let vi = match crate::state::find_validator_index(&work, &ins.validator_address) {
                Some(vi) => vi,
                None => {
                    return Err(StakePoolError::ValidatorNotFound);
                },
            };
            proof {
                crate::state::lemma_find_validator(work@, ins.validator_address@);
            }
            let v = work[vi];
            if ins.main_index >= v.stake_count || ins.additional_index >= v.stake_count
                || ins.main_index >= ins.additional_index {
                return Err(StakePoolError::InvalidStakeIndex);
            }
            if ins.additional_index + 1 == v.stake_count {
                let mut v2 = v;
                v2.stake_count = v.stake_count - 1;
                work[vi] = v2;
                changed = true;
            } else {
                proof {
                    assert(work@.update(vi as int, v) =~= work@);
                }
            }
            let pair = stake_pairs[i];
            actions.push(MergeAction { main_stake: pair.0, additional_stake: pair.1 });
            i += 1;
        }
        proof {
            assert(instructions@.skip(n as int).len() == 0);
        }
        validator_stake_list.validators = work;
        Ok((actions, changed))
    }

    /// Processes `AddValidator`: admits a new validator to the list with
    /// a zeroed record stamped with the current epoch.
    pub fn process_add_validator(
        program_id: &Address,
        stake_pool_account: &AccountView,
        owner_account: &AccountView,
        validator_stake_list_key: &Address,
        validator_key: &Address,
        epoch: u64,
        stake_pool: &StakePool,
        validator_stake_list: &mut ValidatorStakeList,
    ) -> (r: Result<(), StakePoolError>)
        ensures
            match r {
                Ok(()) => {
                    &&& spec_add_validator_checks(
                        program_id@,
                        *stake_pool_account,
                        *owner_account,
                        validator_stake_list_key@,
                        validator_key@,
                        epoch,
                        *stake_pool,
                        *old(validator_stake_list),
                    ) is None
                    &&& final(validator_stake_list).version == old(validator_stake_list).version
                    &&& final(validator_stake_list).validators@ == old(
                        validator_stake_list,
                    ).validators@.push(
                        ValidatorStakeInfo {
                            validator_account: *validator_key,
                            balance: 0,
                            last_update_epoch: epoch,
                            stake_count: 0,
                        },
                    )
                },
                Err(e) => {
                    &&& spec_add_validator_checks(
                        program_id@,
                        *stake_pool_account,
                        *owner_account,
                        validator_stake_list_key@,
                        validator_key@,
                        epoch,
                        *stake_pool,
                        *old(validator_stake_list),
                    ) == Some(e)
                    &&& *final(validator_stake_list) == *old(validator_stake_list)
                },
            },
    {
        if !stake_pool_account.owner.eq_key(program_id) {
            return Err(StakePoolError::WrongOwner);
        }
        if !stake_pool.is_initialized() {
            return Err(StakePoolError::InvalidState);
        }
        match stake_pool.check_owner(owner_account) {
            Ok(()) => {},
            Err(e) => {
                return Err(e);
            },
        }
        if stake_pool.last_update_epoch < epoch {
            return Err(StakePoolError::StakeListAndPoolOutOfDate);
        }
        if !validator_stake_list_key.eq_key(&stake_pool.validator_stake_list) {
            return Err(StakePoolError::InvalidValidatorStakeList);
        }
        if !validator_stake_list.is_initialized() {
            return Err(StakePoolError::InvalidState);
        }
        if validator_stake_list.validators.len() >= MAX_VALIDATORS {
            return Err(StakePoolError::ValidatorListOverflow);
        }
        if validator_stake_list.contains(validator_key) {
            return Err(StakePoolError::ValidatorAlreadyAdded);
        }
        validator_stake_list.validators.push(
            ValidatorStakeInfo {
                validator_account: *validator_key,
                balance: 0,
                last_update_epoch: epoch,
                stake_count: 0,
            },
        );
        Ok(())
    }

    /// Processes `RemoveValidator`: drops a validator's record, refusing
    /// while it still owns stake sub-accounts.
    pub fn process_remove_validator(
        program_id: &Address,
        stake_pool_account: &AccountView,
        owner_account: &AccountView,
        validator_stake_list_key: &Address,
        validator_key: &Address,
        epoch: u64,
        stake_pool: &StakePool,
        validator_stake_list: &mut ValidatorStakeList,
    ) -> (r: Result<(), StakePoolError>)
        ensures
            match r {
                Ok(()) => {
                    &&& spec_remove_validator_checks(
                        program_id@,
                        *stake_pool_account,
                        *owner_account,
                        validator_stake_list_key@,
                        validator_key@,
                        epoch,
                        *stake_pool,
                        *old(validator_stake_list),
                    ) is None
                    &&& spec_find_validator(
                        old(validator_stake_list).validators@,
                        validator_key@,
                    ) is Some
                    &&& final(validator_stake_list).version == old(validator_stake_list).version
                    &&& final(validator_stake_list).validators@ == old(
                        validator_stake_list,
                    ).validators@.remove(
                        spec_find_validator(
                            old(validator_stake_list).validators@,
                            validator_key@,
                        )->Some_0,
                    )
                },
                Err(e) => {
                    &&& spec_remove_validator_checks(
                        program_id@,
                        *stake_pool_account,
                        *owner_account,
                        validator_stake_list_key@,
                        validator_key@,
                        epoch,
                        *stake_pool,
                        *old(validator_stake_list),
                    ) == Some(e)
                    &&& *final(validator_stake_list) == *old(validator_stake_list)
                },
            },
    {
        if !stake_pool_account.owner.eq_key(program_id) {
            return Err(StakePoolError::WrongOwner);
        }
        if !stake_pool.is_initialized() {
            return Err(StakePoolError::InvalidState);
        }
        match stake_pool.check_owner(owner_account) {
            Ok(()) => {},
            Err(e) => {
                return Err(e);
            },
        }
        if stake_pool.last_update_epoch < epoch {
            return Err(StakePoolError::StakeListAndPoolOutOfDate);
        }
        if !validator_stake_list_key.eq_key(&stake_pool.validator_stake_list) {
            return Err(StakePoolError::InvalidValidatorStakeList);
        }
        if !validator_stake_list.is_initialized() {
            return Err(StakePoolError::InvalidState);
        }
        match validator_stake_list.find_index(validator_key) {
            Some(index) => {
                proof {
                    crate::state::lemma_find_validator(
                        validator_stake_list.validators@,
                        validator_key@,
                    );
                }
                if validator_stake_list.validators[index].stake_count > 0 {
                    return Err(StakePoolError::ValidatorHasStakes);
                }
                validator_stake_list.validators.remove(index);
                Ok(())
            },
            None => Err(StakePoolError::ValidatorNotFound),
        }
    }

    /// Processes `UpdatePoolBalance`: re-aggregates `stake_total` as the
    /// reserve's live balance plus every validator's cached balance, but
    /// only while no validator record is older than the current epoch.
    pub fn process_update_pool_balance(
        program_id: &Address,
        stake_pool_account: &AccountView,
        validator_stake_list_key: &Address,
        reserve_key: &Address,
        reserve_lamports: u64,
        epoch: u64,
        stake_pool: &mut StakePool,
        validator_stake_list: &ValidatorStakeList,
    ) -> (r: Result<(), StakePoolError>)
        ensures
            ({
                let checks = spec_update_pool_balance_checks(
                    program_id@,
                    *stake_pool_account,
                    validator_stake_list_key@,
                    *old(stake_pool),
                    *validator_stake_list,
                );
                let reserve_base = spec_authority_seeds(
                    stake_pool_account.key@,
                    spec_authority_reserve(),
                );
                match r {
                    Ok(()) => {
                        &&& checks is None
                        &&& spec_pda_matches(reserve_base, program_id@, reserve_key@)
                        &&& spec_update_total(
                            validator_stake_list.validators@,
                            reserve_lamports,
                            epoch,
                        ) is Ok
                        &&& *final(stake_pool) == StakePool {
                            stake_total: spec_update_total(
                                validator_stake_list.validators@,
                                reserve_lamports,
                                epoch,
                            )->Ok_0,
                            last_update_epoch: epoch,
                            ..*old(stake_pool)
                        }
                    },
                    Err(e) => {
                        &&& *final(stake_pool) == *old(stake_pool)
                        &&& {
                            ||| checks == Some(e)
                            ||| (checks is None && e == StakePoolError::InvalidProgramAddress
                                && spec_pda_none(reserve_base, program_id@))
                            ||| (checks is None && e == StakePoolError::InvalidArgument
                                && !spec_pda_none(reserve_base, program_id@) && !spec_pda_matches(
                                reserve_base,
                                program_id@,
                                reserve_key@,
                            ))
                            ||| (checks is None && spec_pda_matches(
                                reserve_base,
                                program_id@,
                                reserve_key@,
                            ) && spec_update_total(
                                validator_stake_list.validators@,
                                reserve_lamports,
                                epoch,
                            ) == Err::<u64, StakePoolError>(e))
                        }
                    },
                }
            }),
    {
        if !stake_pool_account.owner.eq_key(program_id) {
            return Err(StakePoolError::WrongOwner);
        }
        if !stake_pool.is_initialized() {
            return Err(StakePoolError::InvalidState);
        }
        if !validator_stake_list_key.eq_key(&stake_pool.validator_stake_list) {
            return Err(StakePoolError::InvalidValidatorStakeList);
        }
        if !validator_stake_list.is_initialized() {
            return Err(StakePoolError::InvalidState);
        }
        let (reserve_address, _reserve_bump) = match Self::get_reserve_adderess(
            program_id,
            &stake_pool_account.key,
        ) {
            Ok(p) => p,
            Err(e) => {
                return Err(e);
            },
        };
        if !reserve_key.eq_key(&reserve_address) {
            proof {
                let reserve_base = spec_authority_seeds(
                    stake_pool_account.key@,
                    spec_authority_reserve(),
                );
                assert(spec_pda_found(reserve_base, program_id@, reserve_address@, _reserve_bump));
                assert(!spec_pda_none(reserve_base, program_id@));
                if spec_pda_matches(reserve_base, program_id@, reserve_key@) {
                    let b2 = choose|b: u8|
                        spec_pda_found(reserve_base, program_id@, reserve_key@, b);
                    lemma_pda_found_unique(
                        reserve_base,
                        program_id@,
                        reserve_address@,
                        _reserve_bump,
                        reserve_key@,
                        b2,
                    );
                }
                assert(!spec_pda_matches(reserve_base, program_id@, reserve_key@));
            }
            return Err(StakePoolError::InvalidArgument);
        }
        proof {
            let reserve_base = spec_authority_seeds(
                stake_pool_account.key@,
                spec_authority_reserve(),
            );
            assert(spec_pda_found(reserve_base, program_id@, reserve_key@, _reserve_bump));
            assert(spec_pda_matches(reserve_base, program_id@, reserve_key@));
            assert(validator_stake_list.validators@.skip(0) =~= validator_stake_list.validators@);
        }
        let n = validator_stake_list.validators.len();
        let mut total_balance: u64 = reserve_lamports;
        let mut i: usize = 0;
        while i < n
            invariant
                n == validator_stake_list.validators@.len(),
                i <= n,
                *stake_pool == *old(stake_pool),
                spec_update_pool_balance_checks(
                    program_id@,
                    *stake_pool_account,
                    validator_stake_list_key@,
                    *old(stake_pool),
                    *validator_stake_list,
                ) is None,
                spec_pda_matches(
                    spec_authority_seeds(stake_pool_account.key@, spec_authority_reserve()),
                    program_id@,
                    reserve_key@,
                ),
                spec_update_total(validator_stake_list.validators@, reserve_lamports, epoch)
                    == spec_update_total(
                    validator_stake_list.validators@.skip(i as int),
                    total_balance,
                    epoch,
                ),
            decreases n - i,
        {
            let v = &validator_stake_list.validators[i];
            proof {
                assert(validator_stake_list.validators@.skip(i as int).len() == n - i);
                assert(validator_stake_list.validators@.skip(i as int)[0]
                    == validator_stake_list.validators@[i as int]);
                assert(validator_stake_list.validators@.skip(i as int).skip(1)
                    =~= validator_stake_list.validators@.skip(i as int + 1));
            }
            if v.last_update_epoch < epoch {
                proof {
                    assert(spec_update_total(
                        validator_stake_list.validators@.skip(i as int),
                        total_balance,
                        epoch,
                    ) == Err::<u64, StakePoolError>(StakePoolError::StakeListOutOfDate));
                }
                return Err(StakePoolError::StakeListOutOfDate);
            }
            total_balance = match total_balance.checked_add(v.balance) {
                Some(t) => t,
                None => {
                    proof {
                        assert(spec_update_total(
                            validator_stake_list.validators@.skip(i as int),
                            total_balance,
                            epoch,
                        ) == Err::<u64, StakePoolError>(StakePoolError::CalculationFailure));
                    }
                    return Err(StakePoolError::CalculationFailure);
                },
            };
            i += 1;
        }
        proof {
            assert(validator_stake_list.validators@.skip(n as int) =~= Seq::<
                ValidatorStakeInfo,
            >::empty());
        }
        stake_pool.stake_total = total_balance;
        stake_pool.last_update_epoch = epoch;
        Ok(())
    }

    /// Processes `SetOwner`: hands the pool to a new owner and fee
    /// account, after checking the new fee account holds the pool mint.
    pub fn process_set_owner(
        program_id: &Address,
        stake_pool_account: &AccountView,
        owner_account: &AccountView,
        new_owner_key: &Address,
        new_owner_fee_key: &Address,
        new_owner_fee_data: &[u8],
        stake_pool: &mut StakePool,
    ) -> (r: Result<(), StakePoolError>)
        ensures
            ({
                let checks = spec_set_owner_checks(
                    program_id@,
                    *stake_pool_account,
                    *owner_account,
                    new_owner_fee_data@,
                    *old(stake_pool),
                );
                match r {
                    Ok(()) => {
                        &&& checks is None
                        &&& *final(stake_pool) == StakePool {
                            owner: *new_owner_key,
                            owner_fee_account: *new_owner_fee_key,
                            ..*old(stake_pool)
                        }
                    },
                    Err(e) => checks == Some(e) && *final(stake_pool) == *old(stake_pool),
                }
            }),
    {
        if !stake_pool_account.owner.eq_key(program_id) {
            return Err(StakePoolError::WrongOwner);
        }
        if !stake_pool.is_initialized() {
            return Err(StakePoolError::InvalidState);
        }
        match stake_pool.check_owner(owner_account) {
            Ok(()) => {},
            Err(e) => {
                return Err(e);
            },
        }
        if new_owner_fee_data.len() < 165 {
            return Err(StakePoolError::InvalidAccountData);
        }
        let fee_view = match unpack_token_account(new_owner_fee_data) {
            Ok(v) => v,
            Err(e) => {
                return Err(e);
            },
        };
        if !stake_pool.pool_mint.eq_key(&fee_view.mint) {
            return Err(StakePoolError::WrongAccountMint);
        }
        stake_pool.owner = *new_owner_key;
        stake_pool.owner_fee_account = *new_owner_fee_key;
        Ok(())
    }

    /// Processes `Deposit`: prices `amount` of base currency into pool
    /// tokens at the current rate, splits off the owner's fee, and
    /// commits the new totals. The returned outcome carries the mint
    /// amounts and which transfer path the host must take.
    pub fn process_deposit(
        program_id: &Address,
        amount: u64,
        stake_pool_account: &AccountView,
        withdraw_key: &Address,
        reserve_account: &AccountView,
        owner_fee_key: &Address,
        token_program_key: &Address,
        source_system_owned: bool,
        wrapped_keys: Option<(Address, Address)>,
        native_mint: &Address,
        rent_exempt_zero: u64,
        stake_pool: &mut StakePool,
    ) -> (r: Result<DepositOutcome, StakePoolError>)
        ensures
            ({
                let s = spec_process_deposit(
                    program_id@,
                    amount,
                    *stake_pool_account,
                    withdraw_key@,
                    *reserve_account,
                    owner_fee_key@,
                    token_program_key@,
                    source_system_owned,
                    wrapped_keys,
                    native_mint@,
                    rent_exempt_zero,
                    *old(stake_pool),
                );
                let reserve_base = spec_authority_seeds(
                    stake_pool_account.key@,
                    spec_authority_reserve(),
                );
                let temp_base = spec_authority_seeds(
                    stake_pool_account.key@,
                    spec_temp_account(),
                );
                match r {
                    Ok(out) => {
                        &&& s is Ok
                        &&& *final(stake_pool) == s->Ok_0.0
                        &&& out.pool_amount == s->Ok_0.1
                        &&& out.fee_amount == s->Ok_0.2
                        &&& out.user_amount == s->Ok_0.3
                        &&& spec_pda_found(
                            reserve_base,
                            program_id@,
                            reserve_account.key@,
                            out.reserve_bump,
                        )
                        &&& match out.transfer {
                            DepositTransfer::WrappedToken { temp_bump } => {
                                &&& !source_system_owned
                                &&& wrapped_keys is Some
                                &&& spec_pda_found(
                                    temp_base,
                                    program_id@,
                                    wrapped_keys->Some_0.0@,
                                    temp_bump,
                                )
                            },
                            DepositTransfer::SystemTransfer => source_system_owned,
                        }
                    },
                    Err(e) => s == Err::<(StakePool, u64, u64, u64), StakePoolError>(e)
                        && *final(stake_pool) == *old(stake_pool),
                }
            }),
    {
        if !source_system_owned && wrapped_keys.is_none() {
            return Err(StakePoolError::NotEnoughAccountKeys);
        }
        if !stake_pool_account.owner.eq_key(program_id) {
            return Err(StakePoolError::WrongOwner);
        }
        if !stake_pool.is_initialized() {
            return Err(StakePoolError::InvalidState);
        }
        match stake_pool.check_authority_withdraw(
            withdraw_key,
            program_id,
            &stake_pool_account.key,
        ) {
            Ok(()) => {},
            Err(e) => {
                return Err(e);
            },
        }
        let reserve_base = Ghost(
            spec_authority_seeds(stake_pool_account.key@, spec_authority_reserve()),
        );
        let (expected_reserve, reserve_bump) = match Self::get_reserve_adderess(
            program_id,
            &stake_pool_account.key,
        ) {
            Ok(p) => p,
            Err(e) => {
                return Err(e);
            },
        };
        if !reserve_account.key.eq_key(&expected_reserve) {
            proof {
                assert(spec_pda_found(reserve_base@, program_id@, expected_reserve@, reserve_bump));
                assert(!spec_pda_none(reserve_base@, program_id@));
                if spec_pda_matches(reserve_base@, program_id@, reserve_account.key@) {
                    let b2 = choose|b: u8|
                        spec_pda_found(reserve_base@, program_id@, reserve_account.key@, b);
                    lemma_pda_found_unique(
                        reserve_base@,
                        program_id@,
                        expected_reserve@,
                        reserve_bump,
                        reserve_account.key@,
                        b2,
                    );
                }
                assert(!spec_pda_matches(reserve_base@, program_id@, reserve_account.key@));
            }
            return Err(StakePoolError::IncorrectProgramId);
        }
        proof {
            assert(spec_pda_found(reserve_base@, program_id@, reserve_account.key@, reserve_bump));
            assert(!spec_pda_none(reserve_base@, program_id@));
            assert(spec_pda_matches(reserve_base@, program_id@, reserve_account.key@));
        }
        if !stake_pool.owner_fee_account.eq_key(owner_fee_key) {
            return Err(StakePoolError::InvalidFeeAccount);
        }
        if !stake_pool.token_program_id.eq_key(token_program_key) {
            return Err(StakePoolError::IncorrectProgramId);
        }
        let target_balance = match reserve_account.lamports.checked_add(amount) {
            Some(t) => t,
            None => {
                return Err(StakePoolError::CalculationFailure);
            },
        };
        if target_balance < rent_exempt_zero {
            return Err(StakePoolError::FirstDepositIsTooSmall);
        }
        let pool_amount = match stake_pool.calc_pool_deposit_amount(amount) {
            Some(p) => p,
            None => {
                return Err(StakePoolError::CalculationFailure);
            },
        };
        let fee_amount = match stake_pool.calc_fee_amount(pool_amount) {
            Some(f) => f,
            None => {
                return Err(StakePoolError::CalculationFailure);
            },
        };
        let user_amount = match pool_amount.checked_sub(fee_amount) {
            Some(u) => u,
            None => {
                return Err(StakePoolError::CalculationFailure);
            },
        };
        let transfer: DepositTransfer;
        if !source_system_owned {
            let (temp_key, native_key) = match wrapped_keys {
                Some(p) => p,
                None => {
                    return Err(StakePoolError::NotEnoughAccountKeys);
                },
            };
            let temp_base = Ghost(
                spec_authority_seeds(stake_pool_account.key@, spec_temp_account()),
            );
            let tag = Self::temp_account();
            let (expected_temp, temp_bump) = match Self::find_authority_bump_seed(
                program_id,
                &stake_pool_account.key,
                &tag,
            ) {
                Ok(p) => p,
                Err(e) => {
                    return Err(e);
                },
            };
            if !temp_key.eq_key(&expected_temp) {
                proof {
                    assert(spec_pda_found(temp_base@, program_id@, expected_temp@, temp_bump));
                    assert(!spec_pda_none(temp_base@, program_id@));
                    if spec_pda_matches(temp_base@, program_id@, temp_key@) {
                        let b2 = choose|b: u8|
                            spec_pda_found(temp_base@, program_id@, temp_key@, b);
                        lemma_pda_found_unique(
                            temp_base@,
                            program_id@,
                            expected_temp@,
                            temp_bump,
                            temp_key@,
                            b2,
                        );
                    }
                    assert(!spec_pda_matches(temp_base@, program_id@, temp_key@));
                }
                return Err(StakePoolError::InvalidArgument);
            }
            if !native_key.eq_key(native_mint) {
                return Err(StakePoolError::InvalidArgument);
            }
            proof {
                assert(spec_pda_found(temp_base@, program_id@, temp_key@, temp_bump));
                assert(!spec_pda_none(temp_base@, program_id@));
                assert(spec_pda_matches(temp_base@, program_id@, temp_key@));
            }
            transfer = DepositTransfer::WrappedToken { temp_bump };
        } else {
            if target_balance < MIN_RESERVE_BALANCE {
                return Err(StakePoolError::FirstDepositIsTooSmall);
            }
            transfer = DepositTransfer::SystemTransfer;
        }
        let new_pool_total = match stake_pool.pool_total.checked_add(pool_amount) {
            Some(t) => t,
            None => {
                return Err(StakePoolError::CalculationFailure);
            },
        };
        let new_stake_total = match stake_pool.stake_total.checked_add(amount) {
            Some(t) => t,
            None => {
                return Err(StakePoolError::CalculationFailure);
            },
        };
        stake_pool.pool_total = new_pool_total;
        stake_pool.stake_total = new_stake_total;
        Ok(DepositOutcome { transfer, reserve_bump, pool_amount, fee_amount, user_amount })
    }

    /// Processes `Withdraw`: prices `pool_amount` of shares back into
    /// base currency, refuses to drain the reserve below its operating
    /// and rent floors, and commits the reduced totals. The outcome
    /// carries the payout and the reserve's signing bump.
    pub fn process_withdraw(
        program_id: &Address,
        pool_amount: u64,
        stake_pool_account: &AccountView,
        withdraw_key: &Address,
        reserve_account: &AccountView,
        token_program_key: &Address,
        rent_exempt_zero: u64,
        stake_pool: &mut StakePool,
    ) -> (r: Result<WithdrawOutcome, StakePoolError>)
        ensures
            ({
                let s = spec_process_withdraw(
                    program_id@,
                    pool_amount,
                    *stake_pool_account,
                    withdraw_key@,
                    *reserve_account,
                    token_program_key@,
                    rent_exempt_zero,
                    *old(stake_pool),
                );
                let reserve_base = spec_authority_seeds(
                    stake_pool_account.key@,
                    spec_authority_reserve(),
                );
                match r {
                    Ok(out) => {
                        &&& s is Ok
                        &&& *final(stake_pool) == s->Ok_0.0
                        &&& out.stake_amount == s->Ok_0.1
                        &&& spec_pda_found(
                            reserve_base,
                            program_id@,
                            reserve_account.key@,
                            out.reserve_bump,
                        )
                    },
                    Err(e) => s == Err::<(StakePool, u64), StakePoolError>(e) && *final(stake_pool)
                        == *old(stake_pool),
                }
            }),
    {
        if !stake_pool_account.owner.eq_key(program_id) {
            return Err(StakePoolError::WrongOwner);
        }
        if !stake_pool.is_initialized() {
            return Err(StakePoolError::InvalidState);
        }
        if !stake_pool.token_program_id.eq_key(token_program_key) {
            return Err(StakePoolError::IncorrectProgramId);
        }
        match stake_pool.check_authority_withdraw(
            withdraw_key,
            program_id,
            &stake_pool_account.key,
        ) {
            Ok(()) => {},
            Err(e) => {
                return Err(e);
            },
        }
        let reserve_base = Ghost(
            spec_authority_seeds(stake_pool_account.key@, spec_authority_reserve()),
        );
        let (expected_reserve, reserve_bump) = match Self::get_reserve_adderess(
            program_id,
            &stake_pool_account.key,
        ) {
            Ok(p) => p,
            Err(e) => {
                return Err(e);
            },
        };
        if !reserve_account.key.eq_key(&expected_reserve) {
            proof {
                assert(spec_pda_found(reserve_base@, program_id@, expected_reserve@, reserve_bump));
                assert(!spec_pda_none(reserve_base@, program_id@));
                if spec_pda_matches(reserve_base@, program_id@, reserve_account.key@) {
                    let b2 = choose|b: u8|
                        spec_pda_found(reserve_base@, program_id@, reserve_account.key@, b);
                    lemma_pda_found_unique(
                        reserve_base@,
                        program_id@,
                        expected_reserve@,
                        reserve_bump,
                        reserve_account.key@,
                        b2,
                    );
                }
                assert(!spec_pda_matches(reserve_base@, program_id@, reserve_account.key@));
            }
            return Err(StakePoolError::IncorrectProgramId);
        }
        proof {
            assert(spec_pda_found(reserve_base@, program_id@, reserve_account.key@, reserve_bump));
            assert(!spec_pda_none(reserve_base@, program_id@));
            assert(spec_pda_matches(reserve_base@, program_id@, reserve_account.key@));
        }
        let stake_amount = match stake_pool.calc_lamports_amount(pool_amount) {
            Some(s) => s,
            None => {
                return Err(StakePoolError::CalculationFailure);
            },
        };
        let reserve_balance = reserve_account.lamports;
        if stake_amount > reserve_balance || reserve_balance - stake_amount < MIN_RESERVE_BALANCE
            || reserve_balance - stake_amount < rent_exempt_zero {
            return Err(StakePoolError::InsufficientFunds);
        }
        let new_pool_total = match stake_pool.pool_total.checked_sub(pool_amount) {
            Some(t) => t,
            None => {
                return Err(StakePoolError::CalculationFailure);
            },
        };
        let new_stake_total = match stake_pool.stake_total.checked_sub(stake_amount) {
            Some(t) => t,
            None => {
                return Err(StakePoolError::CalculationFailure);
            },
        };
        stake_pool.pool_total = new_pool_total;
        stake_pool.stake_total = new_stake_total;
        Ok(WithdrawOutcome { stake_amount, reserve_bump })
    }

    /// Returns the validator a delegated stake sub-account votes for.
    /// `None` stands for sub-account state that would not parse.
    pub fn get_validator(stake_state: &Option<StakeStateView>) -> (r: Result<
        Address,
        StakePoolError,
    >)
        ensures
            match r {
                Ok(a) => *stake_state matches Some(
                    StakeStateView::Stake { voter, .. },
                ) && a == voter,
                Err(e) => match *stake_state {
                    None => e == StakePoolError::InvalidAccountData,
                    Some(s) => !(s is Stake) && e == StakePoolError::WrongStakeState,
                },
            },
    {
        match stake_state {
            None => Err(StakePoolError::InvalidAccountData),
            Some(StakeStateView::Stake { voter, .. }) => Ok(*voter),
            Some(_) => Err(StakePoolError::WrongStakeState),
        }
    }
}

/// Staleness gate of `UpdatePoolBalance`: while the accumulated total
/// stays in range, the walk fails exactly on a stale validator record,
/// and otherwise lands on the reserve balance plus the sum of all cached
/// balances.
pub proof fn lemma_staleness_gate(vs: Seq<ValidatorStakeInfo>, acc: u64, epoch: u64)
    requires
        acc + spec_sum_balances(vs) <= u64::MAX,
    ensures
        (forall|i: int| 0 <= i < vs.len() ==> #[trigger] vs[i].last_update_epoch >= epoch)
            ==> spec_update_total(vs, acc, epoch) == Ok::<u64, StakePoolError>(
            (acc + spec_sum_balances(vs)) as u64,
        ),
        (exists|i: int| 0 <= i < vs.len() && #[trigger] vs[i].last_update_epoch < epoch)
            ==> spec_update_total(vs, acc, epoch) == Err::<u64, StakePoolError>(
            StakePoolError::StakeListOutOfDate,
        ),
    decreases vs.len(),
{
    lemma_sum_balances_nonneg(vs);
    if vs.len() > 0 {
        lemma_sum_balances_nonneg(vs.skip(1));
        assert(spec_sum_balances(vs) == spec_sum_balances(vs.skip(1)) + vs[0].balance) by {
            lemma_sum_balances_first(vs);
        }
        if vs[0].last_update_epoch >= epoch {
            lemma_staleness_gate(vs.skip(1), (acc + vs[0].balance) as u64, epoch);
            assert forall|i: int|
                0 <= i < vs.len() && #[trigger] vs[i].last_update_epoch < epoch implies exists|
                j: int,
            | 0 <= j < vs.skip(1).len() && #[trigger] vs.skip(1)[j].last_update_epoch < epoch by {
                assert(vs.skip(1)[i - 1] == vs[i]);
            }
            assert forall|i: int|
                0 <= i < vs.len() && (forall|j: int|
                    0 <= j < vs.skip(1).len() ==> #[trigger] vs.skip(1)[j].last_update_epoch
                        >= epoch) implies #[trigger] vs[i].last_update_epoch >= epoch by {
                if i > 0 {
                    assert(vs.skip(1)[i - 1] == vs[i]);
                }
            }
        }
    }
}

/// Cached balances are individually non-negative, so their sum is too.
pub proof fn lemma_sum_balances_nonneg(vs: Seq<ValidatorStakeInfo>)
    ensures
        spec_sum_balances(vs) >= 0,
    decreases vs.len(),
{
    if vs.len() > 0 {
        lemma_sum_balances_nonneg(vs.drop_last());
    }
}

/// The balance sum splits off its first record.
pub proof fn lemma_sum_balances_first(vs: Seq<ValidatorStakeInfo>)
    requires
        vs.len() > 0,
    ensures
        spec_sum_balances(vs) == vs[0].balance + spec_sum_balances(vs.skip(1)),
    decreases vs.len(),
{
    if vs.len() == 1 {
        assert(vs.drop_last() =~= Seq::<ValidatorStakeInfo>::empty());
        assert(vs.skip(1) =~= Seq::<ValidatorStakeInfo>::empty());
    } else {
        lemma_sum_balances_first(vs.drop_last());
        assert(vs.drop_last().skip(1) =~= vs.skip(1).drop_last());
        assert(vs.skip(1).last() == vs.last());
        assert(vs.drop_last()[0] == vs[0]);
    }
}

} // verus!
