//! Error taxonomy of the pool program.

use vstd::prelude::*;

verus! {

/// Everything a handler can refuse to do, and why.
///
/// The first group mirrors the pool's own protocol and state checks; the
/// trailing variants stand for the host-level error codes that handlers
/// surface directly (bad account data, bad argument, wrong program id,
/// not enough funds, too few accounts supplied).
#[derive(Clone, Copy, Debug, PartialEq, Eq, Structural)]
pub enum StakePoolError {
    /// The account cannot be initialized because it is already being used.
    AlreadyInUse,
    /// The program address provided doesn't match the value generated by the program.
    InvalidProgramAddress,
    /// The stake pool state is invalid.
    InvalidState,
    /// The calculation failed (overflow, underflow or division by zero).
    CalculationFailure,
    /// Stake pool fee > 1.
    FeeTooHigh,
    /// Token account is associated with the wrong mint.
    WrongAccountMint,
    /// Account balance should be zero.
    NonZeroBalance,
    /// Wrong pool owner account.
    WrongOwner,
    /// Required signature is missing.
    SignatureMissing,
    /// Invalid validator stake list account.
    InvalidValidatorStakeList,
    /// Invalid owner fee account.
    InvalidFeeAccount,
    /// Specified pool mint account is wrong.
    WrongPoolMint,
    /// Stake account is not in the state expected by the program.
    WrongStakeState,
    /// User stake is not active.
    UserStakeNotActive,
    /// Stake account voting for this validator already exists in the pool.
    ValidatorAlreadyAdded,
    /// Stake account for this validator not found in the pool.
    ValidatorNotFound,
    /// Stake account address not properly derived from the validator address.
    InvalidStakeAccountAddress,
    /// Identify validator stake accounts with old balances and update them.
    StakeListOutOfDate,
    /// First update old validator stake account balances and then pool stake balance.
    StakeListAndPoolOutOfDate,
    /// Validator stake account is not found in the list storage.
    UnknownValidatorStakeAccount,
    /// Wrong minting authority set for mint pool account.
    WrongMintingAuthority,
    /// Initial supply of mint is non zero.
    MintHasInitialSupply,
    /// Account is not rent-exempt.
    AccountNotRentExempt,
    /// Validator list is full. Can't add more validators.
    ValidatorListOverflow,
    /// Withdraw all stakes before validator removal.
    ValidatorHasStakes,
    /// First deposit must be at least enough for rent.
    FirstDepositIsTooSmall,
    /// Wrong credit owner.
    WrongCreditOwner,
    /// Wrong credit state.
    WrongCreditState,
    /// Invalid stake index.
    InvalidStakeIndex,
    /// Account data too short or malformed.
    InvalidAccountData,
    /// An argument does not match the expected derived account.
    InvalidArgument,
    /// An account is owned by, or refers to, the wrong program.
    IncorrectProgramId,
    /// Not enough funds to carry out the request.
    InsufficientFunds,
    /// Fewer accounts were supplied than the instruction walks.
    NotEnoughAccountKeys,
}

impl StakePoolError {
    /// The fixed diagnostic text the program reports for this error.
    pub fn message(&self) -> &'static str {
        match self {
            StakePoolError::AlreadyInUse => "Error: The account cannot be initialized because it is already being used",
            StakePoolError::InvalidProgramAddress => "Error: The program address provided doesn't match the value generated by the program",
            StakePoolError::InvalidState => "Error: The stake pool state is invalid",
            StakePoolError::CalculationFailure => "Error: The calculation failed",
            StakePoolError::FeeTooHigh => "Error: Stake pool fee > 1",
            StakePoolError::WrongAccountMint => "Error: Token account is associated with the wrong mint",
            StakePoolError::NonZeroBalance => "Error: Account balance should be zero",
            StakePoolError::WrongOwner => "Error: Wrong pool owner account",
            StakePoolError::SignatureMissing => "Error: Required signature is missing",
            StakePoolError::InvalidValidatorStakeList => "Error: Invalid validator stake list account",
            StakePoolError::InvalidFeeAccount => "Error: Invalid owner fee account",
            StakePoolError::WrongPoolMint => "Error: Specified pool mint account is wrong",
            StakePoolError::WrongStakeState => "Error: Stake account is not in the state expected by the program",
            StakePoolError::UserStakeNotActive => "Error: User stake is not active",
            StakePoolError::ValidatorAlreadyAdded => "Error: Stake account voting for this validator already exists in the pool",
            StakePoolError::ValidatorNotFound => "Error: Stake account for this validator not found in the pool",
            StakePoolError::InvalidStakeAccountAddress => "Error: Stake account address not properly derived from the validator address",
            StakePoolError::StakeListOutOfDate => "Error: Identify validator stake accounts with old balances and update them",
            StakePoolError::StakeListAndPoolOutOfDate => "Error: First update old validator stake account balances and then pool stake balance",
            StakePoolError::UnknownValidatorStakeAccount => "Error: Validator stake account is not found in the list storage",
            StakePoolError::WrongMintingAuthority => "Error: Wrong minting authority set for mint pool account",
            StakePoolError::MintHasInitialSupply => "Error: Initial supply of mint is non zero",
            StakePoolError::AccountNotRentExempt => "Error: Account is not rent-exempt",
            StakePoolError::ValidatorListOverflow => "Error: Validator list is full. Can't add more validators",
            StakePoolError::ValidatorHasStakes => "Error: Withdraw all stakes before validator removal",
            StakePoolError::FirstDepositIsTooSmall => "Error: First deposit must be at least enough for rent",
            StakePoolError::WrongCreditOwner => "Error: Wrong credit owner",
            StakePoolError::WrongCreditState => "Error: Wrong credit satte",
            StakePoolError::InvalidStakeIndex => "Error: Invalid stake index",
            StakePoolError::InvalidAccountData => "Error: Account data too short or malformed",
            StakePoolError::InvalidArgument => "Error: Invalid argument",
            StakePoolError::IncorrectProgramId => "Error: Incorrect program id",
            StakePoolError::InsufficientFunds => "Error: Insufficient funds",
            StakePoolError::NotEnoughAccountKeys => "Error: Not enough account keys",
        }
    }
}

/// Errors of the minimal staking front end.
#[derive(Clone, Copy, Debug, PartialEq, Eq, Structural)]
pub enum StakingError {
    /// Invalid transaction instruction.
    InvalidInstruction,
    /// Withdrawal account doesn't stake any tokens.
    NoStaking,
}

} // verus!
