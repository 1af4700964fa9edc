use solana_program::program_pack::Pack;

use stake_pool::addr::Address;
use stake_pool::error::StakePoolError;
use stake_pool::instruction::DelegateReserveInstruction;
use stake_pool::instruction::MergeStakesInstruction;
use stake_pool::processor::DelegateAction;
use stake_pool::processor::DepositTransfer;
use stake_pool::processor::Processor;
use stake_pool::processor::StakeStateView;
use stake_pool::processor::UpdateAccountView;
use stake_pool::processor::MIN_RESERVE_BALANCE;
use stake_pool::state::AccountView;
use stake_pool::state::CreditList;
use stake_pool::state::Fee;
use stake_pool::state::InitArgs;
use stake_pool::state::StakePool;
use stake_pool::state::ValidatorStakeInfo;
use stake_pool::state::ValidatorStakeList;
use stake_pool::state::MAX_VALIDATORS;
use stake_pool::state::MIN_STAKE_ACCOUNT_BALANCE;

fn addr(byte: u8) -> Address {
    Address { bytes: [byte; 32] }
}

fn program_id() -> Address {
    Address { bytes: [42; 32] }
}

fn pool_key() -> Address {
    Address { bytes: [77; 32] }
}

struct Setup {
    pool: StakePool,
    stake_pool_account: AccountView,
    owner_account: AccountView,
    withdraw_key: Address,
    deposit_key: Address,
    reserve_key: Address,
}

fn setup() -> Setup {
    let pid = program_id();
    let pk = pool_key();
    let dep_tag = Processor::authority_deposit();
    let (deposit_key, deposit_bump) =
        Processor::find_authority_bump_seed(&pid, &pk, &dep_tag).unwrap();
    let wd_tag = Processor::authority_withdraw();
    let (withdraw_key, withdraw_bump) =
        Processor::find_authority_bump_seed(&pid, &pk, &wd_tag).unwrap();
    let (reserve_key, _reserve_bump) = Processor::get_reserve_adderess(&pid, &pk).unwrap();
    let pool = StakePool {
        version: 1,
        owner: addr(1),
        deposit_bump_seed: deposit_bump,
        withdraw_bump_seed: withdraw_bump,
        validator_stake_list: addr(2),
        credit_list: addr(3),
        pool_mint: addr(4),
        owner_fee_account: addr(5),
        credit_reserve: addr(6),
        token_program_id: addr(7),
        stake_total: 0,
        pool_total: 0,
        last_update_epoch: 10,
        fee: Fee { denominator: 100, numerator: 1 },
    };
    Setup {
        pool,
        stake_pool_account: AccountView { key: pk, owner: pid, lamports: 0, is_signer: false },
        owner_account: AccountView { key: addr(1), owner: addr(0), lamports: 0, is_signer: true },
        withdraw_key,
        deposit_key,
        reserve_key,
    }
}

fn fresh_list(validators: Vec<ValidatorStakeInfo>) -> ValidatorStakeList {
    ValidatorStakeList { version: 1, validators }
}

fn validator_record(key: Address, balance: u64, epoch: u64, stake_count: u32) -> ValidatorStakeInfo {
    ValidatorStakeInfo {
        validator_account: key,
        balance,
        last_update_epoch: epoch,
        stake_count,
    }
}

#[test]
fn add_validator_appends_fresh_record() {
    let s = setup();
    let mut list = fresh_list(vec![]);
    let r = Processor::process_add_validator(
        &program_id(),
        &s.stake_pool_account,
        &s.owner_account,
        &addr(2),
        &addr(50),
        10,
        &s.pool,
        &mut list,
    );
    assert_eq!(r, Ok(()));
    assert_eq!(list.validators, vec![validator_record(addr(50), 0, 10, 0)]);
}

#[test]
fn add_validator_requires_owner_signature() {
    let s = setup();
    let mut list = fresh_list(vec![]);
    let unsigned = AccountView { is_signer: false, ..s.owner_account };
    let r = Processor::process_add_validator(
        &program_id(),
        &s.stake_pool_account,
        &unsigned,
        &addr(2),
        &addr(50),
        10,
        &s.pool,
        &mut list,
    );
    assert_eq!(r, Err(StakePoolError::SignatureMissing));
}

#[test]
fn add_validator_refuses_duplicates() {
    let s = setup();
    let mut list = fresh_list(vec![validator_record(addr(50), 0, 10, 0)]);
    let r = Processor::process_add_validator(
        &program_id(),
        &s.stake_pool_account,
        &s.owner_account,
        &addr(2),
        &addr(50),
        10,
        &s.pool,
        &mut list,
    );
    assert_eq!(r, Err(StakePoolError::ValidatorAlreadyAdded));
}

#[test]
fn add_validator_overflows_at_max_cardinality() {
    let s = setup();
    let mut validators = Vec::new();
    for i in 0..MAX_VALIDATORS {
        let mut bytes = [0u8; 32];
        bytes[0] = (i % 256) as u8;
        bytes[1] = (i / 256) as u8;
        validators.push(validator_record(Address { bytes }, 0, 10, 0));
    }
    let mut list = fresh_list(validators);
    let r = Processor::process_add_validator(
        &program_id(),
        &s.stake_pool_account,
        &s.owner_account,
        &addr(2),
        &addr(255),
        10,
        &s.pool,
        &mut list,
    );
    assert_eq!(r, Err(StakePoolError::ValidatorListOverflow));
    assert_eq!(list.validators.len(), MAX_VALIDATORS);
}

#[test]
fn add_validator_check_cascade() {
    let s = setup();
    let mut list = fresh_list(vec![]);
    // the pool account must belong to this program
    let foreign = AccountView { owner: addr(99), ..s.stake_pool_account };
    let r = Processor::process_add_validator(
        &program_id(),
        &foreign,
        &s.owner_account,
        &addr(2),
        &addr(50),
        10,
        &s.pool,
        &mut list,
    );
    assert_eq!(r, Err(StakePoolError::WrongOwner));
    // an uninitialized pool record is refused
    let mut blank = s.pool;
    blank.version = 0;
    let r = Processor::process_add_validator(
        &program_id(),
        &s.stake_pool_account,
        &s.owner_account,
        &addr(2),
        &addr(50),
        10,
        &blank,
        &mut list,
    );
    assert_eq!(r, Err(StakePoolError::InvalidState));
    // a pool whose aggregate is older than the epoch must reconcile first
    let r = Processor::process_add_validator(
        &program_id(),
        &s.stake_pool_account,
        &s.owner_account,
        &addr(2),
        &addr(50),
        11,
        &s.pool,
        &mut list,
    );
    assert_eq!(r, Err(StakePoolError::StakeListAndPoolOutOfDate));
    // the list account must be the one the pool record names
    let r = Processor::process_add_validator(
        &program_id(),
        &s.stake_pool_account,
        &s.owner_account,
        &addr(66),
        &addr(50),
        10,
        &s.pool,
        &mut list,
    );
    assert_eq!(r, Err(StakePoolError::InvalidValidatorStakeList));
    assert!(list.validators.is_empty());
}

#[test]
fn remove_validator_with_stakes_fails() {
    let s = setup();
    let mut list = fresh_list(vec![validator_record(addr(50), 100, 10, 2)]);
    let r = Processor::process_remove_validator(
        &program_id(),
        &s.stake_pool_account,
        &s.owner_account,
        &addr(2),
        &addr(50),
        10,
        &s.pool,
        &mut list,
    );
    assert_eq!(r, Err(StakePoolError::ValidatorHasStakes));
    assert_eq!(list.validators.len(), 1);
}

#[test]
fn remove_validator_drops_the_record() {
    let s = setup();
    let mut list = fresh_list(vec![
        validator_record(addr(50), 0, 10, 0),
        validator_record(addr(51), 0, 10, 0),
    ]);
    let r = Processor::process_remove_validator(
        &program_id(),
        &s.stake_pool_account,
        &s.owner_account,
        &addr(2),
        &addr(50),
        10,
        &s.pool,
        &mut list,
    );
    assert_eq!(r, Ok(()));
    assert_eq!(list.validators, vec![validator_record(addr(51), 0, 10, 0)]);
}

#[test]
fn update_pool_balance_fails_on_stale_validator() {
    let s = setup();
    let mut pool = s.pool;
    let list = fresh_list(vec![
        validator_record(addr(50), 100, 10, 0),
        validator_record(addr(51), 200, 9, 0),
    ]);
    let r = Processor::process_update_pool_balance(
        &program_id(),
        &s.stake_pool_account,
        &addr(2),
        &s.reserve_key,
        5000,
        10,
        &mut pool,
        &list,
    );
    assert_eq!(r, Err(StakePoolError::StakeListOutOfDate));
    assert_eq!(pool.stake_total, 0);
}

#[test]
fn update_pool_balance_sums_reserve_and_balances() {
    let s = setup();
    let mut pool = s.pool;
    let list = fresh_list(vec![
        validator_record(addr(50), 100, 10, 0),
        validator_record(addr(51), 200, 11, 0),
    ]);
    let r = Processor::process_update_pool_balance(
        &program_id(),
        &s.stake_pool_account,
        &addr(2),
        &s.reserve_key,
        5000,
        10,
        &mut pool,
        &list,
    );
    assert_eq!(r, Ok(()));
    assert_eq!(pool.stake_total, 5000 + 100 + 200);
    assert_eq!(pool.last_update_epoch, 10);
}

#[test]
fn update_pool_balance_rejects_wrong_reserve() {
    let s = setup();
    let mut pool = s.pool;
    let list = fresh_list(vec![]);
    let r = Processor::process_update_pool_balance(
        &program_id(),
        &s.stake_pool_account,
        &addr(2),
        &addr(123),
        5000,
        10,
        &mut pool,
        &list,
    );
    assert_eq!(r, Err(StakePoolError::InvalidArgument));
}

#[test]
fn deposit_mints_at_par_with_fee() {
    let s = setup();
    let mut pool = s.pool;
    pool.stake_total = 1000;
    pool.pool_total = 1000;
    let reserve = AccountView {
        key: s.reserve_key,
        owner: addr(0),
        lamports: 2 * MIN_RESERVE_BALANCE,
        is_signer: false,
    };
    let r = Processor::process_deposit(
        &program_id(),
        100,
        &s.stake_pool_account,
        &s.withdraw_key,
        &reserve,
        &addr(5),
        &addr(7),
        true,
        None,
        &addr(11),
        1000,
        &mut pool,
    )
    .unwrap();
    assert_eq!(r.pool_amount, 100);
    assert_eq!(r.fee_amount, 1);
    assert_eq!(r.user_amount, 99);
    assert_eq!(r.transfer, DepositTransfer::SystemTransfer);
    assert_eq!(pool.stake_total, 1100);
    assert_eq!(pool.pool_total, 1100);
}

#[test]
fn deposit_rejects_wrong_fee_account() {
    let s = setup();
    let mut pool = s.pool;
    pool.stake_total = 1000;
    pool.pool_total = 1000;
    let reserve = AccountView {
        key: s.reserve_key,
        owner: addr(0),
        lamports: 2 * MIN_RESERVE_BALANCE,
        is_signer: false,
    };
    let r = Processor::process_deposit(
        &program_id(),
        100,
        &s.stake_pool_account,
        &s.withdraw_key,
        &reserve,
        &addr(99),
        &addr(7),
        true,
        None,
        &addr(11),
        1000,
        &mut pool,
    );
    assert_eq!(r.err(), Some(StakePoolError::InvalidFeeAccount));
}

#[test]
fn first_deposit_must_cover_reserve_floor() {
    let s = setup();
    let mut pool = s.pool;
    let reserve = AccountView {
        key: s.reserve_key,
        owner: addr(0),
        lamports: 0,
        is_signer: false,
    };
    let r = Processor::process_deposit(
        &program_id(),
        MIN_RESERVE_BALANCE - 1,
        &s.stake_pool_account,
        &s.withdraw_key,
        &reserve,
        &addr(5),
        &addr(7),
        true,
        None,
        &addr(11),
        1000,
        &mut pool,
    );
    assert_eq!(r.err(), Some(StakePoolError::FirstDepositIsTooSmall));
}

#[test]
fn withdraw_pays_out_and_burns() {
    let s = setup();
    let mut pool = s.pool;
    pool.stake_total = 10000;
    pool.pool_total = 10000;
    let reserve = AccountView {
        key: s.reserve_key,
        owner: addr(0),
        lamports: 2 * MIN_RESERVE_BALANCE,
        is_signer: false,
    };
    let r = Processor::process_withdraw(
        &program_id(),
        300,
        &s.stake_pool_account,
        &s.withdraw_key,
        &reserve,
        &addr(7),
        1000,
        &mut pool,
    )
    .unwrap();
    assert_eq!(r.stake_amount, 300);
    assert_eq!(pool.stake_total, 9700);
    assert_eq!(pool.pool_total, 9700);
}

#[test]
fn withdraw_refuses_to_drain_the_reserve() {
    let s = setup();
    let mut pool = s.pool;
    pool.stake_total = 10000;
    pool.pool_total = 10000;
    let reserve = AccountView {
        key: s.reserve_key,
        owner: addr(0),
        lamports: MIN_RESERVE_BALANCE + 100,
        is_signer: false,
    };
    let r = Processor::process_withdraw(
        &program_id(),
        200,
        &s.stake_pool_account,
        &s.withdraw_key,
        &reserve,
        &addr(7),
        1000,
        &mut pool,
    );
    assert_eq!(r.err(), Some(StakePoolError::InsufficientFunds));
    assert_eq!(pool.stake_total, 10000);
}

fn token_account_bytes(mint: Address, state: spl_token::state::AccountState) -> Vec<u8> {
    let account = spl_token::state::Account {
        mint: solana_program::pubkey::Pubkey::new_from_array(mint.bytes),
        owner: solana_program::pubkey::Pubkey::new_from_array([8; 32]),
        amount: 0,
        delegate: solana_program::program_option::COption::None,
        state,
        is_native: solana_program::program_option::COption::None,
        delegated_amount: 0,
        close_authority: solana_program::program_option::COption::None,
    };
    let mut data = vec![0u8; spl_token::state::Account::LEN];
    spl_token::state::Account::pack(account, &mut data).unwrap();
    data
}

fn mint_bytes(authority: Option<Address>, supply: u64) -> Vec<u8> {
    let mint = spl_token::state::Mint {
        mint_authority: match authority {
            Some(a) => solana_program::program_option::COption::Some(
                solana_program::pubkey::Pubkey::new_from_array(a.bytes),
            ),
            None => solana_program::program_option::COption::None,
        },
        supply,
        decimals: 9,
        is_initialized: true,
        freeze_authority: solana_program::program_option::COption::None,
    };
    let mut data = vec![0u8; spl_token::state::Mint::LEN];
    spl_token::state::Mint::pack(mint, &mut data).unwrap();
    data
}

#[test]
fn set_owner_checks_fee_account_mint() {
    let s = setup();
    let mut pool = s.pool;
    let wrong = token_account_bytes(addr(99), spl_token::state::AccountState::Initialized);
    let r = Processor::process_set_owner(
        &program_id(),
        &s.stake_pool_account,
        &s.owner_account,
        &addr(60),
        &addr(61),
        &wrong,
        &mut pool,
    );
    assert_eq!(r, Err(StakePoolError::WrongAccountMint));
    assert_eq!(pool.owner, addr(1));

    let right = token_account_bytes(addr(4), spl_token::state::AccountState::Initialized);
    let r = Processor::process_set_owner(
        &program_id(),
        &s.stake_pool_account,
        &s.owner_account,
        &addr(60),
        &addr(61),
        &right,
        &mut pool,
    );
    assert_eq!(r, Ok(()));
    assert_eq!(pool.owner, addr(60));
    assert_eq!(pool.owner_fee_account, addr(61));
}

#[test]
fn initialize_creates_pool_and_lists() {
    let pid = program_id();
    let pk = pool_key();
    let wd_tag = Processor::authority_withdraw();
    let (withdraw_key, withdraw_bump) =
        Processor::find_authority_bump_seed(&pid, &pk, &wd_tag).unwrap();
    let mut pool = StakePool::deserialize(&vec![0u8; StakePool::LEN]).unwrap();
    let mut list = ValidatorStakeList { version: 0, validators: vec![] };
    let mut credits = CreditList { version: 0, credits: vec![] };
    let mint_key = addr(4);
    let mint_data = mint_bytes(Some(withdraw_key), 0);
    let fee_data = token_account_bytes(mint_key, spl_token::state::AccountState::Initialized);
    let credit_data = token_account_bytes(mint_key, spl_token::state::AccountState::Initialized);
    let token_program = addr(7);
    let stake_pool_account = AccountView { key: pk, owner: pid, lamports: 500, is_signer: false };
    let owner_account = AccountView { key: addr(1), owner: addr(0), lamports: 0, is_signer: true };
    let list_account = AccountView { key: addr(2), owner: pid, lamports: 500, is_signer: false };
    let credit_account = AccountView { key: addr(3), owner: pid, lamports: 500, is_signer: false };
    let mint_account =
        AccountView { key: mint_key, owner: token_program, lamports: 500, is_signer: false };
    let fee_account = AccountView { key: addr(5), owner: token_program, lamports: 500, is_signer: false };
    let credit_reserve_account =
        AccountView { key: addr(6), owner: token_program, lamports: 500, is_signer: false };
    let out = Processor::process_initialize(
        &pid,
        InitArgs { fee: Fee { denominator: 100, numerator: 1 } },
        &stake_pool_account,
        &owner_account,
        &list_account,
        &credit_account,
        &mint_account,
        &fee_account,
        &credit_reserve_account,
        &token_program,
        33,
        400,
        400,
        400,
        &mint_data,
        &fee_data,
        &credit_data,
        &mut pool,
        &mut list,
        &mut credits,
    )
    .unwrap();
    assert_eq!(out.withdraw_bump, withdraw_bump);
    assert_eq!(out.withdraw_authority, withdraw_key);
    assert_eq!(pool.version, 1);
    assert_eq!(pool.owner, addr(1));
    assert_eq!(pool.validator_stake_list, addr(2));
    assert_eq!(pool.pool_mint, mint_key);
    assert_eq!(pool.last_update_epoch, 33);
    assert_eq!(pool.fee, Fee { denominator: 100, numerator: 1 });
    assert_eq!(list.version, 1);
    assert!(list.validators.is_empty());
    assert_eq!(credits.version, 1);

    // a mint with existing supply is refused
    let mut pool2 = StakePool::deserialize(&vec![0u8; StakePool::LEN]).unwrap();
    let mut list2 = ValidatorStakeList { version: 0, validators: vec![] };
    let mut credits2 = CreditList { version: 0, credits: vec![] };
    let bad_mint = mint_bytes(Some(withdraw_key), 7);
    let r = Processor::process_initialize(
        &pid,
        InitArgs { fee: Fee { denominator: 100, numerator: 1 } },
        &stake_pool_account,
        &owner_account,
        &list_account,
        &credit_account,
        &mint_account,
        &fee_account,
        &credit_reserve_account,
        &token_program,
        33,
        400,
        400,
        400,
        &bad_mint,
        &fee_data,
        &credit_data,
        &mut pool2,
        &mut list2,
        &mut credits2,
    );
    assert_eq!(r.err(), Some(StakePoolError::MintHasInitialSupply));
    assert_eq!(pool2.version, 0);
}

#[test]
fn initialize_rejects_fee_above_one() {
    let s = setup();
    let pid = program_id();
    let mut pool = StakePool::deserialize(&vec![0u8; StakePool::LEN]).unwrap();
    let mut list = ValidatorStakeList { version: 0, validators: vec![] };
    let mut credits = CreditList { version: 0, credits: vec![] };
    let mint_data = mint_bytes(None, 0);
    let fee_data = token_account_bytes(addr(4), spl_token::state::AccountState::Initialized);
    let token_program = addr(7);
    let stake_pool_account =
        AccountView { key: pool_key(), owner: pid, lamports: 500, is_signer: false };
    let list_account = AccountView { key: addr(2), owner: pid, lamports: 500, is_signer: false };
    let credit_account = AccountView { key: addr(3), owner: pid, lamports: 500, is_signer: false };
    let mint_account = AccountView { key: addr(4), owner: token_program, lamports: 500, is_signer: false };
    let fee_account = AccountView { key: addr(5), owner: token_program, lamports: 500, is_signer: false };
    let credit_reserve_account =
        AccountView { key: addr(6), owner: token_program, lamports: 500, is_signer: false };
    let r = Processor::process_initialize(
        &pid,
        InitArgs { fee: Fee { denominator: 100, numerator: 101 } },
        &stake_pool_account,
        &s.owner_account,
        &list_account,
        &credit_account,
        &mint_account,
        &fee_account,
        &credit_reserve_account,
        &token_program,
        33,
        400,
        400,
        400,
        &mint_data,
        &fee_data,
        &fee_data,
        &mut pool,
        &mut list,
        &mut credits,
    );
    assert_eq!(r.err(), Some(StakePoolError::FeeTooHigh));
}

#[test]
fn merge_stakes_drops_top_slot_only() {
    let s = setup();
    let mut list = fresh_list(vec![validator_record(addr(50), 1000, 10, 3)]);
    // merge slot 2 (the top) into slot 0: the count drops
    let instructions = vec![MergeStakesInstruction {
        validator_address: addr(50),
        main_index: 0,
        additional_index: 2,
    }];
    let pairs = vec![(addr(70), addr(71))];
    let (actions, changed) = Processor::process_merge_stakes(
        &program_id(),
        &s.stake_pool_account,
        &addr(2),
        &s.deposit_key,
        &instructions,
        &pairs,
        &s.pool,
        &mut list,
    )
    .unwrap();
    assert!(changed);
    assert_eq!(actions.len(), 1);
    assert_eq!(actions[0].main_stake, addr(70));
    assert_eq!(actions[0].additional_stake, addr(71));
    assert_eq!(list.validators[0].stake_count, 2);

    // merge slot 1 into slot 0 while slot 1 is not the top: count stays
    let mut list = fresh_list(vec![validator_record(addr(50), 1000, 10, 3)]);
    let instructions = vec![MergeStakesInstruction {
        validator_address: addr(50),
        main_index: 0,
        additional_index: 1,
    }];
    let (_actions, changed) = Processor::process_merge_stakes(
        &program_id(),
        &s.stake_pool_account,
        &addr(2),
        &s.deposit_key,
        &instructions,
        &pairs,
        &s.pool,
        &mut list,
    )
    .unwrap();
    assert!(!changed);
    assert_eq!(list.validators[0].stake_count, 3);
}

#[test]
fn merge_stakes_enforces_slot_order() {
    let s = setup();
    let mut list = fresh_list(vec![validator_record(addr(50), 1000, 10, 3)]);
    let instructions = vec![MergeStakesInstruction {
        validator_address: addr(50),
        main_index: 2,
        additional_index: 1,
    }];
    let pairs = vec![(addr(70), addr(71))];
    let r = Processor::process_merge_stakes(
        &program_id(),
        &s.stake_pool_account,
        &addr(2),
        &s.deposit_key,
        &instructions,
        &pairs,
        &s.pool,
        &mut list,
    );
    assert_eq!(r.err(), Some(StakePoolError::InvalidStakeIndex));
}

#[test]
fn delegate_reserve_creates_and_counts_slots() {
    let s = setup();
    let mut pool = s.pool;
    let system_program = addr(0);
    let validator = validator_record(addr(50), 0, 10, 0);
    let (stake_key, _bump) = validator.stake_address(&program_id(), &pool_key(), 0).unwrap();
    let mut list = fresh_list(vec![validator]);
    let reserve = AccountView {
        key: s.reserve_key,
        owner: system_program,
        lamports: 10 * MIN_STAKE_ACCOUNT_BALANCE,
        is_signer: false,
    };
    let instructions = vec![DelegateReserveInstruction {
        amount: MIN_STAKE_ACCOUNT_BALANCE,
        stake_index: 0,
    }];
    let stake_account =
        AccountView { key: stake_key, owner: system_program, lamports: 0, is_signer: false };
    let pairs = vec![(addr(50), stake_account)];
    let out = Processor::process_delegate_reserve(
        &program_id(),
        &s.stake_pool_account,
        &addr(2),
        &s.withdraw_key,
        &s.deposit_key,
        &reserve,
        &system_program,
        1000,
        &instructions,
        &pairs,
        &mut pool,
        &mut list,
    )
    .unwrap();
    assert_eq!(out.total_amount, MIN_STAKE_ACCOUNT_BALANCE);
    assert_eq!(out.actions.len(), 1);
    match out.actions[0] {
        DelegateAction::InitStake { validator, stake_account, stake_index, amount, .. } => {
            assert_eq!(validator, addr(50));
            assert_eq!(stake_account, stake_key);
            assert_eq!(stake_index, 0);
            assert_eq!(amount, MIN_STAKE_ACCOUNT_BALANCE);
        }
        _ => panic!("expected a creation order"),
    }
    assert_eq!(list.validators[0].stake_count, 1);
    assert_eq!(list.validators[0].balance, MIN_STAKE_ACCOUNT_BALANCE);
    assert_eq!(pool.stake_total, MIN_STAKE_ACCOUNT_BALANCE);
}

#[test]
fn delegate_reserve_refuses_tiny_new_stake() {
    let s = setup();
    let mut pool = s.pool;
    let system_program = addr(0);
    let validator = validator_record(addr(50), 0, 10, 0);
    let (stake_key, _bump) = validator.stake_address(&program_id(), &pool_key(), 0).unwrap();
    let mut list = fresh_list(vec![validator]);
    let reserve = AccountView {
        key: s.reserve_key,
        owner: system_program,
        lamports: 10 * MIN_STAKE_ACCOUNT_BALANCE,
        is_signer: false,
    };
    let instructions = vec![DelegateReserveInstruction {
        amount: MIN_STAKE_ACCOUNT_BALANCE - 1,
        stake_index: 0,
    }];
    let stake_account =
        AccountView { key: stake_key, owner: system_program, lamports: 0, is_signer: false };
    let pairs = vec![(addr(50), stake_account)];
    let r = Processor::process_delegate_reserve(
        &program_id(),
        &s.stake_pool_account,
        &addr(2),
        &s.withdraw_key,
        &s.deposit_key,
        &reserve,
        &system_program,
        1000,
        &instructions,
        &pairs,
        &mut pool,
        &mut list,
    );
    assert_eq!(r.err(), Some(StakePoolError::InsufficientFunds));
    assert_eq!(pool.stake_total, 0);
    assert_eq!(list.validators[0].stake_count, 0);
}

#[test]
fn delegate_reserve_caps_batch_at_spendable_balance() {
    let s = setup();
    let mut pool = s.pool;
    let system_program = addr(0);
    let validator = validator_record(addr(50), 0, 10, 0);
    let (stake_key, _bump) = validator.stake_address(&program_id(), &pool_key(), 0).unwrap();
    let mut list = fresh_list(vec![validator]);
    let reserve = AccountView {
        key: s.reserve_key,
        owner: system_program,
        lamports: MIN_STAKE_ACCOUNT_BALANCE + 500,
        is_signer: false,
    };
    // rent floor 1000 leaves less than the requested amount spendable
    let instructions = vec![DelegateReserveInstruction {
        amount: MIN_STAKE_ACCOUNT_BALANCE,
        stake_index: 0,
    }];
    let stake_account =
        AccountView { key: stake_key, owner: system_program, lamports: 0, is_signer: false };
    let pairs = vec![(addr(50), stake_account)];
    let r = Processor::process_delegate_reserve(
        &program_id(),
        &s.stake_pool_account,
        &addr(2),
        &s.withdraw_key,
        &s.deposit_key,
        &reserve,
        &system_program,
        1000,
        &instructions,
        &pairs,
        &mut pool,
        &mut list,
    );
    assert_eq!(r.err(), Some(StakePoolError::InsufficientFunds));
}

#[test]
fn update_list_balance_sweeps_excess_and_restamps() {
    let s = setup();
    let system_program = addr(0);
    let stake_program = addr(200);
    let validator = validator_record(addr(50), 999, 5, 1);
    let (stake_key, _bump) = validator.stake_address(&program_id(), &pool_key(), 0).unwrap();
    let mut list = fresh_list(vec![validator]);
    let accounts = vec![
        UpdateAccountView {
            key: addr(50),
            owner: addr(201),
            lamports: 0,
            stake: None,
        },
        UpdateAccountView {
            key: stake_key,
            owner: stake_program,
            lamports: 150,
            stake: Some(StakeStateView::Stake {
                rent_exempt_reserve: 10,
                delegation_stake: 100,
                voter: addr(50),
            }),
        },
    ];
    let (actions, changed) = Processor::process_update_list_balance(
        &program_id(),
        &s.stake_pool_account,
        &addr(2),
        &s.withdraw_key,
        &s.reserve_key,
        &stake_program,
        &system_program,
        10,
        &accounts,
        &s.pool,
        &mut list,
    )
    .unwrap();
    assert!(changed);
    assert_eq!(actions.len(), 1);
    assert!(actions[0].is_withdraw);
    assert_eq!(actions[0].stake_account, stake_key);
    assert_eq!(actions[0].amount, 40);
    assert_eq!(list.validators[0].balance, 110);
    assert_eq!(list.validators[0].stake_count, 1);
    assert_eq!(list.validators[0].last_update_epoch, 10);
}

#[test]
fn update_list_balance_sweeps_stray_system_account() {
    let s = setup();
    let system_program = addr(0);
    let stake_program = addr(200);
    let validator = validator_record(addr(50), 999, 5, 1);
    let (stake_key, _bump) = validator.stake_address(&program_id(), &pool_key(), 0).unwrap();
    let mut list = fresh_list(vec![validator]);
    let accounts = vec![
        UpdateAccountView {
            key: addr(50),
            owner: addr(201),
            lamports: 0,
            stake: None,
        },
        UpdateAccountView {
            key: stake_key,
            owner: system_program,
            lamports: 75,
            stake: None,
        },
    ];
    let (actions, changed) = Processor::process_update_list_balance(
        &program_id(),
        &s.stake_pool_account,
        &addr(2),
        &s.withdraw_key,
        &s.reserve_key,
        &stake_program,
        &system_program,
        10,
        &accounts,
        &s.pool,
        &mut list,
    )
    .unwrap();
    assert!(changed);
    assert_eq!(actions.len(), 1);
    assert!(!actions[0].is_withdraw);
    assert_eq!(actions[0].amount, 75);
    // a swept-away slot does not count as occupied
    assert_eq!(list.validators[0].stake_count, 0);
    assert_eq!(list.validators[0].balance, 0);
}

#[test]
fn update_list_balance_counts_only_the_contiguous_prefix() {
    let s = setup();
    let system_program = addr(0);
    let stake_program = addr(200);
    let validator = validator_record(addr(50), 999, 5, 3);
    let (k0, _) = validator.stake_address(&program_id(), &pool_key(), 0).unwrap();
    let (k1, _) = validator.stake_address(&program_id(), &pool_key(), 1).unwrap();
    let (k2, _) = validator.stake_address(&program_id(), &pool_key(), 2).unwrap();
    let mut list = fresh_list(vec![validator]);
    let stake_at = |key: Address, lamports: u64| UpdateAccountView {
        key,
        owner: stake_program,
        lamports,
        stake: Some(StakeStateView::Stake {
            rent_exempt_reserve: 10,
            delegation_stake: 100,
            voter: addr(50),
        }),
    };
    let accounts = vec![
        UpdateAccountView { key: addr(50), owner: addr(201), lamports: 0, stake: None },
        stake_at(k0, 110),
        // slot 1 is a gap: a drained, zero-balance account
        UpdateAccountView { key: k1, owner: stake_program, lamports: 0, stake: None },
        stake_at(k2, 110),
    ];
    let (_actions, _changed) = Processor::process_update_list_balance(
        &program_id(),
        &s.stake_pool_account,
        &addr(2),
        &s.withdraw_key,
        &s.reserve_key,
        &stake_program,
        &system_program,
        10,
        &accounts,
        &s.pool,
        &mut list,
    )
    .unwrap();
    // the slot past the gap still counts into the balance, but the slot
    // count stops at the first gap
    assert_eq!(list.validators[0].balance, 220);
    assert_eq!(list.validators[0].stake_count, 1);
}

#[test]
fn update_list_balance_rejects_unknown_validator() {
    let s = setup();
    let mut list = fresh_list(vec![validator_record(addr(50), 0, 5, 0)]);
    let accounts = vec![UpdateAccountView {
        key: addr(51),
        owner: addr(201),
        lamports: 0,
        stake: None,
    }];
    let r = Processor::process_update_list_balance(
        &program_id(),
        &s.stake_pool_account,
        &addr(2),
        &s.withdraw_key,
        &s.reserve_key,
        &addr(200),
        &addr(0),
        10,
        &accounts,
        &s.pool,
        &mut list,
    );
    assert_eq!(r.err(), Some(StakePoolError::ValidatorNotFound));
}

#[test]
fn update_pool_balance_reports_sum_overflow() {
    let s = setup();
    let mut pool = s.pool;
    let list = fresh_list(vec![
        validator_record(addr(50), u64::MAX, 10, 0),
        validator_record(addr(51), u64::MAX, 10, 0),
    ]);
    let r = Processor::process_update_pool_balance(
        &program_id(),
        &s.stake_pool_account,
        &addr(2),
        &s.reserve_key,
        1,
        10,
        &mut pool,
        &list,
    );
    assert_eq!(r.err(), Some(StakePoolError::CalculationFailure));
}

#[test]
fn update_list_balance_needs_every_stake_account() {
    let s = setup();
    let mut list = fresh_list(vec![validator_record(addr(50), 0, 5, 2)]);
    // the validator entry alone, without its two stake sub-accounts
    let accounts = vec![UpdateAccountView {
        key: addr(50),
        owner: addr(201),
        lamports: 0,
        stake: None,
    }];
    let r = Processor::process_update_list_balance(
        &program_id(),
        &s.stake_pool_account,
        &addr(2),
        &s.withdraw_key,
        &s.reserve_key,
        &addr(200),
        &addr(0),
        10,
        &accounts,
        &s.pool,
        &mut list,
    );
    assert_eq!(r.err(), Some(StakePoolError::NotEnoughAccountKeys));
    assert_eq!(list.validators[0].last_update_epoch, 5);
}

#[test]
fn deposit_refuses_a_fee_above_the_whole() {
    let s = setup();
    let mut pool = s.pool;
    pool.stake_total = 1000;
    pool.pool_total = 1000;
    pool.fee = Fee { denominator: 1, numerator: 2 };
    let reserve = AccountView {
        key: s.reserve_key,
        owner: addr(0),
        lamports: 2 * MIN_RESERVE_BALANCE,
        is_signer: false,
    };
    let r = Processor::process_deposit(
        &program_id(),
        100,
        &s.stake_pool_account,
        &s.withdraw_key,
        &reserve,
        &addr(5),
        &addr(7),
        true,
        None,
        &addr(11),
        1000,
        &mut pool,
    );
    assert_eq!(r.err(), Some(StakePoolError::CalculationFailure));
    assert_eq!(pool.stake_total, 1000);
}

#[test]
fn get_validator_reads_the_voter() {
    let stake = Some(StakeStateView::Stake {
        rent_exempt_reserve: 1,
        delegation_stake: 2,
        voter: addr(50),
    });
    assert_eq!(Processor::get_validator(&stake), Ok(addr(50)));
    assert_eq!(
        Processor::get_validator(&Some(StakeStateView::Uninitialized)),
        Err(StakePoolError::WrongStakeState)
    );
    assert_eq!(
        Processor::get_validator(&None),
        Err(StakePoolError::InvalidAccountData)
    );
}

#[test]
fn authority_checks_accept_only_derived_keys() {
    let s = setup();
    // the found authorities verify
    assert_eq!(
        s.pool.check_authority_withdraw(&s.withdraw_key, &program_id(), &pool_key()),
        Ok(())
    );
    assert_eq!(
        s.pool.check_authority_deposit(&s.deposit_key, &program_id(), &pool_key()),
        Ok(())
    );
    // derivation is no identity: the authority differs from its seeds' pool key
    assert_ne!(s.withdraw_key, pool_key());
    assert_ne!(s.withdraw_key, s.deposit_key);
    // any other key is refused
    assert_eq!(
        s.pool.check_authority_withdraw(&addr(123), &program_id(), &pool_key()),
        Err(StakePoolError::InvalidProgramAddress)
    );
    // probing is deterministic
    let wd_tag = Processor::authority_withdraw();
    let again = Processor::find_authority_bump_seed(&program_id(), &pool_key(), &wd_tag).unwrap();
    assert_eq!(again.0, s.withdraw_key);
    // and matches the host SDK's own probe
    let expected = solana_program::pubkey::Pubkey::find_program_address(
        &[&pool_key().bytes, b"withdraw"],
        &solana_program::pubkey::Pubkey::new_from_array(program_id().bytes),
    );
    assert_eq!(s.withdraw_key.bytes, expected.0.to_bytes());
    assert_eq!(again.1, expected.1);
}

#[test]
fn deposit_wrapped_token_path_uses_derived_temp_account() {
    let s = setup();
    let mut pool = s.pool;
    pool.stake_total = 1000;
    pool.pool_total = 1000;
    let reserve = AccountView {
        key: s.reserve_key,
        owner: addr(0),
        lamports: 2 * MIN_RESERVE_BALANCE,
        is_signer: false,
    };
    let temp_tag = Processor::temp_account();
    let (temp_key, temp_bump) =
        Processor::find_authority_bump_seed(&program_id(), &pool_key(), &temp_tag).unwrap();
    let native_mint = addr(11);
    let out = Processor::process_deposit(
        &program_id(),
        100,
        &s.stake_pool_account,
        &s.withdraw_key,
        &reserve,
        &addr(5),
        &addr(7),
        false,
        Some((temp_key, native_mint)),
        &native_mint,
        1000,
        &mut pool,
    )
    .unwrap();
    assert_eq!(out.transfer, DepositTransfer::WrappedToken { temp_bump });
    assert_eq!(out.user_amount, 99);

    // a temp account that is not the derived one is refused
    let mut pool2 = s.pool;
    pool2.stake_total = 1000;
    pool2.pool_total = 1000;
    let r = Processor::process_deposit(
        &program_id(),
        100,
        &s.stake_pool_account,
        &s.withdraw_key,
        &reserve,
        &addr(5),
        &addr(7),
        false,
        Some((addr(123), native_mint)),
        &native_mint,
        1000,
        &mut pool2,
    );
    assert_eq!(r.err(), Some(StakePoolError::InvalidArgument));
}

#[test]
fn merge_stakes_needs_an_account_pair_per_order() {
    let s = setup();
    let mut list = fresh_list(vec![validator_record(addr(50), 1000, 10, 3)]);
    let instructions = vec![MergeStakesInstruction {
        validator_address: addr(50),
        main_index: 0,
        additional_index: 2,
    }];
    let pairs: Vec<(Address, Address)> = vec![];
    let r = Processor::process_merge_stakes(
        &program_id(),
        &s.stake_pool_account,
        &addr(2),
        &s.deposit_key,
        &instructions,
        &pairs,
        &s.pool,
        &mut list,
    );
    assert_eq!(r.err(), Some(StakePoolError::NotEnoughAccountKeys));
}

#[test]
fn error_messages_name_the_fault() {
    assert_eq!(
        StakePoolError::FeeTooHigh.message(),
        "Error: Stake pool fee > 1"
    );
    assert_eq!(
        StakePoolError::ValidatorListOverflow.message(),
        "Error: Validator list is full. Can't add more validators"
    );
    assert_eq!(
        StakePoolError::StakeListOutOfDate.message(),
        "Error: Identify validator stake accounts with old balances and update them"
    );
}

#[test]
fn stake_addresses_are_slot_specific() {
    let v = validator_record(addr(50), 0, 0, 0);
    let a0 = v.stake_address(&program_id(), &pool_key(), 0).unwrap();
    let a1 = v.stake_address(&program_id(), &pool_key(), 1).unwrap();
    assert_ne!(a0.0, a1.0);
    assert_eq!(
        v.check_validator_stake_address(&program_id(), &pool_key(), 0, &a0.0),
        Ok(a0.1)
    );
    assert_eq!(
        v.check_validator_stake_address(&program_id(), &pool_key(), 0, &a1.0),
        Err(StakePoolError::InvalidStakeAccountAddress)
    );
}
