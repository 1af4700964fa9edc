use stake_pool::addr::Address;
use stake_pool::error::StakePoolError;
use stake_pool::instruction::DelegateReserveInstruction;
use stake_pool::instruction::MergeStakesInstruction;
use stake_pool::instruction::StakePoolInstruction;
use stake_pool::state::CreditList;
use stake_pool::state::CreditRecord;
use stake_pool::state::Fee;
use stake_pool::state::StakePool;
use stake_pool::state::ValidatorStakeInfo;
use stake_pool::state::ValidatorStakeList;

fn addr(byte: u8) -> Address {
    Address { bytes: [byte; 32] }
}

#[test]
fn test_state_packing() {
    // Not initialized
    let stake_list = ValidatorStakeList {
        version: 0,
        validators: vec![],
    };
    let mut bytes = vec![0u8; ValidatorStakeList::LEN];
    stake_list.serialize(&mut bytes).unwrap();
    let stake_list_unpacked = ValidatorStakeList::deserialize(&bytes).unwrap();
    assert_eq!(stake_list_unpacked, stake_list);

    // Empty
    let stake_list = ValidatorStakeList {
        version: ValidatorStakeList::VALIDATOR_STAKE_LIST_VERSION,
        validators: vec![],
    };
    let mut bytes = vec![0u8; ValidatorStakeList::LEN];
    stake_list.serialize(&mut bytes).unwrap();
    let stake_list_unpacked = ValidatorStakeList::deserialize(&bytes).unwrap();
    assert_eq!(stake_list_unpacked, stake_list);

    // With several accounts
    let stake_list = ValidatorStakeList {
        version: ValidatorStakeList::VALIDATOR_STAKE_LIST_VERSION,
        validators: vec![
            ValidatorStakeInfo {
                validator_account: Address { bytes: [1; 32] },
                balance: 123456789,
                last_update_epoch: 987654321,
                stake_count: 0,
            },
            ValidatorStakeInfo {
                validator_account: Address { bytes: [2; 32] },
                balance: 998877665544,
                last_update_epoch: 11223445566,
                stake_count: 0,
            },
            ValidatorStakeInfo {
                validator_account: Address { bytes: [3; 32] },
                balance: 0,
                last_update_epoch: 999999999999999,
                stake_count: 0,
            },
        ],
    };
    let mut bytes = vec![0u8; ValidatorStakeList::LEN];
    stake_list.serialize(&mut bytes).unwrap();
    let stake_list_unpacked = ValidatorStakeList::deserialize(&bytes).unwrap();
    assert_eq!(stake_list_unpacked, stake_list);
}

#[test]
fn stake_pool_round_trip() {
    let pool = StakePool {
        version: 1,
        owner: addr(7),
        deposit_bump_seed: 250,
        withdraw_bump_seed: 251,
        validator_stake_list: addr(8),
        credit_list: addr(9),
        pool_mint: addr(10),
        owner_fee_account: addr(11),
        credit_reserve: addr(12),
        token_program_id: addr(13),
        stake_total: 123456789012,
        pool_total: 98765432101,
        last_update_epoch: 424242,
        fee: Fee { denominator: 100, numerator: 3 },
    };
    let mut bytes = vec![0u8; StakePool::LEN];
    pool.serialize(&mut bytes).unwrap();
    let unpacked = StakePool::deserialize(&bytes).unwrap();
    assert_eq!(unpacked, pool);
}

#[test]
fn stake_pool_all_zero_is_uninitialized() {
    let bytes = vec![0u8; StakePool::LEN];
    let unpacked = StakePool::deserialize(&bytes).unwrap();
    assert_eq!(unpacked.version, 0);
    assert_eq!(unpacked, StakePool {
        version: 0,
        owner: addr(0),
        deposit_bump_seed: 0,
        withdraw_bump_seed: 0,
        validator_stake_list: addr(0),
        credit_list: addr(0),
        pool_mint: addr(0),
        owner_fee_account: addr(0),
        credit_reserve: addr(0),
        token_program_id: addr(0),
        stake_total: 0,
        pool_total: 0,
        last_update_epoch: 0,
        fee: Fee { denominator: 0, numerator: 0 },
    });
}

#[test]
fn stake_pool_rejects_short_buffer() {
    let bytes = vec![0u8; StakePool::LEN - 1];
    assert_eq!(
        StakePool::deserialize(&bytes),
        Err(StakePoolError::InvalidAccountData)
    );
    let pool = StakePool::deserialize(&vec![0u8; StakePool::LEN]).unwrap();
    let mut short = vec![0u8; StakePool::LEN - 1];
    assert_eq!(
        pool.serialize(&mut short),
        Err(StakePoolError::InvalidAccountData)
    );
}

#[test]
fn validator_stake_list_rejects_overflowing_count() {
    let mut bytes = vec![0u8; ValidatorStakeList::LEN];
    bytes[0] = 1;
    // count = 101, one past the maximum cardinality
    bytes[1] = 101;
    bytes[2] = 0;
    assert_eq!(
        ValidatorStakeList::deserialize(&bytes),
        Err(StakePoolError::InvalidAccountData)
    );
}

#[test]
fn validator_stake_list_serialize_leaves_tail_untouched() {
    let stake_list = ValidatorStakeList {
        version: 1,
        validators: vec![ValidatorStakeInfo {
            validator_account: addr(5),
            balance: 17,
            last_update_epoch: 3,
            stake_count: 2,
        }],
    };
    let mut bytes = vec![0xAB_u8; ValidatorStakeList::LEN];
    stake_list.serialize(&mut bytes).unwrap();
    assert_eq!(bytes[0], 1);
    assert_eq!(bytes[1], 1);
    assert_eq!(bytes[2], 0);
    // past the single 52-byte entry the old contents survive
    assert_eq!(bytes[3 + 52], 0xAB);
    assert_eq!(bytes[ValidatorStakeList::LEN - 1], 0xAB);
}

#[test]
fn credit_list_round_trip() {
    let list = CreditList {
        version: CreditList::VERSION,
        credits: vec![
            CreditRecord {
                sol_target: addr(21),
                cancel_authority: addr(22),
                token_amount: 777,
            },
            CreditRecord {
                sol_target: addr(23),
                cancel_authority: addr(24),
                token_amount: 0,
            },
        ],
    };
    let mut bytes = vec![0u8; CreditList::LEN];
    list.serialize(&mut bytes).unwrap();
    let unpacked = CreditList::deserialize(&bytes).unwrap();
    assert_eq!(unpacked, list);

    // the all-zero buffer decodes to the uninitialized list
    let zero = vec![0u8; CreditList::LEN];
    let unpacked = CreditList::deserialize(&zero).unwrap();
    assert_eq!(unpacked, CreditList { version: 0, credits: vec![] });
}

#[test]
fn instruction_decode_fixed_payloads() {
    // Deposit(5): opcode 6, then 5 as little-endian u64
    let mut data = vec![6u8, 5, 0, 0, 0, 0, 0, 0, 0];
    assert_eq!(
        StakePoolInstruction::deserialize(&data).unwrap(),
        StakePoolInstruction::Deposit(5)
    );
    data[0] = 7;
    assert_eq!(
        StakePoolInstruction::deserialize(&data).unwrap(),
        StakePoolInstruction::Withdraw(5)
    );
    assert_eq!(
        StakePoolInstruction::deserialize(&[2u8]).unwrap(),
        StakePoolInstruction::AddValidator
    );
    assert_eq!(
        StakePoolInstruction::deserialize(&[3u8]).unwrap(),
        StakePoolInstruction::RemoveValidator
    );
    assert_eq!(
        StakePoolInstruction::deserialize(&[4u8]).unwrap(),
        StakePoolInstruction::UpdateListBalance
    );
    assert_eq!(
        StakePoolInstruction::deserialize(&[5u8]).unwrap(),
        StakePoolInstruction::UpdatePoolBalance
    );
    assert_eq!(
        StakePoolInstruction::deserialize(&[9u8]).unwrap(),
        StakePoolInstruction::SetOwner
    );
    // opcode 0: fee denominator 100, numerator 3
    let mut init = vec![0u8; 17];
    init[1] = 100;
    init[9] = 3;
    match StakePoolInstruction::deserialize(&init).unwrap() {
        StakePoolInstruction::Initialize(args) => {
            assert_eq!(args.fee, Fee { denominator: 100, numerator: 3 });
        }
        other => panic!("decoded {:?}", other),
    }
}

#[test]
fn instruction_decode_errors() {
    assert_eq!(
        StakePoolInstruction::deserialize(&[]),
        Err(StakePoolError::InvalidAccountData)
    );
    assert_eq!(
        StakePoolInstruction::deserialize(&[1u8]),
        Err(StakePoolError::InvalidAccountData)
    );
    assert_eq!(
        StakePoolInstruction::deserialize(&[6u8, 1, 2]),
        Err(StakePoolError::InvalidAccountData)
    );
    // a batch whose declared count does not fit the buffer
    let mut data = vec![12u8, 2, 0, 0, 0];
    data.extend_from_slice(&[0u8; 12]);
    assert_eq!(
        StakePoolInstruction::deserialize(&data),
        Err(StakePoolError::InvalidArgument)
    );
}

#[test]
fn instruction_decode_reserved_commands() {
    let mut data = vec![10u8, 0, 0, 0, 0, 0, 0, 0, 0];
    data[1] = 9;
    assert_eq!(
        StakePoolInstruction::deserialize(&data).unwrap(),
        StakePoolInstruction::Credit(9)
    );
    data[0] = 11;
    assert_eq!(
        StakePoolInstruction::deserialize(&data).unwrap(),
        StakePoolInstruction::Uncredit(9)
    );
    assert_eq!(
        StakePoolInstruction::deserialize(&[8u8]).unwrap(),
        StakePoolInstruction::SetStakingAuthority
    );
    assert_eq!(
        StakePoolInstruction::deserialize(&[15u8]).unwrap(),
        StakePoolInstruction::PayCreditors
    );
    // an Unstake batch: 48-byte orders
    let mut data = vec![14u8, 1, 0, 0, 0];
    data.extend_from_slice(&[6u8; 32]);
    data.extend_from_slice(&2u32.to_le_bytes());
    data.extend_from_slice(&2u32.to_le_bytes());
    data.extend_from_slice(&500u64.to_le_bytes());
    match StakePoolInstruction::deserialize(&data).unwrap() {
        StakePoolInstruction::Unstake(orders) => {
            assert_eq!(orders.len(), 1);
            assert_eq!(orders[0].validator_address, addr(6));
            assert_eq!(orders[0].source_index, 2);
            assert_eq!(orders[0].split_index, 2);
            assert_eq!(orders[0].amount, 500);
        }
        other => panic!("decoded {:?}", other),
    }
}

#[test]
fn instruction_decode_batches() {
    // DelegateReserve with two orders
    let mut data = vec![12u8, 2, 0, 0, 0];
    data.extend_from_slice(&1000u64.to_le_bytes());
    data.extend_from_slice(&0u32.to_le_bytes());
    data.extend_from_slice(&2000u64.to_le_bytes());
    data.extend_from_slice(&1u32.to_le_bytes());
    assert_eq!(
        StakePoolInstruction::deserialize(&data).unwrap(),
        StakePoolInstruction::DelegateReserve(vec![
            DelegateReserveInstruction { amount: 1000, stake_index: 0 },
            DelegateReserveInstruction { amount: 2000, stake_index: 1 },
        ])
    );

    // MergeStakes with one order
    let mut data = vec![13u8, 1, 0, 0, 0];
    data.extend_from_slice(&[9u8; 32]);
    data.extend_from_slice(&0u32.to_le_bytes());
    data.extend_from_slice(&1u32.to_le_bytes());
    assert_eq!(
        StakePoolInstruction::deserialize(&data).unwrap(),
        StakePoolInstruction::MergeStakes(vec![MergeStakesInstruction {
            validator_address: addr(9),
            main_index: 0,
            additional_index: 1,
        }])
    );
}
