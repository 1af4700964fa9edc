use stake_pool::addr::Address;
use stake_pool::state::Fee;
use stake_pool::state::StakePool;

fn pool_with(stake_total: u64, pool_total: u64, fee: Fee) -> StakePool {
    StakePool {
        version: 1,
        owner: Address { bytes: [1; 32] },
        deposit_bump_seed: 0,
        withdraw_bump_seed: 0,
        validator_stake_list: Address { bytes: [2; 32] },
        credit_list: Address { bytes: [3; 32] },
        pool_mint: Address { bytes: [4; 32] },
        owner_fee_account: Address { bytes: [5; 32] },
        credit_reserve: Address { bytes: [6; 32] },
        token_program_id: Address { bytes: [7; 32] },
        stake_total,
        pool_total,
        last_update_epoch: 0,
        fee,
    }
}

#[test]
fn bootstrap_rate_is_one_to_one() {
    let pool = pool_with(0, 0, Fee { denominator: 0, numerator: 0 });
    assert_eq!(pool.calc_pool_deposit_amount(0), Some(0));
    assert_eq!(pool.calc_pool_deposit_amount(1), Some(1));
    assert_eq!(pool.calc_pool_deposit_amount(123456789), Some(123456789));
    assert_eq!(pool.calc_pool_deposit_amount(u64::MAX), Some(u64::MAX));
}

#[test]
fn deposit_amount_tracks_exchange_rate() {
    // 2000 lamports back 1000 shares: each share is worth 2 lamports
    let pool = pool_with(2000, 1000, Fee { denominator: 0, numerator: 0 });
    assert_eq!(pool.calc_pool_deposit_amount(10), Some(5));
    assert_eq!(pool.calc_pool_deposit_amount(11), Some(5));
    assert_eq!(pool.calc_lamports_amount(5), Some(10));
}

#[test]
fn withdraw_amount_divides_by_zero_pool_total() {
    let pool = pool_with(2000, 0, Fee { denominator: 0, numerator: 0 });
    assert_eq!(pool.calc_lamports_amount(5), None);
}

#[test]
fn calc_overflow_is_reported() {
    // one share worth u64::MAX lamports: two shares do not fit
    let pool = pool_with(u64::MAX, 1, Fee { denominator: 0, numerator: 0 });
    assert_eq!(pool.calc_lamports_amount(2), None);
    assert_eq!(pool.calc_lamports_amount(1), Some(u64::MAX));
}

#[test]
fn fee_amount_zero_denominator_means_no_fee() {
    let pool = pool_with(1, 1, Fee { denominator: 0, numerator: 5 });
    assert_eq!(pool.calc_fee_amount(1000), Some(0));
}

#[test]
fn fee_amount_is_bounded_by_input() {
    let pool = pool_with(1, 1, Fee { denominator: 100, numerator: 1 });
    assert_eq!(pool.calc_fee_amount(100), Some(1));
    assert_eq!(pool.calc_fee_amount(99), Some(0));
    let even = pool_with(1, 1, Fee { denominator: 1, numerator: 1 });
    assert_eq!(even.calc_fee_amount(u64::MAX), Some(u64::MAX));
    let half = pool_with(1, 1, Fee { denominator: 2, numerator: 1 });
    assert_eq!(half.calc_fee_amount(7), Some(3));
}

#[test]
fn deposit_withdraw_round_trip_within_one_price_step() {
    // pool at par: the round trip is exact
    let pool = pool_with(1000, 1000, Fee { denominator: 0, numerator: 0 });
    let shares = pool.calc_pool_deposit_amount(123).unwrap();
    assert_eq!(shares, 123);
    assert_eq!(pool.calc_lamports_amount(shares), Some(123));

    // pool above par: the round trip loses at most
    // stake_total / pool_total + 1 units
    let pool = pool_with(3000, 1000, Fee { denominator: 0, numerator: 0 });
    for x in [0u64, 1, 2, 3, 4, 5, 100, 999, 1000, 12345] {
        let shares = pool.calc_pool_deposit_amount(x).unwrap();
        let back = pool.calc_lamports_amount(shares).unwrap();
        assert!(back <= x);
        assert!(x - back <= 3000 / 1000 + 1);
    }
}
