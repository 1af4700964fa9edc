//! Persisted records of the pool: the aggregate ledger, the per-validator
//! stake list, the delayed-withdrawal credit list, and the exchange-rate
//! arithmetic over the ledger's totals.

use vstd::prelude::*;

use crate::addr::Address;
use crate::error::StakePoolError;

verus! {

/// Max validator count.
pub const MAX_VALIDATORS: usize = 100;

/// Minimum stake account balance (0.1 of the base currency).
pub const MIN_STAKE_ACCOUNT_BALANCE: u64 = 100000000;

/// Maximum credit records.
pub const MAX_CREDIT_RECORDS: usize = 10000;

/// Fee rate as a ratio; the fee is minted on deposit.
#[derive(Clone, Copy, Debug, PartialEq, Eq, Structural)]
pub struct Fee {
    /// Denominator of the fee ratio.
    pub denominator: u64,
    /// Numerator of the fee ratio.
    pub numerator: u64,
}

/// Initial values for the stake pool.
#[derive(Clone, Copy, Debug, PartialEq, Eq, Structural)]
pub struct InitArgs {
    /// Fee paid to the owner in pool tokens.
    pub fee: Fee,
}

/// What a handler reads of an account it is handed: its key, the program
/// that owns it, its balance, and whether its keyholder signed.
#[derive(Clone, Copy, Debug)]
pub struct AccountView {
    /// The account's key.
    pub key: Address,
    /// The program that owns the account.
    pub owner: Address,
    /// The account's balance in base-currency units.
    pub lamports: u64,
    /// Whether the account's keyholder signed the transaction.
    pub is_signer: bool,
}

/// Initialized pool details: one record per pool instance.
#[derive(Clone, Copy, Debug, PartialEq)]
pub struct StakePool {
    /// Pool version; 0 means not yet created.
    pub version: u8,
    /// Owner authority; allows for updating the staking authority.
    pub owner: Address,
    /// Deposit authority bump seed.
    pub deposit_bump_seed: u8,
    /// Withdrawal authority bump seed.
    pub withdraw_bump_seed: u8,
    /// Validator stake list storage account.
    pub validator_stake_list: Address,
    /// Credit list storage account.
    pub credit_list: Address,
    /// Pool mint.
    pub pool_mint: Address,
    /// Owner fee account.
    pub owner_fee_account: Address,
    /// Credit reserve.
    pub credit_reserve: Address,
    /// Pool token program id.
    pub token_program_id: Address,
    /// Total stake under management.
    pub stake_total: u64,
    /// Total pool shares outstanding.
    pub pool_total: u64,
    /// Last epoch the `stake_total` field was updated.
    pub last_update_epoch: u64,
    /// Fee applied to deposits.
    pub fee: Fee,
}

/// `floor(amount * num / den)` if `den` is non-zero and the quotient fits
/// in a `u64`; `None` otherwise. All share/stake conversions are instances
/// of this one shape.
pub open spec fn spec_mul_div(amount: u64, num: u64, den: u64) -> Option<u64> {
    if den == 0 {
        None
    } else if (amount as int) * (num as int) / (den as int) > u64::MAX as int {
        None
    } else {
        Some(((amount as int) * (num as int) / (den as int)) as u64)
    }
}

/// Widened multiply-then-divide: the only place the ledger's arithmetic
/// can fail, and exactly when `spec_mul_div` says so.
fn mul_div(amount: u64, num: u64, den: u64) -> (r: Option<u64>)
    ensures
        r == spec_mul_div(amount, num, den),
{
    if den == 0 {
        return None;
    }
    proof {
        assert((amount as int) * (num as int) <= (u64::MAX as int) * (u64::MAX as int))
            by (nonlinear_arith)
            requires
                amount <= u64::MAX,
                num <= u64::MAX,
        ;
    }
    let prod: u128 = (amount as u128) * (num as u128);
    let q: u128 = prod / (den as u128);
    if q > u64::MAX as u128 {
        None
    } else {
        Some(q as u64)
    }
}

impl StakePool {
    /// Calculate the pool tokens that should be minted for a deposit.
    ///
    /// An empty pool (`stake_total == 0`) bootstraps at a one-to-one rate:
    /// the result is then exactly `stake_lamports`.
    pub fn calc_pool_deposit_amount(&self, stake_lamports: u64) -> (r: Option<u64>)
        ensures
            self.stake_total == 0 ==> r == Some(stake_lamports),
            self.stake_total != 0 ==> r == spec_mul_div(
                stake_lamports,
                self.pool_total,
                self.stake_total,
            ),
    {
        if self.stake_total == 0 {
            return Some(stake_lamports);
        }
        self.calc_pool_withdraw_amount(stake_lamports)
    }

    /// Calculate the pool tokens that correspond to `stake_lamports` at the
    /// current exchange rate: `floor(stake_lamports * pool_total / stake_total)`.
    pub fn calc_pool_withdraw_amount(&self, stake_lamports: u64) -> (r: Option<u64>)
        ensures
            r == spec_mul_div(stake_lamports, self.pool_total, self.stake_total),
    {
        mul_div(stake_lamports, self.pool_total, self.stake_total)
    }

    /// Calculate the base-currency amount a holder of `pool_tokens` shares
    /// may claim: `floor(pool_tokens * stake_total / pool_total)`.
    pub fn calc_lamports_amount(&self, pool_tokens: u64) -> (r: Option<u64>)
        ensures
            r == spec_mul_div(pool_tokens, self.stake_total, self.pool_total),
    {
        mul_div(pool_tokens, self.stake_total, self.pool_total)
    }

    /// Calculate the fee in pool tokens that goes to the owner.
    ///
    /// A zero denominator means no fee. For a valid ratio
    /// (`numerator <= denominator`) the fee never exceeds the amount it is
    /// taken from.
    pub fn calc_fee_amount(&self, pool_amount: u64) -> (r: Option<u64>)
        ensures
            self.fee.denominator == 0 ==> r == Some(0u64),
            self.fee.denominator != 0 ==> r == spec_mul_div(
                pool_amount,
                self.fee.numerator,
                self.fee.denominator,
            ),
            self.fee.numerator <= self.fee.denominator ==> r is Some
                && r->Some_0 <= pool_amount,
    {
        if self.fee.denominator == 0 {
            return Some(0);
        }
        proof {
            if self.fee.numerator <= self.fee.denominator {
                lemma_mul_div_le(pool_amount, self.fee.numerator, self.fee.denominator);
            }
        }
        mul_div(pool_amount, self.fee.numerator, self.fee.denominator)
    }

    /// Check owner validity and signature.
    pub fn check_owner(&self, owner_info: &AccountView) -> (r: Result<(), StakePoolError>)
        ensures
            r == (if owner_info.key@ != self.owner@ {
                Err::<(), StakePoolError>(StakePoolError::WrongOwner)
            } else if !owner_info.is_signer {
                Err::<(), StakePoolError>(StakePoolError::SignatureMissing)
            } else {
                Ok::<(), StakePoolError>(())
            }),
    {
        if !owner_info.key.eq_key(&self.owner) {
            return Err(StakePoolError::WrongOwner);
        }
        if !owner_info.is_signer {
            return Err(StakePoolError::SignatureMissing);
        }
        Ok(())
    }

    /// Check if the pool record has been created.
    pub fn is_initialized(&self) -> (r: bool)
        ensures
            r == (self.version > 0),
    {
        self.version > 0
    }
}

/// For a valid fee ratio (`num <= den`, `den != 0`) the fee both fits in a
/// `u64` and is bounded by the amount it is taken from.
pub proof fn lemma_mul_div_le(amount: u64, num: u64, den: u64)
    requires
        num <= den,
        den != 0,
    ensures
        (amount as int) * (num as int) / (den as int) <= amount as int,
        spec_mul_div(amount, num, den) == Some(
            ((amount as int) * (num as int) / (den as int)) as u64,
        ),
{
    assert((amount as int) * (num as int) / (den as int) <= amount as int) by (nonlinear_arith)
        requires
            num <= den,
            0 < den,
            0 <= amount,
    ;
    assert((amount as int) * (num as int) / (den as int) >= 0) by (nonlinear_arith)
        requires
            0 < den,
            0 <= amount,
            0 <= num,
    ;
}

/// Round trip of the exchange rate on a non-empty pool: the shares
/// minted for a deposit of `x` convert back to at most `x` base-currency
/// units, and to no less than `x` minus one unit per share-price step
/// (`stake_total / pool_total`, floored) minus one more for the second
/// floored division.
pub proof fn lemma_deposit_withdraw_round_trip(pool: StakePool, x: u64)
    requires
        pool.stake_total > 0,
        pool.pool_total > 0,
        spec_mul_div(x, pool.pool_total, pool.stake_total) is Some,
    ensures
        ({
            let p = spec_mul_div(x, pool.pool_total, pool.stake_total)->Some_0;
            let back = spec_mul_div(p, pool.stake_total, pool.pool_total);
            &&& back is Some
            &&& back->Some_0 <= x
            &&& x - back->Some_0 <= pool.stake_total as int / pool.pool_total as int + 1
        }),
{
    let t = pool.stake_total as int;
    let pt = pool.pool_total as int;
    let xi = x as int;
    let p = xi * pt / t;
    let r = (xi * pt) % t;
    vstd::arithmetic::div_mod::lemma_fundamental_div_mod(xi * pt, t);
    vstd::arithmetic::div_mod::lemma_mod_bound(xi * pt, t);
    assert(xi * pt >= 0) by (nonlinear_arith)
        requires
            xi >= 0,
            pt >= 0,
    ;
    assert(p >= 0) by (nonlinear_arith)
        requires
            xi * pt == t * p + r,
            0 <= r < t,
            xi * pt >= 0,
            t > 0,
    ;
    let back = p * t / pt;
    let s = (p * t) % pt;
    vstd::arithmetic::div_mod::lemma_fundamental_div_mod(p * t, pt);
    vstd::arithmetic::div_mod::lemma_mod_bound(p * t, pt);
    let q = t / pt;
    let m = t % pt;
    vstd::arithmetic::div_mod::lemma_fundamental_div_mod(t, pt);
    vstd::arithmetic::div_mod::lemma_mod_bound(t, pt);
    assert(pt * (xi - back) == r + s) by (nonlinear_arith)
        requires
            xi * pt == t * p + r,
            p * t == pt * back + s,
    ;
    assert(xi - back >= 0) by (nonlinear_arith)
        requires
            pt * (xi - back) == r + s,
            r >= 0,
            s >= 0,
            pt > 0,
    ;
    assert(xi - back <= q + 1) by (nonlinear_arith)
        requires
            pt * (xi - back) == r + s,
            r <= t - 1,
            s <= pt - 1,
            t == pt * q + m,
            0 <= m < pt,
            pt > 0,
    ;
    assert(back <= xi);
    assert(p * t / pt <= u64::MAX as int);
}

/// Information about a single validator's stake accounts.
#[derive(Clone, Copy, Debug, PartialEq)]
pub struct ValidatorStakeInfo {
    /// Validator account key.
    pub validator_account: Address,
    /// Cached balance in base-currency units, summed over the validator's
    /// live stake sub-accounts.
    pub balance: u64,
    /// Last epoch the `balance` field was updated.
    pub last_update_epoch: u64,
    /// Number of stake sub-account slots in use, densely packed from 0.
    pub stake_count: u32,
}

/// Storage list for all validator stake records in the pool.
#[derive(Clone, Debug, PartialEq)]
pub struct ValidatorStakeList {
    /// Validator stake list version; 0 means not yet created.
    pub version: u8,
    /// All validator stake records.
    pub validators: Vec<ValidatorStakeInfo>,
}

/// Index of the first record for `validator` in `vs`, if any.
pub open spec fn spec_find_validator(vs: Seq<ValidatorStakeInfo>, validator: Seq<u8>) -> Option<
    int,
>
    decreases vs.len(),
{
    if vs.len() == 0 {
        None
    } else if vs[0].validator_account@ == validator {
        Some(0int)
    } else {
        match spec_find_validator(vs.skip(1), validator) {
            Some(i) => Some(i + 1),
            None => None,
        }
    }
}

/// The first match returned by `spec_find_validator` is sound and minimal.
pub proof fn lemma_find_validator(vs: Seq<ValidatorStakeInfo>, validator: Seq<u8>)
    ensures
        match spec_find_validator(vs, validator) {
            Some(i) => 0 <= i < vs.len() && vs[i].validator_account@ == validator && (forall|
                j: int,
            |
                0 <= j < i ==> vs[j].validator_account@ != validator),
            None => forall|j: int| 0 <= j < vs.len() ==> vs[j].validator_account@ != validator,
        },
    decreases vs.len(),
{
    if vs.len() != 0 && vs[0].validator_account@ != validator {
        let rest = vs.skip(1);
        lemma_find_validator(rest, validator);
        assert(forall|j: int| 0 <= j < rest.len() ==> rest[j] == vs[j + 1]);
        match spec_find_validator(rest, validator) {
            Some(i) => {
                assert forall|j: int| 0 <= j < i + 1 implies vs[j].validator_account@
                    != validator by {
                    if j > 0 {
                        assert(rest[j - 1] == vs[j]);
                    }
                }
            },
            None => {
                assert forall|j: int| 0 <= j < vs.len() implies vs[j].validator_account@
                    != validator by {
                    if j > 0 {
                        assert(rest[j - 1] == vs[j]);
                    }
                }
            },
        }
    }
}

/// Sum of the cached balances of all records in `vs`.
pub open spec fn spec_sum_balances(vs: Seq<ValidatorStakeInfo>) -> int
    decreases vs.len(),
{
    if vs.len() == 0 {
        0
    } else {
        spec_sum_balances(vs.drop_last()) + vs.last().balance as int
    }
}

impl ValidatorStakeList {
    /// Version written for a freshly created list.
    pub const VALIDATOR_STAKE_LIST_VERSION: u8 = 1;

    /// Check if the list contains a record for `validator`.
    pub fn contains(&self, validator: &Address) -> (r: bool)
        ensures
            r == (spec_find_validator(self.validators@, validator@) is Some),
    {
        self.find_index(validator).is_some()
    }

    /// Index of the first record for `validator`, if any.
    pub fn find_index(&self, validator: &Address) -> (r: Option<usize>)
        ensures
            match r {
                Some(i) => spec_find_validator(self.validators@, validator@) == Some(i as int),
                None => spec_find_validator(self.validators@, validator@) is None,
            },
    {
        find_validator_index(&self.validators, validator)
    }

    /// First record for `validator`, if any.
    pub fn find(&self, validator: &Address) -> (r: Option<&ValidatorStakeInfo>)
        ensures
            match r {
                Some(v) => {
                    &&& spec_find_validator(self.validators@, validator@) is Some
                    &&& *v == self.validators@[spec_find_validator(
                        self.validators@,
                        validator@,
                    )->Some_0]
                },
                None => spec_find_validator(self.validators@, validator@) is None,
            },
    {
        match self.find_index(validator) {
            Some(i) => {
                proof {
                    lemma_find_validator(self.validators@, validator@);
                }
                Some(&self.validators[i])
            },
            None => None,
        }
    }

    /// Check if the list record has been created.
    pub fn is_initialized(&self) -> (r: bool)
        ensures
            r == (self.version > 0),
    {
        self.version > 0
    }
}

/// Index of the first record for `validator` in `vs`, if any, as
/// executable search.
pub fn find_validator_index(vs: &Vec<ValidatorStakeInfo>, validator: &Address) -> (r: Option<
    usize,
>)
    ensures
        match r {
            Some(i) => spec_find_validator(vs@, validator@) == Some(i as int),
            None => spec_find_validator(vs@, validator@) is None,
        },
{
    proof {
        lemma_find_validator(vs@, validator@);
    }
    let n = vs.len();
    let mut i: usize = 0;
    while i < n
        invariant
            n == vs@.len(),
            i <= n,
            forall|j: int| 0 <= j < i ==> vs@[j].validator_account@ != validator@,
        decreases n - i,
    {
        if vs[i].validator_account.eq_key(validator) {
            proof {
                lemma_find_validator(vs@, validator@);
            }
            return Some(i);
        }
        i += 1;
    }
    None
}

/// One pending delayed-withdrawal claim.
#[derive(Clone, Copy, Debug, PartialEq)]
pub struct CreditRecord {
    /// User account for receiving the base currency.
    pub sol_target: Address,
    /// Authority allowed to cancel the request.
    pub cancel_authority: Address,
    /// Amount of pool tokens set aside.
    pub token_amount: u64,
}

/// List of all pending delayed-withdrawal claims.
#[derive(Clone, Debug, PartialEq)]
pub struct CreditList {
    /// Credit list version; 0 means not yet created.
    pub version: u8,
    /// All pending claims.
    pub credits: Vec<CreditRecord>,
}

/// Index of the first record for `user` in `cs`, if any.
pub open spec fn spec_find_credit(cs: Seq<CreditRecord>, user: Seq<u8>) -> Option<int>
    decreases cs.len(),
{
    if cs.len() == 0 {
        None
    } else if cs[0].sol_target@ == user {
        Some(0int)
    } else {
        match spec_find_credit(cs.skip(1), user) {
            Some(i) => Some(i + 1),
            None => None,
        }
    }
}

impl CreditList {
    /// Version written for a freshly created list.
    pub const VERSION: u8 = 1;

    /// Check if the list contains a claim for `user`.
    pub fn contains(&self, user: &Address) -> (r: bool)
        ensures
            r == (spec_find_credit(self.credits@, user@) is Some),
    {
        let n = self.credits.len();
        let mut i: usize = 0;
        while i < n
            invariant
                n == self.credits@.len(),
                i <= n,
                forall|j: int| 0 <= j < i ==> self.credits@[j].sol_target@ != user@,
            decreases n - i,
        {
            if self.credits[i].sol_target.eq_key(user) {
                proof {
                    lemma_find_credit(self.credits@, user@);
                }
                return true;
            }
            i += 1;
        }
        proof {
            lemma_find_credit(self.credits@, user@);
        }
        false
    }

    /// First claim for `user`, if any.
    pub fn find(&self, user: &Address) -> (r: Option<&CreditRecord>)
        ensures
            match r {
                Some(c) => {
                    &&& spec_find_credit(self.credits@, user@) is Some
                    &&& *c == self.credits@[spec_find_credit(self.credits@, user@)->Some_0]
                },
                None => spec_find_credit(self.credits@, user@) is None,
            },
    {
        proof {
            lemma_find_credit(self.credits@, user@);
        }
        let n = self.credits.len();
        let mut i: usize = 0;
        while i < n
            invariant
                n == self.credits@.len(),
                i <= n,
                forall|j: int| 0 <= j < i ==> self.credits@[j].sol_target@ != user@,
            decreases n - i,
        {
            if self.credits[i].sol_target.eq_key(user) {
                proof {
                    lemma_find_credit(self.credits@, user@);
                }
                return Some(&self.credits[i]);
            }
            i += 1;
        }
        None
    }

    /// Check if the list record has been created.
    pub fn is_initialized(&self) -> (r: bool)
        ensures
            r == (self.version > 0),
    {
        self.version > 0
    }
}

/// The first match returned by `spec_find_credit` is sound and minimal.
pub proof fn lemma_find_credit(cs: Seq<CreditRecord>, user: Seq<u8>)
    ensures
        match spec_find_credit(cs, user) {
            Some(i) => 0 <= i < cs.len() && cs[i].sol_target@ == user && (forall|j: int|
                0 <= j < i ==> cs[j].sol_target@ != user),
            None => forall|j: int| 0 <= j < cs.len() ==> cs[j].sol_target@ != user,
        },
    decreases cs.len(),
{
    if cs.len() != 0 && cs[0].sol_target@ != user {
        let rest = cs.skip(1);
        lemma_find_credit(rest, user);
        assert(forall|j: int| 0 <= j < rest.len() ==> rest[j] == cs[j + 1]);
        match spec_find_credit(rest, user) {
            Some(i) => {
                assert forall|j: int| 0 <= j < i + 1 implies cs[j].sol_target@ != user by {
                    if j > 0 {
                        assert(rest[j - 1] == cs[j]);
                    }
                }
            },
            None => {
                assert forall|j: int| 0 <= j < cs.len() implies cs[j].sol_target@ != user by {
                    if j > 0 {
                        assert(rest[j - 1] == cs[j]);
                    }
                }
            },
        }
    }
}

} // verus!
