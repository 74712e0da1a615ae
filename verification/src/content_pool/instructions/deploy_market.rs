//! Deployment: the first deposit opens the market.
//!
//! The deposit comes with a split between the two sides. Supplies are chosen
//! on the curve's manifold: each side's supply is the root of its allocation
//! times the larger allocation, over the initial price. Two integer points
//! are tried, the base and the one with the smaller side raised by one, and
//! the one whose reserves best keep the ratio of the split is taken.

use vstd::prelude::*;
use vstd::math::max;
use crate::content_pool::curve::{
    norm_sq, sqrt_price_x96, supported_parameters, Q96, TWO_48,
};
use crate::content_pool::errors::ContentPoolError;
use crate::content_pool::events::MarketDeployedEvent;
use crate::content_pool::host::{
    find_address, is_mint, is_token_account, program_address, unpack_mint_decimals,
    unpack_token_account, MINT_DECIMALS_AT,
};
use crate::content_pool::math::{
    is_floor_sqrt, isqrt, isqrt_u128, lemma_isqrt, lemma_isqrt_is, lemma_isqrt_monotone,
    lemma_limb_product, lemma_product_bound, mul_div_u128, mul_shift_right_96, TWO_96,
};
use crate::content_pool::state::{
    address_of, lemma_address_of, pool_seeds, Address, ContentPool, Q32_ONE, TOKEN_SCALE,
};
use crate::pool_factory::state::PoolFactory;

verus! {

/// A point on the manifold that deployment may choose.
#[derive(Clone, Copy, Debug)]
pub struct Candidate {
    pub s_long: u64,
    pub s_short: u64,
    pub lambda_x96: u128,
    pub sqrt_lambda_x96: u128,
    pub sqrt_price_long_x96: u128,
    pub sqrt_price_short_x96: u128,
    pub r_long: u64,
    pub r_short: u64,
    /// `|r_long * A_S - r_short * A_L|`: how far the reserves are from the
    /// ratio of the split.
    pub ratio_error: u128,
}

/// The accounts of a deployment.
#[derive(Clone, Copy, Debug)]
pub struct DeployAccounts {
    /// Address of the pool's record.
    pub pool_key: Address,
    /// Address of the factory's record.
    pub factory_key: Address,
    /// Address of the program, under which the pool's address is derived.
    pub program_id: Address,
    /// Who deploys, and pays the deposit.
    pub deployer: Address,
    /// Mint of the stablecoin.
    pub usdc_mint: Address,
    /// Mint of the LONG token, made for this pool.
    pub long_mint: Address,
    /// Mint of the SHORT token, made for this pool.
    pub short_mint: Address,
    /// The pool's reserve account, made for this pool.
    pub vault: Address,
}

/// What the host's SDKs say of the accounts of a deployment.
#[derive(Clone, Copy, Debug)]
pub struct HostReadings {
    /// The address derived for the pool of this content, if any.
    pub derived_pool: Option<Address>,
    /// Owner and mint of the account that the deposit comes from, if it is a
    /// token account.
    pub deployer_usdc: Option<(Address, Address)>,
    /// Decimals of the stablecoin's mint, if it is a mint.
    pub usdc_decimals: Option<u8>,
}

/// Decimals that the stablecoin must have.
pub const STABLECOIN_DECIMALS: u8 = 6;

/// The pool's record is at the address that is derived for its content.
pub open spec fn at_derived_address(accounts: DeployAccounts, readings: HostReadings) -> bool {
    readings.derived_pool matches Some(derived) && derived.same_as(&accounts.pool_key)
}

/// The accounts fit the pool: the pool belongs to the factory, and the
/// deposit comes from the deployer's own account of the stablecoin, which
/// has six decimals.
pub open spec fn accounts_fit(
    pool: ContentPool,
    accounts: DeployAccounts,
    readings: HostReadings,
) -> bool {
    &&& pool.factory.same_as(&accounts.factory_key)
    &&& readings.deployer_usdc matches Some(held) && held.0.same_as(&accounts.deployer)
        && held.1.same_as(&accounts.usdc_mint)
    &&& readings.usdc_decimals == Some(STABLECOIN_DECIMALS)
}

/// What the SDKs say of a pool's seeds, of the bytes of the account that the
/// deposit comes from, and of the bytes of the stablecoin's mint.
pub open spec fn host_readings(
    content_id: Address,
    program_id: Address,
    deployer_usdc_data: Seq<u8>,
    usdc_mint_data: Seq<u8>,
) -> HostReadings {
    HostReadings {
        derived_pool: match program_address(pool_seeds(content_id), program_id.bytes@) {
            Some(derived) => Some(address_of(derived.0)),
            None => None,
        },
        deployer_usdc: if is_token_account(deployer_usdc_data) {
            Some(
                (
                    address_of(deployer_usdc_data.subrange(32, 64)),
                    address_of(deployer_usdc_data.subrange(0, 32)),
                ),
            )
        } else {
            None
        },
        usdc_decimals: if is_mint(usdc_mint_data) {
            Some(usdc_mint_data[MINT_DECIMALS_AT as int])
        } else {
            None
        },
    }
}

/// What deployment hands back to the host.
#[derive(Clone, Copy, Debug)]
pub struct DeployOutcome {
    pub event: MarketDeployedEvent,
    /// Lambda of the chosen point, Q96.
    pub lambda_q96: u128,
    /// LONG tokens to mint, in atomic units.
    pub long_atomic: u64,
    /// SHORT tokens to mint, in atomic units.
    pub short_atomic: u64,
}

/// Base supply of a side: `floor(sqrt(a * a_ref)) / p0`.
pub open spec fn base_supply(allocation: int, a_ref: int, p0: int) -> int {
    isqrt(allocation * a_ref) / p0
}

/// `floor(deposit * 2^96 / (s_L^2 + s_S^2))`: the deposit per unit of squared
/// norm, Q96.
pub open spec fn deposit_over_norm_sq(deposit: int, s_long: int, s_short: int) -> int {
    (deposit * (TWO_96 as int)) / norm_sq(s_long, s_short)
}

/// Price of a side at deployment, Q96: its supply times the deposit per unit
/// of squared norm.
pub open spec fn deploy_price(deposit: int, s_long: int, s_short: int, s: int) -> int {
    deposit_over_norm_sq(deposit, s_long, s_short) * s
}

/// Lambda that a side's deployment price implies: `floor(p * norm / s)`.
pub open spec fn implied_lambda(deposit: int, s_long: int, s_short: int, s: int) -> int {
    (deploy_price(deposit, s_long, s_short, s) * max(isqrt(norm_sq(s_long, s_short)), 1)) / s
}

/// Reserve of a side at deployment: `floor(p * s / 2^96)`.
pub open spec fn deploy_reserve(deposit: int, s_long: int, s_short: int, s: int) -> int {
    (deploy_price(deposit, s_long, s_short, s) * s) / (TWO_96 as int)
}

/// `|x - y|`.
pub open spec fn abs_diff(x: int, y: int) -> int {
    if x > y {
        x - y
    } else {
        y - x
    }
}

/// The point with the supplies `(s_long, s_short)`, or the overflow that
/// stops its computation.
pub open spec fn candidate_result(
    deposit: int,
    a_long: int,
    a_short: int,
    s_long: int,
    s_short: int,
) -> Result<Candidate, ContentPoolError> {
    let p_long = deploy_price(deposit, s_long, s_short, s_long);
    let p_short = deploy_price(deposit, s_long, s_short, s_short);
    let lambda_long = implied_lambda(deposit, s_long, s_short, s_long);
    let lambda_short = implied_lambda(deposit, s_long, s_short, s_short);
    let lambda = max(lambda_long, lambda_short);
    let r_long = deploy_reserve(deposit, s_long, s_short, s_long);
    let r_short = deploy_reserve(deposit, s_long, s_short, s_short);
    if s_long > u64::MAX || s_short > u64::MAX || norm_sq(s_long, s_short) > u128::MAX
        || deposit_over_norm_sq(deposit, s_long, s_short) > u128::MAX || p_long > u128::MAX
        || p_short > u128::MAX || lambda_long > u128::MAX || lambda_short > u128::MAX || r_long
        > u64::MAX || r_short > u64::MAX {
        Err(ContentPoolError::NumericalOverflow)
    } else {
        Ok(
            Candidate {
                s_long: s_long as u64,
                s_short: s_short as u64,
                lambda_x96: lambda as u128,
                sqrt_lambda_x96: sqrt_price_x96(lambda) as u128,
                sqrt_price_long_x96: sqrt_price_x96(p_long) as u128,
                sqrt_price_short_x96: sqrt_price_x96(p_short) as u128,
                r_long: r_long as u64,
                r_short: r_short as u64,
                ratio_error: abs_diff(r_long * a_short, r_short * a_long) as u128,
            },
        )
    }
}

/// The point that deployment chooses: the base point, unless the point with
/// the smaller side raised by one has the strictly smaller ratio error.
pub open spec fn chosen_candidate(deposit: int, a_long: int, a_short: int, p0: int) -> Result<
    Candidate,
    ContentPoolError,
> {
    let a_ref = max(a_long, a_short);
    let s_l0 = base_supply(a_long, a_ref, p0);
    let s_s0 = base_supply(a_short, a_ref, p0);
    let bumped = if s_l0 >= s_s0 {
        (s_l0, s_s0 + 1)
    } else {
        (s_l0 + 1, s_s0)
    };
    match candidate_result(deposit, a_long, a_short, s_l0, s_s0) {
        Err(e) => Err(e),
        Ok(base) => match candidate_result(deposit, a_long, a_short, bumped.0, bumped.1) {
            Err(e) => Err(e),
            Ok(other) => if other.ratio_error < base.ratio_error {
                Ok(other)
            } else {
                Ok(base)
            },
        },
    }
}

/// The prediction at deployment, Q32.32, from the reserves: the LONG share
/// in basis points, rescaled; one half where there are no reserves.
pub open spec fn initial_q_of(r_long: int, r_short: int) -> int {
    let bps = if r_long + r_short > 0 {
        (r_long * 10000) / (r_long + r_short)
    } else {
        5000
    };
    (bps * (Q32_ONE as int)) / 10000
}

/// What deployment does: the pool it leaves and what it hands back, or the
/// error.
pub open spec fn deploy_result(
    pool: ContentPool,
    factory: PoolFactory,
    accounts: DeployAccounts,
    readings: HostReadings,
    now: i64,
    initial_deposit: u64,
    long_allocation: u64,
) -> Result<(ContentPool, DeployOutcome), ContentPoolError> {
    let short_allocation = initial_deposit - long_allocation;
    let p0 = factory.default_p0;
    if !at_derived_address(accounts, readings) {
        Err(ContentPoolError::InvalidParameter)
    } else if pool.is_deployed() {
        Err(ContentPoolError::MarketAlreadyDeployed)
    } else if !accounts_fit(pool, accounts, readings) {
        Err(ContentPoolError::InvalidParameter)
    } else if !supported_parameters(pool.f, pool.beta_num, pool.beta_den) {
        Err(ContentPoolError::InvalidParameter)
    } else if initial_deposit < factory.min_initial_deposit {
        Err(ContentPoolError::BelowMinimumDeposit)
    } else if long_allocation > initial_deposit || long_allocation == 0 || short_allocation == 0
        || long_allocation < 10 * p0 || short_allocation < 10 * p0 {
        Err(ContentPoolError::InvalidAllocation)
    } else if p0 == 0 {
        Err(ContentPoolError::InvalidParameter)
    } else {
        match chosen_candidate(
            initial_deposit as int,
            long_allocation as int,
            short_allocation,
            p0 as int,
        ) {
            Err(e) => Err(e),
            Ok(chosen) => {
                let r_sum = chosen.r_long + chosen.r_short;
                if abs_diff(r_sum, initial_deposit as int) > initial_deposit / 10000 || r_sum
                    > u64::MAX || chosen.s_long * TOKEN_SCALE > u64::MAX || chosen.s_short
                    * TOKEN_SCALE > u64::MAX {
                    Err(ContentPoolError::NumericalOverflow)
                } else {
                    let after = ContentPool {
                        market_deployer: accounts.deployer,
                        long_mint: accounts.long_mint,
                        short_mint: accounts.short_mint,
                        vault: accounts.vault,
                        s_long: chosen.s_long,
                        s_short: chosen.s_short,
                        r_long: chosen.r_long,
                        r_short: chosen.r_short,
                        lambda_long_q96: chosen.sqrt_lambda_x96,
                        lambda_short_q96: chosen.sqrt_lambda_x96,
                        sqrt_price_long_x96: chosen.sqrt_price_long_x96,
                        sqrt_price_short_x96: chosen.sqrt_price_short_x96,
                        initial_q: initial_q_of(chosen.r_long as int, chosen.r_short as int) as u64,
                        vault_balance: r_sum as u64,
                        ..pool
                    };
                    Ok(
                        (
                            after,
                            DeployOutcome {
                                event: MarketDeployedEvent {
                                    pool: accounts.pool_key,
                                    deployer: accounts.deployer,
                                    initial_deposit,
                                    long_allocation,
                                    short_allocation: short_allocation as u64,
                                    initial_q: after.initial_q,
                                    long_tokens: chosen.s_long,
                                    short_tokens: chosen.s_short,
                                    timestamp: now,
                                },
                                lambda_q96: chosen.lambda_x96,
                                long_atomic: (chosen.s_long * TOKEN_SCALE) as u64,
                                short_atomic: (chosen.s_short * TOKEN_SCALE) as u64,
                            },
                        ),
                    )
                }
            },
        }
    }
}

/// `floor(sqrt(p)) * 2^48`.
fn root_x96(p: u128) -> (r: u128)
    ensures
        r == sqrt_price_x96(p as int),
{
    let root = isqrt_u128(p);
    proof {
        crate::content_pool::curve::lemma_isqrt_word(p);
        lemma_product_bound(
            root as int,
            TWO_48 as int,
            0xffff_ffff_ffff_ffff,
            0x1_0000_0000_0000,
        );
    }
    root * TWO_48
}

/// Compute the point with the supplies `(s_long, s_short)`.
fn candidate(deposit: u64, a_long: u64, a_short: u64, s_long: u128, s_short: u128) -> (res: Result<
    Candidate,
    ContentPoolError,
>)
    requires
        s_long >= 1,
        s_short >= 1,
        s_long <= 0x1_0000_0000_0000_0000,
        s_short <= 0x1_0000_0000_0000_0000,
    ensures
        res == candidate_result(
            deposit as int,
            a_long as int,
            a_short as int,
            s_long as int,
            s_short as int,
        ),
{
    if s_long > u64::MAX as u128 || s_short > u64::MAX as u128 {
        return Err(ContentPoolError::NumericalOverflow);
    }
    proof {
        lemma_limb_product(s_long, s_long);
        lemma_limb_product(s_short, s_short);
        assert(s_long * s_long >= 1) by (nonlinear_arith)
            requires
                s_long >= 1,
        ;
    }
    let n2 = match (s_long * s_long).checked_add(s_short * s_short) {
        Some(v) => v,
        None => {
            return Err(ContentPoolError::NumericalOverflow);
        },
    };
    let d_over_n2_q96 = match mul_div_u128(deposit as u128, Q96, n2) {
        Ok(v) => v,
        Err(_) => {
            return Err(ContentPoolError::NumericalOverflow);
        },
    };
    let p_long_q96 = match d_over_n2_q96.checked_mul(s_long) {
        Some(v) => v,
        None => {
            return Err(ContentPoolError::NumericalOverflow);
        },
    };
    let p_short_q96 = match d_over_n2_q96.checked_mul(s_short) {
        Some(v) => v,
        None => {
            return Err(ContentPoolError::NumericalOverflow);
        },
    };
    let sqrt_price_long_x96 = root_x96(p_long_q96);
    let sqrt_price_short_x96 = root_x96(p_short_q96);
    let root = isqrt_u128(n2);
    let s_norm_int: u128 = if root < 1 {
        1
    } else {
        root
    };
    let lambda_q96_from_long = match mul_div_u128(p_long_q96, s_norm_int, s_long) {
        Ok(v) => v,
        Err(_) => {
            return Err(ContentPoolError::NumericalOverflow);
        },
    };
    let lambda_q96_from_short = match mul_div_u128(p_short_q96, s_norm_int, s_short) {
        Ok(v) => v,
        Err(_) => {
            return Err(ContentPoolError::NumericalOverflow);
        },
    };
    let lambda_x96: u128 = if lambda_q96_from_long >= lambda_q96_from_short {
        lambda_q96_from_long
    } else {
        lambda_q96_from_short
    };
    let sqrt_lambda_x96 = root_x96(lambda_x96);
    let r_long = match mul_shift_right_96(p_long_q96, s_long) {
        Ok(v) => v,
        Err(_) => {
            return Err(ContentPoolError::NumericalOverflow);
        },
    };
    let r_short = match mul_shift_right_96(p_short_q96, s_short) {
        Ok(v) => v,
        Err(_) => {
            return Err(ContentPoolError::NumericalOverflow);
        },
    };
    if r_long > u64::MAX as u128 || r_short > u64::MAX as u128 {
        return Err(ContentPoolError::NumericalOverflow);
    }
    proof {
        lemma_limb_product(r_long, a_short as u128);
        lemma_limb_product(r_short, a_long as u128);
    }
    let cross_l: u128 = r_long * (a_short as u128);
    let cross_s: u128 = r_short * (a_long as u128);
    let ratio_error: u128 = if cross_l > cross_s {
        cross_l - cross_s
    } else {
        cross_s - cross_l
    };
    Ok(
        Candidate {
            s_long: s_long as u64,
            s_short: s_short as u64,
            lambda_x96,
            sqrt_lambda_x96,
            sqrt_price_long_x96,
            sqrt_price_short_x96,
            r_long: r_long as u64,
            r_short: r_short as u64,
            ratio_error,
        },
    )
}

/// An allocation of at least ten initial prices gives a base supply of at
/// least ten tokens.
proof fn lemma_base_supply_at_least_ten(allocation: int, a_ref: int, p0: int)
    requires
        0 < p0,
        10 * p0 <= allocation <= a_ref,
        a_ref <= u64::MAX,
    ensures
        10 <= base_supply(allocation, a_ref, p0) < 0x1_0000_0000_0000_0000,
        0 <= allocation * a_ref <= u128::MAX,
{
    assert(allocation * allocation <= allocation * a_ref) by (nonlinear_arith)
        requires
            0 <= allocation <= a_ref,
    ;
    assert(0 <= allocation * allocation) by (nonlinear_arith);
    assert(allocation * a_ref <= 0xffff_ffff_ffff_ffff * 0xffff_ffff_ffff_ffff)
        by (nonlinear_arith)
        requires
            0 <= allocation <= 0xffff_ffff_ffff_ffff,
            0 <= a_ref <= 0xffff_ffff_ffff_ffff,
    ;
    assert(is_floor_sqrt(allocation * allocation, allocation)) by (nonlinear_arith)
        requires
            0 <= allocation,
    ;
    lemma_isqrt_is(allocation * allocation, allocation);
    lemma_isqrt_monotone(allocation * allocation, allocation * a_ref);
    lemma_isqrt(allocation * a_ref);
    let root = isqrt(allocation * a_ref);
    if root >= 0x1_0000_0000_0000_0000 {
        assert(root * root >= 0x1_0000_0000_0000_0000 * 0x1_0000_0000_0000_0000)
            by (nonlinear_arith)
            requires
                root >= 0x1_0000_0000_0000_0000,
        ;
    }
    vstd::arithmetic::div_mod::lemma_div_is_ordered(10 * p0, root, p0);
    vstd::arithmetic::div_mod::lemma_div_multiples_vanish(10, p0);
    assert(10 * p0 == p0 * 10);
    vstd::arithmetic::div_mod::lemma_div_is_ordered_by_denominator(root, 1, p0);
}

/// Deploy the market with `initial_deposit`, of which `long_allocation` is
/// for the LONG side and the rest for the SHORT side, given what the host's
/// SDKs say of the accounts.
///
/// The accounts must fit the pool, and each allocation must be at least ten
/// times the factory's initial price. On success the pool holds the deployed
/// state: supplies of at least ten tokens a side, reserves that add up to
/// the vault balance, and a vault balance within one basis point of the
/// deposit. On an error the pool is unchanged.
pub fn deploy_with(
    pool: &mut ContentPool,
    factory: &PoolFactory,
    accounts: &DeployAccounts,
    readings: &HostReadings,
    now: i64,
    initial_deposit: u64,
    long_allocation: u64,
) -> (res: Result<DeployOutcome, ContentPoolError>)
    ensures
        match res {
            Ok(outcome) => deploy_result(
                *old(pool),
                *factory,
                *accounts,
                *readings,
                now,
                initial_deposit,
                long_allocation,
            ) == Ok::<(ContentPool, DeployOutcome), ContentPoolError>((*final(pool), outcome)),
            Err(e) => deploy_result(
                *old(pool),
                *factory,
                *accounts,
                *readings,
                now,
                initial_deposit,
                long_allocation,
            ) == Err::<(ContentPool, DeployOutcome), ContentPoolError>(e) && *final(pool) == *old(
                pool
            ),
        },
        res is Ok ==> final(pool).reserves_match_vault() && abs_diff(
            final(pool).r_long + final(pool).r_short,
            initial_deposit as int,
        ) <= initial_deposit / 10000 && final(pool).s_long >= 10 && final(pool).s_short >= 10,
{
    match readings.derived_pool {
        Some(derived) => {
            if !derived.equals(&accounts.pool_key) {
                return Err(ContentPoolError::InvalidParameter);
            }
        },
        None => {
            return Err(ContentPoolError::InvalidParameter);
        },
    }
    if !pool.market_deployer.is_default() {
        return Err(ContentPoolError::MarketAlreadyDeployed);
    }
    if !pool.factory.equals(&accounts.factory_key) {
        return Err(ContentPoolError::InvalidParameter);
    }
    match readings.deployer_usdc {
        Some(held) => {
            if !held.0.equals(&accounts.deployer) || !held.1.equals(&accounts.usdc_mint) {
                return Err(ContentPoolError::InvalidParameter);
            }
        },
        None => {
            return Err(ContentPoolError::InvalidParameter);
        },
    }
    match readings.usdc_decimals {
        Some(decimals) => {
            if decimals != STABLECOIN_DECIMALS {
                return Err(ContentPoolError::InvalidParameter);
            }
        },
        None => {
            return Err(ContentPoolError::InvalidParameter);
        },
    }
    if pool.f != 1 || pool.beta_num != 1 || pool.beta_den != 2 {
        return Err(ContentPoolError::InvalidParameter);
    }
    if initial_deposit < factory.min_initial_deposit {
        return Err(ContentPoolError::BelowMinimumDeposit);
    }
    if long_allocation > initial_deposit {
        return Err(ContentPoolError::InvalidAllocation);
    }
    let short_allocation: u64 = initial_deposit - long_allocation;
    let p0: u64 = factory.default_p0;
    let least: u128 = 10 * (p0 as u128);
    if long_allocation == 0 || short_allocation == 0 || (long_allocation as u128) < least || (
    short_allocation as u128) < least {
        return Err(ContentPoolError::InvalidAllocation);
    }
    if p0 == 0 {
        return Err(ContentPoolError::InvalidParameter);
    }
    let a_l: u128 = long_allocation as u128;
    let a_s: u128 = short_allocation as u128;
    let a_ref: u128 = if a_l >= a_s {
        a_l
    } else {
        a_s
    };
    proof {
        lemma_base_supply_at_least_ten(a_l as int, a_ref as int, p0 as int);
        lemma_base_supply_at_least_ten(a_s as int, a_ref as int, p0 as int);
    }
    let s_l0: u128 = isqrt_u128(a_l * a_ref) / (p0 as u128);
    let s_s0: u128 = isqrt_u128(a_s * a_ref) / (p0 as u128);
    let base = match candidate(initial_deposit, long_allocation, short_allocation, s_l0, s_s0) {
        Ok(v) => v,
        Err(e) => {
            return Err(e);
        },
    };
    let bumped = if s_l0 >= s_s0 {
        candidate(initial_deposit, long_allocation, short_allocation, s_l0, s_s0 + 1)
    } else {
        candidate(initial_deposit, long_allocation, short_allocation, s_l0 + 1, s_s0)
    };
    let bumped = match bumped {
        Ok(v) => v,
        Err(e) => {
            return Err(e);
        },
    };
    let chosen: Candidate = if bumped.ratio_error < base.ratio_error {
        bumped
    } else {
        base
    };
    let r_sum: u128 = chosen.r_long as u128 + chosen.r_short as u128;
    let deposit_u128: u128 = initial_deposit as u128;
    let diff: u128 = if r_sum > deposit_u128 {
        r_sum - deposit_u128
    } else {
        deposit_u128 - r_sum
    };
    if diff > deposit_u128 / 10_000 {
        return Err(ContentPoolError::NumericalOverflow);
    }
    if r_sum > u64::MAX as u128 {
        return Err(ContentPoolError::NumericalOverflow);
    }
    let long_atomic = match chosen.s_long.checked_mul(TOKEN_SCALE) {
        Some(v) => v,
        None => {
            return Err(ContentPoolError::NumericalOverflow);
        },
    };
    let short_atomic = match chosen.s_short.checked_mul(TOKEN_SCALE) {
        Some(v) => v,
        None => {
            return Err(ContentPoolError::NumericalOverflow);
        },
    };
    let initial_q_bps: u128 = if r_sum > 0 {
        proof {
            let r = chosen.r_long as int;
            let t = r_sum as int;
            assert(0 <= r * 10000 <= t * 10000);
            vstd::arithmetic::div_mod::lemma_div_is_ordered(r * 10000, t * 10000, t);
            vstd::arithmetic::div_mod::lemma_div_multiples_vanish(10000, t);
            assert(t * 10000 == 10000 * t);
        }
        ((chosen.r_long as u128) * 10_000) / r_sum
    } else {
        5_000
    };
    proof {
        lemma_product_bound(initial_q_bps as int, Q32_ONE as int, 10_000, 0x1_0000_0000);
    }
    let initial_q: u64 = ((initial_q_bps * (Q32_ONE as u128)) / 10_000) as u64;
    pool.market_deployer = accounts.deployer;
    pool.long_mint = accounts.long_mint;
    pool.short_mint = accounts.short_mint;
    pool.vault = accounts.vault;
    pool.s_long = chosen.s_long;
    pool.s_short = chosen.s_short;
    pool.r_long = chosen.r_long;
    pool.r_short = chosen.r_short;
    pool.lambda_long_q96 = chosen.sqrt_lambda_x96;
    pool.lambda_short_q96 = chosen.sqrt_lambda_x96;
    pool.sqrt_price_long_x96 = chosen.sqrt_price_long_x96;
    pool.sqrt_price_short_x96 = chosen.sqrt_price_short_x96;
    pool.initial_q = initial_q;
    pool.vault_balance = r_sum as u64;
    Ok(
        DeployOutcome {
            event: MarketDeployedEvent {
                pool: accounts.pool_key,
                deployer: accounts.deployer,
                initial_deposit,
                long_allocation,
                short_allocation,
                initial_q,
                long_tokens: chosen.s_long,
                short_tokens: chosen.s_short,
                timestamp: now,
            },
            lambda_q96: chosen.lambda_x96,
            long_atomic,
            short_atomic,
        },
    )
}

/// Deploy the market with `initial_deposit`, of which `long_allocation` is
/// for the LONG side and the rest for the SHORT side.
///
/// `deployer_usdc_data` holds the bytes of the account that the deposit
/// comes from and `usdc_mint_data` the bytes of the stablecoin's mint. The
/// host's SDKs derive the pool's address and read the two accounts; the rest
/// is `deploy_with`.
pub fn handler(
    pool: &mut ContentPool,
    factory: &PoolFactory,
    accounts: &DeployAccounts,
    deployer_usdc_data: &[u8],
    usdc_mint_data: &[u8],
    now: i64,
    initial_deposit: u64,
    long_allocation: u64,
) -> (res: Result<DeployOutcome, ContentPoolError>)
    ensures
        match res {
            Ok(outcome) => deploy_result(
                *old(pool),
                *factory,
                *accounts,
                host_readings(
                    old(pool).content_id,
                    accounts.program_id,
                    deployer_usdc_data@,
                    usdc_mint_data@,
                ),
                now,
                initial_deposit,
                long_allocation,
            ) == Ok::<(ContentPool, DeployOutcome), ContentPoolError>((*final(pool), outcome)),
            Err(e) => deploy_result(
                *old(pool),
                *factory,
                *accounts,
                host_readings(
                    old(pool).content_id,
                    accounts.program_id,
                    deployer_usdc_data@,
                    usdc_mint_data@,
                ),
                now,
                initial_deposit,
                long_allocation,
            ) == Err::<(ContentPool, DeployOutcome), ContentPoolError>(e) && *final(pool) == *old(
                pool
            ),
        },
        res is Ok ==> final(pool).reserves_match_vault() && abs_diff(
            final(pool).r_long + final(pool).r_short,
            initial_deposit as int,
        ) <= initial_deposit / 10000 && final(pool).s_long >= 10 && final(pool).s_short >= 10,
{
    let seeds = pool.seeds();
    let derived_pool = match find_address(&seeds, &accounts.program_id) {
        Some(found) => {
            proof {
                lemma_address_of(found.0);
            }
            Some(found.0)
        },
        None => None,
    };
    let deployer_usdc = unpack_token_account(deployer_usdc_data);
    proof {
        match deployer_usdc {
            Some(held) => {
                lemma_address_of(held.0);
                lemma_address_of(held.1);
            },
            None => {},
        }
    }
    let usdc_decimals = unpack_mint_decimals(usdc_mint_data);
    let readings = HostReadings { derived_pool, deployer_usdc, usdc_decimals };
    deploy_with(pool, factory, accounts, &readings, now, initial_deposit, long_allocation)
}

} // verus!
