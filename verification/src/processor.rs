//! The instruction processor: one-shot state transitions that validate an
//! instruction against the pool's status and the live balances, apply the
//! pricing engine, and return the settlement the host must carry out.
//!
//! The processor performs no transfer itself. It either fails — before
//! directing anything, leaving every balance and the record untouched — or
//! returns the updated pool record together with a [`Settlement`] listing
//! every transfer, mint and burn the enclosing host call must perform
//! atomically. Reserves are never cached on the record: callers pass the
//! balances they read from the authoritative accounts at call time.

use vstd::prelude::*;

use crate::error::AmmError;
use crate::math;
use crate::math::{
    charge_for_lp, deposit_ratio, is_floor_sqrt, lp_due, net_input, swap_input_arith_fails,
    swap_input_required, swap_output, withdraw_out,
};
use crate::state::{Pool, PoolStatus};

verus! {

/// Which way a swap trades: which vault takes the input and which pays the
/// output. The decoder derives this from the account references the
/// instruction touches.
#[derive(Clone, Copy, Debug, PartialEq, Eq, Structural)]
pub enum SwapDirection {
    /// The trader pays asset A and receives asset B.
    AToB,
    /// The trader pays asset B and receives asset A.
    BToA,
}

/// One decoded instruction, as handed over by the external byte decoder.
#[derive(Clone, Copy, Debug, PartialEq, Eq, Structural)]
pub enum Instruction {
    /// Bootstrap the pool from its freshly funded vaults.
    Initialize,
    /// Add liquidity on both sides for newly minted claim tokens.
    Deposit { amount_a: u64, amount_b: u64 },
    /// Burn claim tokens for a proportional share of both reserves.
    Withdraw { lp_amount: u64 },
    /// Trade a fixed input for at least `min_amount_out` of the other asset.
    SwapExactInput { direction: SwapDirection, amount_in: u64, min_amount_out: u64 },
    /// Trade at most `max_amount_in` for a fixed output of the other asset.
    SwapExactOutput { direction: SwapDirection, amount_out: u64, max_amount_in: u64 },
}

/// Balances read live from the authoritative accounts at call time. Nothing
/// here is cached across calls: the host reads the vaults, the claim mint and
/// the order-book adaptor immediately before processing.
#[derive(Clone, Copy, Debug, PartialEq, Eq, Structural)]
pub struct LiveBalances {
    /// Asset A held by the pool's vault.
    pub reserve_a: u64,
    /// Asset B held by the pool's vault.
    pub reserve_b: u64,
    /// Asset A the order-book adaptor reports as externally held for the
    /// pool; folded into the effective reserve when an order book is
    /// configured.
    pub external_a: u64,
    /// Asset B the order-book adaptor reports as externally held.
    pub external_b: u64,
    /// Total outstanding LP claim tokens.
    pub lp_supply: u64,
    /// LP claim tokens held by the calling account.
    pub caller_lp_balance: u64,
}

/// The transfers, mints and burns a successful instruction directs. The host
/// performs all of them or none: the processor never interleaves action with
/// validation.
#[derive(Clone, Copy, Debug, PartialEq, Eq, Structural)]
pub enum Settlement {
    /// Mint `lp_minted` to the initializer and `lp_locked` to the permanent
    /// lock; the vaults' funding becomes the initial reserves.
    PoolInitialized { lp_minted: u64, lp_locked: u64 },
    /// Transfer `used_a` and `used_b` from the depositor to the vaults and
    /// mint `lp_minted` to the depositor.
    Deposited { used_a: u64, used_b: u64, lp_minted: u64 },
    /// Burn `lp_burned` from the withdrawer and transfer `out_a` and `out_b`
    /// from the vaults to the withdrawer.
    Withdrawn { lp_burned: u64, out_a: u64, out_b: u64 },
    /// Transfer `amount_in` from the trader to the input vault and
    /// `amount_out` from the output vault to the trader.
    Swapped { direction: SwapDirection, amount_in: u64, amount_out: u64 },
}

/// A vault's effective reserve for pricing: the live vault balance, plus the
/// externally held amount when an order book is configured. The reported
/// amount is treated as an opaque additive term.
pub open spec fn effective_reserve(pool: Pool, reserve: int, external: int) -> int {
    if pool.order_book_ref is Some {
        reserve + external
    } else {
        reserve
    }
}

/// The effective reserve on the side the trader pays into.
pub open spec fn swap_reserve_in(pool: Pool, live: LiveBalances, direction: SwapDirection) -> int {
    match direction {
        SwapDirection::AToB => effective_reserve(pool, live.reserve_a as int, live.external_a as int),
        SwapDirection::BToA => effective_reserve(pool, live.reserve_b as int, live.external_b as int),
    }
}

/// The effective reserve on the side the trader is paid from.
pub open spec fn swap_reserve_out(pool: Pool, live: LiveBalances, direction: SwapDirection) -> int {
    match direction {
        SwapDirection::AToB => effective_reserve(pool, live.reserve_b as int, live.external_b as int),
        SwapDirection::BToA => effective_reserve(pool, live.reserve_a as int, live.external_a as int),
    }
}

/// The LP supply floor the pool must keep: the configured minimum while the
/// pool is `Initialized`, nothing once it is winding down.
pub open spec fn effective_floor(pool: Pool) -> int {
    if pool.status == PoolStatus::Initialized {
        pool.min_liquidity_floor as int
    } else {
        0
    }
}

/// Why `Initialize` fails, or `None` when it succeeds: the pool must be
/// untouched, the claim mint empty, both vaults freshly funded, and the
/// bootstrap mint strictly positive.
pub open spec fn initialize_outcome(pool: Pool, live: LiveBalances) -> Option<AmmError> {
    if pool.status != PoolStatus::Uninitialized {
        Some(AmmError::StateError)
    } else if live.lp_supply != 0 {
        Some(AmmError::StateError)
    } else if live.reserve_a == 0 || live.reserve_b == 0 {
        Some(AmmError::StateError)
    } else if (pool.min_liquidity_floor + 1) * (pool.min_liquidity_floor + 1)
        > live.reserve_a as int * live.reserve_b as int {
        Some(AmmError::InsufficientLiquidity)
    } else {
        None
    }
}

/// What a successful `Initialize` hands back: the record moved to
/// `Initialized` and a bootstrap mint whose total (minted plus locked) is the
/// floor square root of the funded reserves' product.
pub open spec fn initialize_settles(
    pool: Pool,
    live: LiveBalances,
    new_pool: Pool,
    s: Settlement,
) -> bool {
    &&& new_pool == (Pool { status: PoolStatus::Initialized, ..pool })
    &&& (match s {
        Settlement::PoolInitialized { lp_minted, lp_locked } => {
            &&& lp_locked == pool.min_liquidity_floor
            &&& lp_minted >= 1
            &&& is_floor_sqrt(
                lp_minted + lp_locked,
                live.reserve_a as int * live.reserve_b as int,
            )
        },
        _ => false,
    })
}

/// Why `Deposit` fails, or `None` when it succeeds.
pub open spec fn deposit_outcome(
    pool: Pool,
    live: LiveBalances,
    amount_a: u64,
    amount_b: u64,
) -> Option<AmmError> {
    if pool.status != PoolStatus::Initialized {
        Some(AmmError::StateError)
    } else if live.lp_supply == 0 {
        Some(AmmError::StateError)
    } else if live.reserve_a == 0 || live.reserve_b == 0 {
        Some(AmmError::ArithmeticError)
    } else if lp_due(
        amount_a as int,
        amount_b as int,
        live.reserve_a as int,
        live.reserve_b as int,
        live.lp_supply as int,
    ) > u64::MAX as int {
        Some(AmmError::ArithmeticError)
    } else {
        None
    }
}

/// What a successful `Deposit` hands back: the record untouched, the smaller
/// claim ratio minted, the larger side charged only the ceiling of its
/// proportional share.
pub open spec fn deposit_settles(
    pool: Pool,
    live: LiveBalances,
    amount_a: u64,
    amount_b: u64,
    new_pool: Pool,
    s: Settlement,
) -> bool {
    &&& new_pool == pool
    &&& (match s {
        Settlement::Deposited { used_a, used_b, lp_minted } => {
            let ra = live.reserve_a as int;
            let rb = live.reserve_b as int;
            let sup = live.lp_supply as int;
            &&& lp_minted as int == lp_due(amount_a as int, amount_b as int, ra, rb, sup)
            &&& (deposit_ratio(amount_a as int, sup, ra) <= deposit_ratio(amount_b as int, sup, rb)
                ==> used_a == amount_a && used_b as int == charge_for_lp(lp_minted as int, rb, sup))
            &&& (deposit_ratio(amount_a as int, sup, ra) > deposit_ratio(amount_b as int, sup, rb)
                ==> used_b == amount_b && used_a as int == charge_for_lp(lp_minted as int, ra, sup))
            &&& used_a <= amount_a
            &&& used_b <= amount_b
        },
        _ => false,
    })
}

/// Why `Withdraw` fails, or `None` when it succeeds: the pool must allow
/// withdrawals, the caller must hold the claim tokens burned, and the burn
/// must not breach the supply floor of a still-initialized pool.
pub open spec fn withdraw_outcome(pool: Pool, live: LiveBalances, lp_amount: u64) -> Option<
    AmmError,
> {
    if pool.status != PoolStatus::Initialized && pool.status != PoolStatus::WithdrawOnly {
        Some(AmmError::StateError)
    } else if lp_amount > live.caller_lp_balance {
        Some(AmmError::ValidationError)
    } else if lp_amount + effective_floor(pool) > live.lp_supply as int {
        Some(AmmError::StateError)
    } else if live.lp_supply == 0 {
        Some(AmmError::ArithmeticError)
    } else {
        None
    }
}

/// What a successful `Withdraw` hands back: the record untouched, the burn
/// directed, and both proportional payouts rounded down. The remaining LP
/// supply still covers the pool's floor.
pub open spec fn withdraw_settles(
    pool: Pool,
    live: LiveBalances,
    lp_amount: u64,
    new_pool: Pool,
    s: Settlement,
) -> bool {
    &&& new_pool == pool
    &&& live.lp_supply - lp_amount >= effective_floor(pool)
    &&& (match s {
        Settlement::Withdrawn { lp_burned, out_a, out_b } => {
            &&& lp_burned == lp_amount
            &&& out_a as int == withdraw_out(
                live.reserve_a as int,
                lp_amount as int,
                live.lp_supply as int,
            )
            &&& out_b as int == withdraw_out(
                live.reserve_b as int,
                lp_amount as int,
                live.lp_supply as int,
            )
            &&& out_a <= live.reserve_a
            &&& out_b <= live.reserve_b
        },
        _ => false,
    })
}

/// Why an exact-input swap fails, or `None` when it succeeds.
pub open spec fn swap_exact_input_outcome(
    pool: Pool,
    live: LiveBalances,
    direction: SwapDirection,
    amount_in: u64,
    min_amount_out: u64,
) -> Option<AmmError> {
    let eff_in = swap_reserve_in(pool, live, direction);
    let eff_out = swap_reserve_out(pool, live, direction);
    let num = pool.trade_fee_numerator as int;
    let den = pool.trade_fee_denominator as int;
    if pool.status != PoolStatus::Initialized {
        Some(AmmError::StateError)
    } else if eff_in > u64::MAX as int || eff_out > u64::MAX as int {
        Some(AmmError::ArithmeticError)
    } else if swap_input_arith_fails(amount_in as int, eff_in, num, den) {
        Some(AmmError::ArithmeticError)
    } else if swap_output(amount_in as int, eff_in, eff_out, num, den) >= eff_out {
        Some(AmmError::InsufficientLiquidity)
    } else if swap_output(amount_in as int, eff_in, eff_out, num, den) < min_amount_out as int {
        Some(AmmError::SlippageExceeded)
    } else {
        None
    }
}

/// What a successful exact-input swap hands back: the record untouched, the
/// curve's floor-rounded output within the trader's bound, and the
/// constant-product invariant not decreased over the effective reserves.
pub open spec fn swap_exact_input_settles(
    pool: Pool,
    live: LiveBalances,
    direction: SwapDirection,
    amount_in: u64,
    min_amount_out: u64,
    new_pool: Pool,
    s: Settlement,
) -> bool {
    let eff_in = swap_reserve_in(pool, live, direction);
    let eff_out = swap_reserve_out(pool, live, direction);
    let num = pool.trade_fee_numerator as int;
    let den = pool.trade_fee_denominator as int;
    &&& new_pool == pool
    &&& (match s {
        Settlement::Swapped { direction: d, amount_in: paid, amount_out: got } => {
            &&& d == direction
            &&& paid == amount_in
            &&& got as int == swap_output(amount_in as int, eff_in, eff_out, num, den)
            &&& got >= min_amount_out
            &&& (eff_in + net_input(amount_in as int, num, den)) * (eff_out - got) >= eff_in
                * eff_out
        },
        _ => false,
    })
}

/// Why an exact-output swap fails, or `None` when it succeeds.
pub open spec fn swap_exact_output_outcome(
    pool: Pool,
    live: LiveBalances,
    direction: SwapDirection,
    amount_out: u64,
    max_amount_in: u64,
) -> Option<AmmError> {
    let eff_in = swap_reserve_in(pool, live, direction);
    let eff_out = swap_reserve_out(pool, live, direction);
    let num = pool.trade_fee_numerator as int;
    let den = pool.trade_fee_denominator as int;
    if pool.status != PoolStatus::Initialized {
        Some(AmmError::StateError)
    } else if eff_in > u64::MAX as int || eff_out > u64::MAX as int {
        Some(AmmError::ArithmeticError)
    } else if amount_out as int >= eff_out {
        Some(AmmError::InsufficientLiquidity)
    } else if swap_input_required(amount_out as int, eff_in, eff_out, num, den) > u64::MAX as int {
        Some(AmmError::ArithmeticError)
    } else if swap_input_required(amount_out as int, eff_in, eff_out, num, den)
        > max_amount_in as int {
        Some(AmmError::SlippageExceeded)
    } else {
        None
    }
}

/// What a successful exact-output swap hands back: the record untouched, the
/// ceiling-rounded required input within the trader's bound, and that input
/// never below the exact (unrounded) requirement.
pub open spec fn swap_exact_output_settles(
    pool: Pool,
    live: LiveBalances,
    direction: SwapDirection,
    amount_out: u64,
    max_amount_in: u64,
    new_pool: Pool,
    s: Settlement,
) -> bool {
    let eff_in = swap_reserve_in(pool, live, direction);
    let eff_out = swap_reserve_out(pool, live, direction);
    let num = pool.trade_fee_numerator as int;
    let den = pool.trade_fee_denominator as int;
    &&& new_pool == pool
    &&& (match s {
        Settlement::Swapped { direction: d, amount_in: paid, amount_out: got } => {
            &&& d == direction
            &&& got == amount_out
            &&& paid as int == swap_input_required(amount_out as int, eff_in, eff_out, num, den)
            &&& paid <= max_amount_in
            &&& paid as int * ((den - num) * (eff_out - amount_out)) >= eff_in * amount_out as int
                * den
        },
        _ => false,
    })
}

/// The effective reserve of one vault, in 128 bits so that folding in the
/// order-book amount cannot wrap.
fn effective_reserve_u128(pool: &Pool, reserve: u64, external: u64) -> (r: u128)
    ensures
        r as int == effective_reserve(*pool, reserve as int, external as int),
{
    if pool.order_book_ref.is_some() {
        reserve as u128 + external as u128
    } else {
        reserve as u128
    }
}

/// Bootstrap the pool from its freshly funded vaults: mints the initial LP
/// supply and moves the record to `Initialized`.
pub fn process_initialize(pool: &Pool, live: &LiveBalances) -> (r: Result<
    (Pool, Settlement),
    AmmError,
>)
    requires
        pool.wf(),
    ensures
        (match r {
            Ok((new_pool, s)) => {
                &&& initialize_outcome(*pool, *live) is None
                &&& initialize_settles(*pool, *live, new_pool, s)
                &&& new_pool.wf()
            },
            Err(e) => initialize_outcome(*pool, *live) == Some(e),
        }),
{
    if pool.status != PoolStatus::Uninitialized {
        return Err(AmmError::StateError);
    }
    if live.lp_supply != 0 {
        return Err(AmmError::StateError);
    }
    if live.reserve_a == 0 || live.reserve_b == 0 {
        return Err(AmmError::StateError);
    }
    match math::deposit(live.reserve_a, live.reserve_b, 0, 0, 0, pool.min_liquidity_floor) {
        Ok((lp_minted, _used_a, _used_b)) => Ok(
            (
                Pool { status: PoolStatus::Initialized, ..*pool },
                Settlement::PoolInitialized { lp_minted, lp_locked: pool.min_liquidity_floor },
            ),
        ),
        Err(e) => Err(e),
    }
}

/// Add liquidity to a live pool: directs the transfers of the used amounts
/// and the mint of the claim tokens.
pub fn process_deposit(pool: &Pool, live: &LiveBalances, amount_a: u64, amount_b: u64) -> (r:
    Result<(Pool, Settlement), AmmError>)
    requires
        pool.wf(),
    ensures
        (match r {
            Ok((new_pool, s)) => {
                &&& deposit_outcome(*pool, *live, amount_a, amount_b) is None
                &&& deposit_settles(*pool, *live, amount_a, amount_b, new_pool, s)
                &&& new_pool.wf()
            },
            Err(e) => deposit_outcome(*pool, *live, amount_a, amount_b) == Some(e),
        }),
{
    if pool.status != PoolStatus::Initialized {
        return Err(AmmError::StateError);
    }
    if live.lp_supply == 0 {
        return Err(AmmError::StateError);
    }
    match math::deposit(amount_a, amount_b, live.reserve_a, live.reserve_b, live.lp_supply, 0) {
        Ok((lp_minted, used_a, used_b)) => Ok(
            (*pool, Settlement::Deposited { used_a, used_b, lp_minted }),
        ),
        Err(e) => Err(e),
    }
}

/// Burn claim tokens for a proportional share of both reserves: directs the
/// burn and both payouts.
pub fn process_withdraw(pool: &Pool, live: &LiveBalances, lp_amount: u64) -> (r: Result<
    (Pool, Settlement),
    AmmError,
>)
    requires
        pool.wf(),
    ensures
        (match r {
            Ok((new_pool, s)) => {
                &&& withdraw_outcome(*pool, *live, lp_amount) is None
                &&& withdraw_settles(*pool, *live, lp_amount, new_pool, s)
                &&& new_pool.wf()
            },
            Err(e) => withdraw_outcome(*pool, *live, lp_amount) == Some(e),
        }),
{
    if pool.status != PoolStatus::Initialized && pool.status != PoolStatus::WithdrawOnly {
        return Err(AmmError::StateError);
    }
    if lp_amount > live.caller_lp_balance {
        return Err(AmmError::ValidationError);
    }
    let floor: u64 = if pool.status == PoolStatus::Initialized {
        pool.min_liquidity_floor
    } else {
        0
    };
    match math::withdraw(lp_amount, live.lp_supply, live.reserve_a, live.reserve_b, floor) {
        Ok((out_a, out_b)) => Ok(
            (*pool, Settlement::Withdrawn { lp_burned: lp_amount, out_a, out_b }),
        ),
        Err(e) => Err(e),
    }
}

/// Trade a fixed input for the other asset, rejecting the trade if the
/// floor-rounded output falls short of the trader's minimum.
pub fn process_swap_exact_input(
    pool: &Pool,
    live: &LiveBalances,
    direction: SwapDirection,
    amount_in: u64,
    min_amount_out: u64,
) -> (r: Result<(Pool, Settlement), AmmError>)
    requires
        pool.wf(),
    ensures
        (match r {
            Ok((new_pool, s)) => {
                &&& swap_exact_input_outcome(*pool, *live, direction, amount_in, min_amount_out)
                    is None
                &&& swap_exact_input_settles(
                    *pool,
                    *live,
                    direction,
                    amount_in,
                    min_amount_out,
                    new_pool,
                    s,
                )
                &&& new_pool.wf()
            },
            Err(e) => swap_exact_input_outcome(*pool, *live, direction, amount_in, min_amount_out)
                == Some(e),
        }),
{
    if pool.status != PoolStatus::Initialized {
        return Err(AmmError::StateError);
    }
    let (vault_in, ext_in, vault_out, ext_out) = match direction {
        SwapDirection::AToB => (live.reserve_a, live.external_a, live.reserve_b, live.external_b),
        SwapDirection::BToA => (live.reserve_b, live.external_b, live.reserve_a, live.external_a),
    };
    let eff_in = effective_reserve_u128(pool, vault_in, ext_in);
    let eff_out = effective_reserve_u128(pool, vault_out, ext_out);
    if eff_in > 0xffff_ffff_ffff_ffffu128 || eff_out > 0xffff_ffff_ffff_ffffu128 {
        return Err(AmmError::ArithmeticError);
    }
    match math::swap_exact_input(
        amount_in,
        eff_in as u64,
        eff_out as u64,
        pool.trade_fee_numerator,
        pool.trade_fee_denominator,
    ) {
        Ok(amount_out) => {
            if amount_out < min_amount_out {
                Err(AmmError::SlippageExceeded)
            } else {
                Ok((*pool, Settlement::Swapped { direction, amount_in, amount_out }))
            }
        },
        Err(e) => Err(e),
    }
}

/// Trade for a fixed output, rejecting the trade if the ceiling-rounded
/// required input exceeds the trader's maximum.
pub fn process_swap_exact_output(
    pool: &Pool,
    live: &LiveBalances,
    direction: SwapDirection,
    amount_out: u64,
    max_amount_in: u64,
) -> (r: Result<(Pool, Settlement), AmmError>)
    requires
        pool.wf(),
    ensures
        (match r {
            Ok((new_pool, s)) => {
                &&& swap_exact_output_outcome(*pool, *live, direction, amount_out, max_amount_in)
                    is None
                &&& swap_exact_output_settles(
                    *pool,
                    *live,
                    direction,
                    amount_out,
                    max_amount_in,
                    new_pool,
                    s,
                )
                &&& new_pool.wf()
            },
            Err(e) => swap_exact_output_outcome(*pool, *live, direction, amount_out, max_amount_in)
                == Some(e),
        }),
{
    if pool.status != PoolStatus::Initialized {
        return Err(AmmError::StateError);
    }
    let (vault_in, ext_in, vault_out, ext_out) = match direction {
        SwapDirection::AToB => (live.reserve_a, live.external_a, live.reserve_b, live.external_b),
        SwapDirection::BToA => (live.reserve_b, live.external_b, live.reserve_a, live.external_a),
    };
    let eff_in = effective_reserve_u128(pool, vault_in, ext_in);
    let eff_out = effective_reserve_u128(pool, vault_out, ext_out);
    if eff_in > 0xffff_ffff_ffff_ffffu128 || eff_out > 0xffff_ffff_ffff_ffffu128 {
        return Err(AmmError::ArithmeticError);
    }
    match math::swap_exact_output(
        amount_out,
        eff_in as u64,
        eff_out as u64,
        pool.trade_fee_numerator,
        pool.trade_fee_denominator,
    ) {
        Ok(amount_in) => {
            if amount_in > max_amount_in {
                Err(AmmError::SlippageExceeded)
            } else {
                Ok((*pool, Settlement::Swapped { direction, amount_in, amount_out }))
            }
        },
        Err(e) => Err(e),
    }
}

/// Drive one instruction end to end: validate, read the passed live balances,
/// price, check the caller's bound, and hand back the new record and the
/// settlement — or fail before anything is directed.
///
/// Every status change obeys the monotonic lifecycle, and only `Initialize`
/// changes the record at all.
pub fn process(pool: &Pool, live: &LiveBalances, ix: &Instruction) -> (r: Result<
    (Pool, Settlement),
    AmmError,
>)
    requires
        pool.wf(),
    ensures
        (match *ix {
            Instruction::Initialize => (match r {
                Ok((new_pool, s)) => initialize_outcome(*pool, *live) is None
                    && initialize_settles(*pool, *live, new_pool, s),
                Err(e) => initialize_outcome(*pool, *live) == Some(e),
            }),
            Instruction::Deposit { amount_a, amount_b } => (match r {
                Ok((new_pool, s)) => deposit_outcome(*pool, *live, amount_a, amount_b) is None
                    && deposit_settles(*pool, *live, amount_a, amount_b, new_pool, s),
                Err(e) => deposit_outcome(*pool, *live, amount_a, amount_b) == Some(e),
            }),
            Instruction::Withdraw { lp_amount } => (match r {
                Ok((new_pool, s)) => withdraw_outcome(*pool, *live, lp_amount) is None
                    && withdraw_settles(*pool, *live, lp_amount, new_pool, s),
                Err(e) => withdraw_outcome(*pool, *live, lp_amount) == Some(e),
            }),
            Instruction::SwapExactInput { direction, amount_in, min_amount_out } => (match r {
                Ok((new_pool, s)) => swap_exact_input_outcome(
                    *pool,
                    *live,
                    direction,
                    amount_in,
                    min_amount_out,
                ) is None && swap_exact_input_settles(
                    *pool,
                    *live,
                    direction,
                    amount_in,
                    min_amount_out,
                    new_pool,
                    s,
                ),
                Err(e) => swap_exact_input_outcome(
                    *pool,
                    *live,
                    direction,
                    amount_in,
                    min_amount_out,
                ) == Some(e),
            }),
            Instruction::SwapExactOutput { direction, amount_out, max_amount_in } => (match r {
                Ok((new_pool, s)) => swap_exact_output_outcome(
                    *pool,
                    *live,
                    direction,
                    amount_out,
                    max_amount_in,
                ) is None && swap_exact_output_settles(
                    *pool,
                    *live,
                    direction,
                    amount_out,
                    max_amount_in,
                    new_pool,
                    s,
                ),
                Err(e) => swap_exact_output_outcome(
                    *pool,
                    *live,
                    direction,
                    amount_out,
                    max_amount_in,
                ) == Some(e),
            }),
        }),
        (match r {
            Ok((new_pool, s)) => {
                &&& new_pool.wf()
                &&& crate::state::status_step_allowed(pool.status, new_pool.status)
            },
            Err(_) => true,
        }),
{
    match *ix {
        Instruction::Initialize => process_initialize(pool, live),
        Instruction::Deposit { amount_a, amount_b } => process_deposit(
            pool,
            live,
            amount_a,
            amount_b,
        ),
        Instruction::Withdraw { lp_amount } => process_withdraw(pool, live, lp_amount),
        Instruction::SwapExactInput { direction, amount_in, min_amount_out } => {
            process_swap_exact_input(pool, live, direction, amount_in, min_amount_out)
        },
        Instruction::SwapExactOutput { direction, amount_out, max_amount_in } => {
            process_swap_exact_output(pool, live, direction, amount_out, max_amount_in)
        },
    }
}

/// Whether a withdrawal burning `burn` claim tokens is accepted against a
/// supply of `lp_supply` under a floor of `floor` — exactly the condition
/// under which [`withdraw_outcome`] lets a still-initialized pool's
/// withdrawal through to a successful settlement.
pub open spec fn withdraw_accepted(burn: int, lp_supply: int, floor: int) -> bool {
    &&& 0 <= burn
    &&& burn + floor <= lp_supply
    &&& lp_supply > 0
}

/// The LP supply left after a sequence of withdrawal attempts: each attempt
/// burns its amount if accepted against the supply at that point, and changes
/// nothing if rejected.
pub open spec fn supply_after_withdrawals(lp_supply: int, burns: Seq<int>, floor: int) -> int
    decreases burns.len(),
{
    if burns.len() == 0 {
        lp_supply
    } else if withdraw_accepted(burns[0], lp_supply, floor) {
        supply_after_withdrawals(lp_supply - burns[0], burns.skip(1), floor)
    } else {
        supply_after_withdrawals(lp_supply, burns.skip(1), floor)
    }
}

/// Supply floor law: once the pool's LP supply covers its positive liquidity
/// floor, no sequence of withdrawals — each validated against the floor, as
/// every withdrawal from a still-initialized pool is — can drive the supply
/// to zero.
pub proof fn lemma_supply_floor(lp_supply: int, burns: Seq<int>, floor: int)
    requires
        floor >= 1,
        lp_supply >= floor,
    ensures
        supply_after_withdrawals(lp_supply, burns, floor) >= floor,
        supply_after_withdrawals(lp_supply, burns, floor) > 0,
    decreases burns.len(),
{
    if burns.len() == 0 {
    } else if withdraw_accepted(burns[0], lp_supply, floor) {
        lemma_supply_floor(lp_supply - burns[0], burns.skip(1), floor);
    } else {
        lemma_supply_floor(lp_supply, burns.skip(1), floor);
    }
}

/// A withdrawal the processor lets through on a still-initialized pool is
/// exactly one that [`withdraw_accepted`] counts against the pool's floor.
pub proof fn lemma_withdraw_outcome_accepted(pool: Pool, live: LiveBalances, lp_amount: u64)
    requires
        pool.status == PoolStatus::Initialized,
        withdraw_outcome(pool, live, lp_amount) is None,
    ensures
        withdraw_accepted(
            lp_amount as int,
            live.lp_supply as int,
            pool.min_liquidity_floor as int,
        ),
{
}

} // verus!
