use amm_core::error::AmmError;
use amm_core::processor::{
    process, process_deposit, process_initialize, process_swap_exact_input,
    process_swap_exact_output, process_withdraw, Instruction, LiveBalances, Settlement,
    SwapDirection,
};
use amm_core::state::{Pool, PoolStatus};

fn pool_with(status: PoolStatus, fee_num: u64, fee_den: u64, floor: u64) -> Pool {
    Pool {
        status,
        asset_a_vault_ref: 11,
        asset_b_vault_ref: 22,
        lp_mint_ref: 33,
        trade_fee_numerator: fee_num,
        trade_fee_denominator: fee_den,
        min_liquidity_floor: floor,
        order_book_ref: None,
    }
}

fn balances(reserve_a: u64, reserve_b: u64, lp_supply: u64, caller_lp_balance: u64) -> LiveBalances {
    LiveBalances {
        reserve_a,
        reserve_b,
        external_a: 0,
        external_b: 0,
        lp_supply,
        caller_lp_balance,
    }
}

#[test]
fn pool_record_construction() {
    let p = Pool::new(1, 2, 3, 1, 100, 10, None).unwrap();
    assert_eq!(p.status, PoolStatus::Uninitialized);
    assert_eq!(p.trade_fee_numerator, 1);
    assert_eq!(p.min_liquidity_floor, 10);
    // The fee fraction must lie in [0, 1).
    assert_eq!(
        Pool::new(1, 2, 3, 1, 1, 0, None),
        Err(AmmError::ValidationError)
    );
    assert_eq!(
        Pool::new(1, 2, 3, 5, 0, 0, None),
        Err(AmmError::ValidationError)
    );
}

#[test]
fn lifecycle_is_monotonic() {
    let mut p = pool_with(PoolStatus::Uninitialized, 0, 100, 0);
    // Not yet initialized: neither one-way switch is allowed.
    assert_eq!(p.disable(), Err(AmmError::StateError));
    assert_eq!(p.set_withdraw_only(), Err(AmmError::StateError));
    p.status = PoolStatus::Initialized;
    assert_eq!(p.set_withdraw_only(), Ok(()));
    assert_eq!(p.status, PoolStatus::WithdrawOnly);
    // WithdrawOnly is terminal.
    assert_eq!(p.disable(), Err(AmmError::StateError));
    let mut q = pool_with(PoolStatus::Initialized, 0, 100, 0);
    assert_eq!(q.disable(), Ok(()));
    assert_eq!(q.status, PoolStatus::Disabled);
}

#[test]
fn initialize_bootstraps_the_pool() {
    let pool = pool_with(PoolStatus::Uninitialized, 0, 100, 0);
    let live = balances(1000, 1000, 0, 0);
    let (new_pool, s) = process_initialize(&pool, &live).unwrap();
    assert_eq!(new_pool.status, PoolStatus::Initialized);
    assert_eq!(new_pool.min_liquidity_floor, pool.min_liquidity_floor);
    assert_eq!(
        s,
        Settlement::PoolInitialized {
            lp_minted: 1000,
            lp_locked: 0,
        }
    );
}

#[test]
fn initialize_locks_the_liquidity_floor() {
    let pool = pool_with(PoolStatus::Uninitialized, 0, 100, 100);
    let live = balances(1000, 1000, 0, 0);
    let (_, s) = process_initialize(&pool, &live).unwrap();
    assert_eq!(
        s,
        Settlement::PoolInitialized {
            lp_minted: 900,
            lp_locked: 100,
        }
    );
}

#[test]
fn initialize_rejects_wrong_preconditions() {
    let live = balances(1000, 1000, 0, 0);
    // Already initialized.
    let pool = pool_with(PoolStatus::Initialized, 0, 100, 0);
    assert_eq!(process_initialize(&pool, &live), Err(AmmError::StateError));
    // Claim mint already has supply.
    let pool = pool_with(PoolStatus::Uninitialized, 0, 100, 0);
    let funded = balances(1000, 1000, 5, 0);
    assert_eq!(
        process_initialize(&pool, &funded),
        Err(AmmError::StateError)
    );
    // A vault is unfunded.
    let empty = balances(0, 1000, 0, 0);
    assert_eq!(process_initialize(&pool, &empty), Err(AmmError::StateError));
    // Funded, but the bootstrap mint would not be strictly positive.
    let dusty = pool_with(PoolStatus::Uninitialized, 0, 100, 2);
    let dust = balances(2, 2, 0, 0);
    assert_eq!(
        process_initialize(&dusty, &dust),
        Err(AmmError::InsufficientLiquidity)
    );
}

#[test]
fn deposit_into_a_live_pool() {
    let pool = pool_with(PoolStatus::Initialized, 0, 100, 0);
    let live = balances(1000, 2000, 1000, 0);
    let (new_pool, s) = process_deposit(&pool, &live, 100, 300).unwrap();
    assert_eq!(new_pool, pool);
    assert_eq!(
        s,
        Settlement::Deposited {
            used_a: 100,
            used_b: 200,
            lp_minted: 100,
        }
    );
}

#[test]
fn deposit_rejects_wrong_status_or_desynchronized_supply() {
    let live = balances(1000, 1000, 1000, 0);
    let pool = pool_with(PoolStatus::Uninitialized, 0, 100, 0);
    assert_eq!(
        process_deposit(&pool, &live, 100, 100),
        Err(AmmError::StateError)
    );
    let pool = pool_with(PoolStatus::WithdrawOnly, 0, 100, 0);
    assert_eq!(
        process_deposit(&pool, &live, 100, 100),
        Err(AmmError::StateError)
    );
    // A live pool whose claim supply reads zero is inconsistent state.
    let pool = pool_with(PoolStatus::Initialized, 0, 100, 0);
    let odd = balances(1000, 1000, 0, 0);
    assert_eq!(
        process_deposit(&pool, &odd, 100, 100),
        Err(AmmError::StateError)
    );
}

#[test]
fn withdraw_from_a_live_pool() {
    let pool = pool_with(PoolStatus::Initialized, 0, 100, 0);
    let live = balances(500, 2000, 1000, 1000);
    let (new_pool, s) = process_withdraw(&pool, &live, 100).unwrap();
    assert_eq!(new_pool, pool);
    assert_eq!(
        s,
        Settlement::Withdrawn {
            lp_burned: 100,
            out_a: 50,
            out_b: 200,
        }
    );
}

#[test]
fn withdraw_enforces_balance_floor_and_status() {
    let pool = pool_with(PoolStatus::Initialized, 0, 100, 100);
    // The caller does not hold what it wants to burn.
    let live = balances(500, 500, 1000, 50);
    assert_eq!(
        process_withdraw(&pool, &live, 100),
        Err(AmmError::ValidationError)
    );
    // Burning 950 of 1000 would leave less than the floor of 100.
    let live = balances(500, 500, 1000, 1000);
    assert_eq!(
        process_withdraw(&pool, &live, 950),
        Err(AmmError::StateError)
    );
    // A disabled pool allows nothing.
    let disabled = pool_with(PoolStatus::Disabled, 0, 100, 0);
    assert_eq!(
        process_withdraw(&disabled, &live, 10),
        Err(AmmError::StateError)
    );
    // An uninitialized pool has nothing to withdraw.
    let fresh = pool_with(PoolStatus::Uninitialized, 0, 100, 0);
    assert_eq!(
        process_withdraw(&fresh, &live, 10),
        Err(AmmError::StateError)
    );
}

#[test]
fn no_withdrawal_sequence_empties_a_live_pool() {
    // Burn down a live pool step by step: every accepted withdrawal leaves at
    // least the floor outstanding, and the one that would not is rejected.
    let pool = pool_with(PoolStatus::Initialized, 0, 100, 100);
    let mut supply: u64 = 1000;
    let mut reserve: u64 = 10_000;
    for burn in [500u64, 450, 400, 1, 300] {
        let live = balances(reserve, reserve, supply, 1000);
        match process_withdraw(&pool, &live, burn) {
            Ok((_, Settlement::Withdrawn { lp_burned, out_a, .. })) => {
                supply -= lp_burned;
                reserve -= out_a;
            }
            Ok(_) => panic!("a withdrawal settles as Withdrawn"),
            Err(e) => assert_eq!(e, AmmError::StateError),
        }
        assert!(supply >= 100);
    }
    // 500 and 400 were accepted; 450, 1 and 300 would have breached the floor.
    assert_eq!(supply, 100);
}

#[test]
fn withdraw_only_pool_ignores_the_floor() {
    // Winding down: the floor no longer binds, the full share is payable.
    let pool = pool_with(PoolStatus::WithdrawOnly, 0, 100, 800);
    let live = balances(500, 500, 1000, 1000);
    let (_, s) = process_withdraw(&pool, &live, 950).unwrap();
    assert_eq!(
        s,
        Settlement::Withdrawn {
            lp_burned: 950,
            out_a: 475,
            out_b: 475,
        }
    );
}

#[test]
fn swap_exact_input_within_bound() {
    let pool = pool_with(PoolStatus::Initialized, 0, 100, 0);
    let live = balances(1000, 1000, 1000, 0);
    let (new_pool, s) = process_swap_exact_input(&pool, &live, SwapDirection::AToB, 100, 90)
        .unwrap();
    assert_eq!(new_pool, pool);
    assert_eq!(
        s,
        Settlement::Swapped {
            direction: SwapDirection::AToB,
            amount_in: 100,
            amount_out: 90,
        }
    );
}

#[test]
fn swap_exact_input_rejects_slippage() {
    // The fee-free 90-out swap called with a minimum of 91 must fail.
    let pool = pool_with(PoolStatus::Initialized, 0, 100, 0);
    let live = balances(1000, 1000, 1000, 0);
    assert_eq!(
        process_swap_exact_input(&pool, &live, SwapDirection::AToB, 100, 91),
        Err(AmmError::SlippageExceeded)
    );
}

#[test]
fn swap_exact_input_direction_picks_the_reserves() {
    let pool = pool_with(PoolStatus::Initialized, 0, 100, 0);
    let live = balances(1000, 4000, 1000, 0);
    // B -> A prices against reserve_b in, reserve_a out.
    let (_, s) = process_swap_exact_input(&pool, &live, SwapDirection::BToA, 400, 0).unwrap();
    assert_eq!(
        s,
        Settlement::Swapped {
            direction: SwapDirection::BToA,
            amount_in: 400,
            amount_out: 1000 * 400 / (4000 + 400),
        }
    );
}

#[test]
fn swap_rejects_wrong_status() {
    let live = balances(1000, 1000, 1000, 0);
    for status in [
        PoolStatus::Uninitialized,
        PoolStatus::Disabled,
        PoolStatus::WithdrawOnly,
    ] {
        let pool = pool_with(status, 0, 100, 0);
        assert_eq!(
            process_swap_exact_input(&pool, &live, SwapDirection::AToB, 100, 0),
            Err(AmmError::StateError)
        );
        assert_eq!(
            process_swap_exact_output(&pool, &live, SwapDirection::AToB, 100, u64::MAX),
            Err(AmmError::StateError)
        );
    }
}

#[test]
fn swap_folds_in_order_book_liquidity() {
    // Half the effective reserve sits on the configured order book; pricing
    // must fold the reported amounts in as an additive term.
    let pool = Pool {
        order_book_ref: Some(77),
        ..pool_with(PoolStatus::Initialized, 0, 100, 0)
    };
    let live = LiveBalances {
        reserve_a: 500,
        reserve_b: 500,
        external_a: 500,
        external_b: 500,
        lp_supply: 1000,
        caller_lp_balance: 0,
    };
    let (_, s) = process_swap_exact_input(&pool, &live, SwapDirection::AToB, 100, 0).unwrap();
    assert_eq!(
        s,
        Settlement::Swapped {
            direction: SwapDirection::AToB,
            amount_in: 100,
            amount_out: 90,
        }
    );
    // Without an order book configured, the same reported amounts are ignored.
    let plain = pool_with(PoolStatus::Initialized, 0, 100, 0);
    let (_, s) = process_swap_exact_input(&plain, &live, SwapDirection::AToB, 100, 0).unwrap();
    assert_eq!(
        s,
        Settlement::Swapped {
            direction: SwapDirection::AToB,
            amount_in: 100,
            amount_out: 500 * 100 / (500 + 100),
        }
    );
}

#[test]
fn swap_rejects_oversized_effective_reserve() {
    let pool = Pool {
        order_book_ref: Some(77),
        ..pool_with(PoolStatus::Initialized, 0, 100, 0)
    };
    let live = LiveBalances {
        reserve_a: u64::MAX,
        reserve_b: 500,
        external_a: 1,
        external_b: 0,
        lp_supply: 1000,
        caller_lp_balance: 0,
    };
    assert_eq!(
        process_swap_exact_input(&pool, &live, SwapDirection::AToB, 100, 0),
        Err(AmmError::ArithmeticError)
    );
}

#[test]
fn swap_exact_output_within_bound() {
    let pool = pool_with(PoolStatus::Initialized, 1, 100, 0);
    let live = balances(1000, 1000, 1000, 0);
    let (_, s) = process_swap_exact_output(&pool, &live, SwapDirection::AToB, 90, 100).unwrap();
    assert_eq!(
        s,
        Settlement::Swapped {
            direction: SwapDirection::AToB,
            amount_in: 100,
            amount_out: 90,
        }
    );
}

#[test]
fn swap_exact_output_rejects_slippage() {
    let pool = pool_with(PoolStatus::Initialized, 1, 100, 0);
    let live = balances(1000, 1000, 1000, 0);
    assert_eq!(
        process_swap_exact_output(&pool, &live, SwapDirection::AToB, 90, 99),
        Err(AmmError::SlippageExceeded)
    );
}

#[test]
fn swap_exact_output_rejects_draining_the_reserve() {
    let pool = pool_with(PoolStatus::Initialized, 0, 100, 0);
    let live = balances(1000, 1000, 1000, 0);
    assert_eq!(
        process_swap_exact_output(&pool, &live, SwapDirection::AToB, 1000, u64::MAX),
        Err(AmmError::InsufficientLiquidity)
    );
}

#[test]
fn process_dispatches_every_instruction() {
    let live = balances(1000, 1000, 0, 0);
    let pool = pool_with(PoolStatus::Uninitialized, 0, 100, 0);
    let (pool, s) = process(&pool, &live, &Instruction::Initialize).unwrap();
    assert_eq!(pool.status, PoolStatus::Initialized);
    assert_eq!(
        s,
        Settlement::PoolInitialized {
            lp_minted: 1000,
            lp_locked: 0,
        }
    );

    let live = balances(1000, 1000, 1000, 1000);
    let (_, s) = process(
        &pool,
        &live,
        &Instruction::Deposit {
            amount_a: 100,
            amount_b: 100,
        },
    )
    .unwrap();
    assert_eq!(
        s,
        Settlement::Deposited {
            used_a: 100,
            used_b: 100,
            lp_minted: 100,
        }
    );

    let (_, s) = process(&pool, &live, &Instruction::Withdraw { lp_amount: 100 }).unwrap();
    assert_eq!(
        s,
        Settlement::Withdrawn {
            lp_burned: 100,
            out_a: 100,
            out_b: 100,
        }
    );

    let (_, s) = process(
        &pool,
        &live,
        &Instruction::SwapExactInput {
            direction: SwapDirection::AToB,
            amount_in: 100,
            min_amount_out: 0,
        },
    )
    .unwrap();
    assert_eq!(
        s,
        Settlement::Swapped {
            direction: SwapDirection::AToB,
            amount_in: 100,
            amount_out: 90,
        }
    );

    let (_, s) = process(
        &pool,
        &live,
        &Instruction::SwapExactOutput {
            direction: SwapDirection::BToA,
            amount_out: 90,
            max_amount_in: 99,
        },
    )
    .unwrap();
    assert_eq!(
        s,
        Settlement::Swapped {
            direction: SwapDirection::BToA,
            amount_in: 99,
            amount_out: 90,
        }
    );

    // Errors propagate through the dispatcher unchanged.
    assert_eq!(
        process(
            &pool,
            &live,
            &Instruction::SwapExactInput {
                direction: SwapDirection::AToB,
                amount_in: 100,
                min_amount_out: 91,
            },
        ),
        Err(AmmError::SlippageExceeded)
    );
}

#[test]
fn pool_record_round_trips() {
    let pool = Pool {
        status: PoolStatus::Initialized,
        asset_a_vault_ref: u64::MAX,
        asset_b_vault_ref: 0x0102_0304_0506_0708,
        lp_mint_ref: 7,
        trade_fee_numerator: 25,
        trade_fee_denominator: 10_000,
        min_liquidity_floor: 100,
        order_book_ref: Some(42),
    };
    let bytes = pool.to_bytes();
    assert_eq!(bytes.len(), 58);
    assert_eq!(Pool::from_bytes(&bytes), Some(pool));
    let plain = pool_with(PoolStatus::WithdrawOnly, 0, 1, 0);
    assert_eq!(Pool::from_bytes(&plain.to_bytes()), Some(plain));
}

#[test]
fn pool_record_layout_is_fixed() {
    let pool = Pool {
        status: PoolStatus::Initialized,
        asset_a_vault_ref: 1,
        asset_b_vault_ref: 2,
        lp_mint_ref: 3,
        trade_fee_numerator: 1,
        trade_fee_denominator: 100,
        min_liquidity_floor: 10,
        order_book_ref: None,
    };
    let mut expected = vec![1u8];
    for field in [1u64, 2, 3, 1, 100, 10] {
        expected.extend_from_slice(&field.to_le_bytes());
    }
    expected.push(0);
    expected.extend_from_slice(&0u64.to_le_bytes());
    assert_eq!(pool.to_bytes(), expected);
}

#[test]
fn pool_record_rejects_malformed_bytes() {
    let good = pool_with(PoolStatus::Initialized, 1, 100, 10).to_bytes();
    // Wrong length.
    assert_eq!(Pool::from_bytes(&good[..57]), None);
    assert_eq!(Pool::from_bytes(&[]), None);
    // Unknown status tag.
    let mut bad = good.clone();
    bad[0] = 4;
    assert_eq!(Pool::from_bytes(&bad), None);
    // Unknown order-book tag.
    let mut bad = good.clone();
    bad[49] = 2;
    assert_eq!(Pool::from_bytes(&bad), None);
    // No order book configured, but the reference bytes are not zero.
    let mut bad = good.clone();
    bad[50] = 1;
    assert_eq!(Pool::from_bytes(&bad), None);
}

#[test]
fn error_descriptions_are_distinct() {
    let errors = [
        AmmError::ValidationError,
        AmmError::ArithmeticError,
        AmmError::InvariantViolation,
        AmmError::SlippageExceeded,
        AmmError::InsufficientLiquidity,
        AmmError::StateError,
    ];
    for (i, a) in errors.iter().enumerate() {
        assert!(!a.describe().is_empty());
        for (j, b) in errors.iter().enumerate() {
            if i != j {
                assert_ne!(a.describe(), b.describe());
            }
        }
    }
    assert_eq!(AmmError::SlippageExceeded.describe(), "slippage exceeded");
}
