use radiswap::pool::{Pool, PoolError, Tokens, BOOTSTRAP_SHARES, FEE_SCALE};

const ASSET_A: u64 = 1;
const ASSET_B: u64 = 2;
const SHARE: u64 = 9;

fn live_pool(reserve_a: u64, reserve_b: u64, supply: u64, fee: u64) -> Pool {
    let (pool, shares) = Pool::create(
        Tokens { asset: ASSET_A, amount: reserve_a },
        Tokens { asset: ASSET_B, amount: reserve_b },
        supply,
        fee,
        SHARE,
    )
    .expect("valid pool");
    assert_eq!(shares, Tokens { asset: SHARE, amount: supply });
    pool
}

#[test]
fn create_rejects_empty_deposit() {
    let err = Pool::create(
        Tokens { asset: ASSET_A, amount: 0 },
        Tokens { asset: ASSET_B, amount: 1000 },
        100,
        0,
        SHARE,
    );
    assert_eq!(err, Err(PoolError::InvalidDeposit));
    let err = Pool::create(
        Tokens { asset: ASSET_A, amount: 1000 },
        Tokens { asset: ASSET_B, amount: 0 },
        100,
        0,
        SHARE,
    );
    assert_eq!(err, Err(PoolError::InvalidDeposit));
}

#[test]
fn create_rejects_fee_above_one() {
    // A fee of 1.5 in billionths.
    let err = Pool::create(
        Tokens { asset: ASSET_A, amount: 1000 },
        Tokens { asset: ASSET_B, amount: 1000 },
        100,
        1_500_000_000,
        SHARE,
    );
    assert_eq!(err, Err(PoolError::InvalidFee));
}

#[test]
fn create_initializes_reserves_and_shares() {
    let pool = live_pool(1000, 500, 100, 0);
    assert_eq!(pool.reserve_a, 1000);
    assert_eq!(pool.reserve_b, 500);
    assert_eq!(pool.share_supply, 100);
    assert_eq!(pool.fee, 0);
}

#[test]
fn swap_small_pool_no_fee() {
    let mut pool = live_pool(1000, 1000, 100, 0);
    let out = pool.swap(Tokens { asset: ASSET_A, amount: 100 }).expect("known asset");
    // 100 * 1000 / (1000 + 100), rounded down.
    assert_eq!(out, Tokens { asset: ASSET_B, amount: 90 });
    assert_eq!(pool.reserve_a, 1100);
    assert_eq!(pool.reserve_b, 910);
    // The product of the reserves did not decrease.
    assert!(1100u128 * 910u128 >= 1000u128 * 1000u128);
}

#[test]
fn swap_thousand_tokens_no_fee() {
    // Reserves of 1000 whole tokens on each side, in billionth subunits.
    let mut pool = live_pool(1_000_000_000_000, 1_000_000_000_000, 100, 0);
    let out = pool.swap(Tokens { asset: ASSET_A, amount: 100_000_000_000 }).expect("known asset");
    // 100 * 1000 / 1100 whole tokens: 90.909090909... , rounded down.
    assert_eq!(out.asset, ASSET_B);
    assert_eq!(out.amount, 90_909_090_909);
}

#[test]
fn swap_thousand_tokens_with_fee() {
    // The same pool with a fee of 0.003: the fee-adjusted input is 99.7
    // whole tokens, and the output 99.7 * 1000 / 1099.7 whole tokens.
    let mut pool = live_pool(1_000_000_000_000, 1_000_000_000_000, 100, 3_000_000);
    let out = pool.swap(Tokens { asset: ASSET_A, amount: 100_000_000_000 }).expect("known asset");
    assert_eq!(out.asset, ASSET_B);
    assert_eq!(out.amount, 90_661_089_388);
    // The whole input joined the reserve, fee included.
    assert_eq!(pool.reserve_a, 1_100_000_000_000);
    assert_eq!(pool.reserve_b, 1_000_000_000_000 - 90_661_089_388);
}

#[test]
fn swap_other_direction() {
    let mut pool = live_pool(1000, 1000, 100, 0);
    let out = pool.swap(Tokens { asset: ASSET_B, amount: 100 }).expect("known asset");
    assert_eq!(out, Tokens { asset: ASSET_A, amount: 90 });
    assert_eq!(pool.reserve_a, 910);
    assert_eq!(pool.reserve_b, 1100);
}

#[test]
fn swap_with_fee_of_one_returns_nothing() {
    let mut pool = live_pool(1000, 1000, 100, FEE_SCALE);
    let out = pool.swap(Tokens { asset: ASSET_A, amount: 100 }).expect("known asset");
    assert_eq!(out, Tokens { asset: ASSET_B, amount: 0 });
    assert_eq!(pool.reserve_a, 1100);
    assert_eq!(pool.reserve_b, 1000);
}

#[test]
fn swap_rejects_unknown_asset() {
    let mut pool = live_pool(1000, 1000, 100, 0);
    let err = pool.swap(Tokens { asset: 77, amount: 100 });
    assert_eq!(err, Err(PoolError::UnknownAsset));
    assert_eq!(pool.reserve_a, 1000);
    assert_eq!(pool.reserve_b, 1000);
}

#[test]
fn add_liquidity_at_even_ratio_accepts_all() {
    let mut pool = live_pool(1000, 500, 100, 0);
    let (refund_a, refund_b, minted) = pool
        .add_liquidity(
            Tokens { asset: ASSET_A, amount: 200 },
            Tokens { asset: ASSET_B, amount: 100 },
        )
        .expect("known assets");
    assert_eq!(refund_a, Tokens { asset: ASSET_A, amount: 0 });
    assert_eq!(refund_b, Tokens { asset: ASSET_B, amount: 0 });
    // 200 * 100 / 1000 shares.
    assert_eq!(minted, Tokens { asset: SHARE, amount: 20 });
    // The price ratio 2 : 1 is untouched.
    assert_eq!(pool.reserve_a, 1200);
    assert_eq!(pool.reserve_b, 600);
    assert_eq!(pool.share_supply, 120);
}

#[test]
fn add_liquidity_refunds_oversupplied_b() {
    let mut pool = live_pool(1000, 500, 100, 0);
    let (refund_a, refund_b, minted) = pool
        .add_liquidity(
            Tokens { asset: ASSET_A, amount: 100 },
            Tokens { asset: ASSET_B, amount: 100 },
        )
        .expect("known assets");
    // A is fully absorbed; B only up to the pool ratio: 100 * 500 / 1000.
    assert_eq!(refund_a, Tokens { asset: ASSET_A, amount: 0 });
    assert_eq!(refund_b, Tokens { asset: ASSET_B, amount: 50 });
    assert_eq!(minted, Tokens { asset: SHARE, amount: 10 });
    assert_eq!(pool.reserve_a, 1100);
    assert_eq!(pool.reserve_b, 550);
    assert_eq!(pool.share_supply, 110);
}

#[test]
fn add_liquidity_refunds_oversupplied_a() {
    let mut pool = live_pool(1000, 500, 100, 0);
    let (refund_a, refund_b, minted) = pool
        .add_liquidity(
            Tokens { asset: ASSET_A, amount: 200 },
            Tokens { asset: ASSET_B, amount: 50 },
        )
        .expect("known assets");
    // B is fully absorbed; A only up to the pool ratio: 50 * 1000 / 500.
    assert_eq!(refund_a, Tokens { asset: ASSET_A, amount: 100 });
    assert_eq!(refund_b, Tokens { asset: ASSET_B, amount: 0 });
    assert_eq!(minted, Tokens { asset: SHARE, amount: 10 });
    assert_eq!(pool.reserve_a, 1100);
    assert_eq!(pool.reserve_b, 550);
    assert_eq!(pool.share_supply, 110);
}

#[test]
fn add_liquidity_sorts_swapped_deposits() {
    let mut pool = live_pool(1000, 500, 100, 0);
    let (refund_a, refund_b, minted) = pool
        .add_liquidity(
            Tokens { asset: ASSET_B, amount: 100 },
            Tokens { asset: ASSET_A, amount: 100 },
        )
        .expect("known assets");
    // Same deposits as above, handed over in the other order: the refunds
    // still come keyed by the pool's own slots.
    assert_eq!(refund_a, Tokens { asset: ASSET_A, amount: 0 });
    assert_eq!(refund_b, Tokens { asset: ASSET_B, amount: 50 });
    assert_eq!(minted, Tokens { asset: SHARE, amount: 10 });
}

#[test]
fn add_liquidity_bootstraps_empty_share_supply() {
    let mut pool = live_pool(500, 500, 0, 0);
    let (_, _, minted) = pool
        .add_liquidity(
            Tokens { asset: ASSET_A, amount: 100 },
            Tokens { asset: ASSET_B, amount: 100 },
        )
        .expect("known assets");
    assert_eq!(minted, Tokens { asset: SHARE, amount: BOOTSTRAP_SHARES });
    assert_eq!(pool.share_supply, BOOTSTRAP_SHARES);
}

#[test]
fn add_liquidity_rejects_unknown_asset() {
    let mut pool = live_pool(1000, 500, 100, 0);
    let err = pool.add_liquidity(
        Tokens { asset: ASSET_A, amount: 100 },
        Tokens { asset: 77, amount: 100 },
    );
    assert_eq!(err, Err(PoolError::UnknownAsset));
    assert_eq!(pool.reserve_a, 1000);
    assert_eq!(pool.reserve_b, 500);
    assert_eq!(pool.share_supply, 100);
}

#[test]
fn remove_liquidity_pays_proportional_share() {
    let mut pool = live_pool(1000, 500, 100, 0);
    let (out_a, out_b) = pool
        .remove_liquidity(Tokens { asset: SHARE, amount: 30 })
        .expect("right share token");
    assert_eq!(out_a, Tokens { asset: ASSET_A, amount: 300 });
    assert_eq!(out_b, Tokens { asset: ASSET_B, amount: 150 });
    assert_eq!(pool.reserve_a, 700);
    assert_eq!(pool.reserve_b, 350);
    assert_eq!(pool.share_supply, 70);
}

#[test]
fn remove_liquidity_of_whole_supply_drains_pool() {
    let mut pool = live_pool(1234, 567, 100, 0);
    let (out_a, out_b) = pool
        .remove_liquidity(Tokens { asset: SHARE, amount: 100 })
        .expect("right share token");
    assert_eq!(out_a, Tokens { asset: ASSET_A, amount: 1234 });
    assert_eq!(out_b, Tokens { asset: ASSET_B, amount: 567 });
    assert_eq!(pool.reserve_a, 0);
    assert_eq!(pool.reserve_b, 0);
    assert_eq!(pool.share_supply, 0);
}

#[test]
fn remove_liquidity_rejects_wrong_token() {
    let mut pool = live_pool(1000, 500, 100, 0);
    let err = pool.remove_liquidity(Tokens { asset: ASSET_A, amount: 10 });
    assert_eq!(err, Err(PoolError::WrongShareToken));
    assert_eq!(pool.reserve_a, 1000);
    assert_eq!(pool.share_supply, 100);
}

#[test]
fn add_then_remove_minted_shares_returns_deposit() {
    let mut pool = live_pool(1000, 1000, 100, 0);
    let (refund_a, refund_b, minted) = pool
        .add_liquidity(
            Tokens { asset: ASSET_A, amount: 100 },
            Tokens { asset: ASSET_B, amount: 100 },
        )
        .expect("known assets");
    assert_eq!(refund_a.amount, 0);
    assert_eq!(refund_b.amount, 0);
    assert_eq!(minted, Tokens { asset: SHARE, amount: 10 });
    let (out_a, out_b) = pool.remove_liquidity(minted).expect("right share token");
    // Nothing rounds here, so the round trip gives back the deposits exactly
    // and the reserves return to their pre-deposit values.
    assert_eq!(out_a, Tokens { asset: ASSET_A, amount: 100 });
    assert_eq!(out_b, Tokens { asset: ASSET_B, amount: 100 });
    assert_eq!(pool.reserve_a, 1000);
    assert_eq!(pool.reserve_b, 1000);
    assert_eq!(pool.share_supply, 100);
}

#[test]
fn repeated_even_ratio_adds_keep_price() {
    let mut pool = live_pool(1000, 500, 100, 0);
    for _ in 0..4 {
        pool.add_liquidity(
            Tokens { asset: ASSET_A, amount: 50 },
            Tokens { asset: ASSET_B, amount: 25 },
        )
        .expect("known assets");
        // reserve_a / reserve_b stays exactly 2.
        assert_eq!(pool.reserve_a, 2 * pool.reserve_b);
    }
    assert_eq!(pool.reserve_a, 1200);
    assert_eq!(pool.reserve_b, 600);
}
