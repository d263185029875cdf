use alm_core::engine::{RangeRecommendation, SkipReason};
use alm_core::monitor::{step, CycleAction, CycleEnd, CycleEvent, CycleFailure, CycleState};
use alm_core::tick_math::get_sqrt_ratio_at_tick;
use alm_core::types::{Pool, Position, Token, VaultDetails, VaultTVL, VaultTokenBalances};
use alm_core::uint::U256;
use alm_core::MathError;

fn token() -> Token {
    Token { address: "0xa".to_string(), name: "A".to_string(), symbol: "A".to_string(), decimals: 18, is_native_wrapper: false }
}

fn vault() -> VaultDetails {
    VaultDetails {
        address: "0xvault".to_string(),
        pool: Pool {
            address: "0xpool".to_string(),
            token0: token(),
            token1: token(),
            fee: 3000,
            tick_spacing: 60,
            current_tick: 0,
            sqrt_price_x96: get_sqrt_ratio_at_tick(0).unwrap(),
        },
        name: "V".to_string(),
        symbol: "V".to_string(),
        decimals: 18,
        total_supply: U256::zero(),
        lower_tick: 0,
        upper_tick: 0,
        is_active: false,
        is_vault_tokens_associated: true,
        position: Position::default(),
        tvl: VaultTVL { tvl0: U256::zero(), tvl1: U256::zero() },
    }
}

fn idle(b0: u128, b1: u128) -> VaultTokenBalances {
    VaultTokenBalances { token0_balance: U256::from_u128(b0), token1_balance: U256::from_u128(b1) }
}

#[test]
fn cycle_starts_with_a_refresh() {
    let r = step(CycleState::Idle, CycleEvent::IntervalElapsed, &vault(), &idle(0, 0));
    assert_eq!(r, (CycleState::Refreshing, CycleAction::Refresh));
}

#[test]
fn empty_vault_sleeps_after_refresh() {
    let r = step(CycleState::Refreshing, CycleEvent::Refreshed, &vault(), &idle(0, 0));
    assert_eq!(r, (CycleState::Idle, CycleAction::Sleep(CycleEnd::Skipped(SkipReason::NothingToDeploy))));
}

#[test]
fn funded_vault_asks_the_strategy_then_submits() {
    let v = vault();
    let b = idle(3_000_000_000_000_000_000, 1_000_000_000_000_000_000);
    let r = step(CycleState::Refreshing, CycleEvent::Refreshed, &v, &b);
    assert_eq!(r, (CycleState::AwaitingStrategy, CycleAction::AskStrategy));
    let rec = RangeRecommendation { rebalance_required: true, lower_tick: -600, upper_tick: 600 };
    let (state, action) = step(CycleState::AwaitingStrategy, CycleEvent::StrategyAnswered(rec), &v, &b);
    match (state, action) {
        (CycleState::Submitting(p), CycleAction::Submit(q)) => {
            assert_eq!(p, q);
            assert_eq!((p.range.lower_tick, p.range.upper_tick), (-600, 600));
            assert_eq!(p.liquidity, 49995001120617600611);
        }
        other => panic!("unexpected {other:?}"),
    }
    let done = step(state, CycleEvent::Submitted(true), &v, &b);
    assert_eq!(done, (CycleState::Idle, CycleAction::Sleep(CycleEnd::Rebalanced)));
    let reverted = step(state, CycleEvent::Submitted(false), &v, &b);
    assert_eq!(reverted, (CycleState::Idle, CycleAction::Alert(CycleFailure::Transaction)));
}

#[test]
fn failures_alert_and_return_to_idle() {
    let v = vault();
    let b = idle(1, 1);
    assert_eq!(
        step(CycleState::Refreshing, CycleEvent::ChainCallFailed, &v, &b),
        (CycleState::Idle, CycleAction::Alert(CycleFailure::ChainCall))
    );
    assert_eq!(
        step(CycleState::AwaitingStrategy, CycleEvent::StrategyFailed, &v, &b),
        (CycleState::Idle, CycleAction::Alert(CycleFailure::Strategy))
    );
    let bad = RangeRecommendation { rebalance_required: true, lower_tick: -900_000, upper_tick: 600 };
    assert_eq!(
        step(CycleState::AwaitingStrategy, CycleEvent::StrategyAnswered(bad), &v, &b),
        (CycleState::Idle, CycleAction::Alert(CycleFailure::Arithmetic(MathError::TickOutOfRange)))
    );
    assert_eq!(
        step(CycleState::Idle, CycleEvent::Refreshed, &v, &b),
        (CycleState::Idle, CycleAction::Alert(CycleFailure::UnexpectedEvent))
    );
}
