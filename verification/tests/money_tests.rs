use signal_engine::money::{
    martingale_stake, LotConfig, LotState, MoneyMode, SettleReport, TradeDecision, LADDER_LEN,
};
use signal_engine::rulebook::Signal;

fn fix_config(initial_stake: i64, target_profit: i64) -> LotConfig {
    LotConfig { mode: MoneyMode::Fix, initial_stake, target_profit, target_win: 1000 }
}

fn martingale_config(target_win: u32) -> LotConfig {
    LotConfig {
        mode: MoneyMode::Martingale,
        initial_stake: 100,
        target_profit: 1_000_000,
        target_win,
    }
}

#[test]
fn settlement_moves_balance_exactly() {
    let cfg = fix_config(100, 1_000_000);
    let mut lot = LotState::new_lot(2, 100_000);
    let before = lot.balance;
    lot.settle(&cfg, 0, 8_500);
    assert_eq!(lot.balance, before + 8_500);
    assert_eq!(lot.grand_profit, 8_500);
    let mid = lot.balance;
    lot.settle(&cfg, 1, -3_000);
    assert_eq!(lot.balance, mid - 3_000);
    assert_eq!(lot.grand_profit, 5_500);
    assert_eq!(lot.trade_count, 2);
    assert_eq!(lot.win_count, 1);
}

#[test]
fn fix_lot_stops_at_target_profit() {
    // Stake one unit (100 cents), target two units: three wins of one unit
    // each must stop the lot at the second settlement, and no third trade
    // may be dispatched.
    let cfg = fix_config(100, 200);
    let mut lot = LotState::new_lot(1, 10_000);

    assert_eq!(lot.decide(&cfg, 0, Signal::Call), TradeDecision::BuyCall(100));
    let first: SettleReport = lot.settle(&cfg, 0, 100);
    assert!(first.is_win);
    assert!(!first.stop);
    assert!(lot.lot_active);

    assert_eq!(lot.decide(&cfg, 0, Signal::Call), TradeDecision::BuyCall(100));
    let second = lot.settle(&cfg, 0, 100);
    assert!(second.is_win);
    assert!(second.stop, "the profit target is reached exactly here");
    assert!(!lot.lot_active);

    // The would-be third trade is not dispatched.
    assert_eq!(lot.decide(&cfg, 0, Signal::Call), TradeDecision::Idle);
}

#[test]
fn martingale_lot_stops_at_target_wins() {
    let cfg = martingale_config(2);
    let mut lot = LotState::new_lot(1, 1_000_000);

    // A loss first, so the second win lands at a nonzero ladder position.
    let loss = lot.settle(&cfg, 0, -100);
    assert!(!loss.is_win);
    assert!(!loss.stop);

    let first_win = lot.settle(&cfg, 0, 180);
    assert!(first_win.is_win);
    assert!(!first_win.stop);
    assert!(lot.lot_active);

    lot.settle(&cfg, 0, -100);
    let second_win = lot.settle(&cfg, 0, 180);
    assert!(second_win.is_win);
    assert!(second_win.stop, "the second win must stop the session");
    assert!(!lot.lot_active);
    assert_eq!(lot.decide(&cfg, 0, Signal::Put), TradeDecision::Idle);
}

#[test]
fn martingale_ladder_advances_and_resets() {
    let cfg = martingale_config(1000);
    let mut lot = LotState::new_lot(1, 10_000_000);
    assert_eq!(lot.stake_for(&cfg, 0), 100);
    lot.settle(&cfg, 0, -100);
    assert_eq!(lot.stake_for(&cfg, 0), 200);
    lot.settle(&cfg, 0, -200);
    assert_eq!(lot.stake_for(&cfg, 0), 600);
    // A win resets the ladder to the bottom rung.
    lot.settle(&cfg, 0, 500);
    assert_eq!(lot.stake_for(&cfg, 0), 100);
}

#[test]
fn martingale_ladder_saturates_at_the_top() {
    let cfg = martingale_config(1000);
    let mut lot = LotState::new_lot(1, 10_000_000);
    for _ in 0..20 {
        lot.settle(&cfg, 0, -100);
    }
    assert_eq!(lot.stake_for(&cfg, 0), 160_000);
    assert_eq!(lot.stake_for(&cfg, 0), martingale_stake(LADDER_LEN - 1));
}

#[test]
fn fixed_mode_never_moves_the_ladder() {
    let cfg = fix_config(700, 1_000_000);
    let mut lot = LotState::new_lot(1, 1_000_000);
    lot.settle(&cfg, 0, -700);
    lot.settle(&cfg, 0, -700);
    assert_eq!(lot.decide(&cfg, 0, Signal::Call), TradeDecision::BuyCall(700));
}

#[test]
fn insufficient_balance_is_reported() {
    let cfg = fix_config(5_000, 1_000_000);
    let mut lot = LotState::new_lot(1, 4_999);
    assert_eq!(
        lot.decide(&cfg, 0, Signal::Put),
        TradeDecision::InsufficientBalance
    );
    lot.settle(&cfg, 0, 1);
    assert_eq!(lot.decide(&cfg, 0, Signal::Put), TradeDecision::BuyPut(5_000));
}

#[test]
fn idle_signal_dispatches_nothing() {
    let cfg = fix_config(100, 1_000_000);
    let lot = LotState::new_lot(1, 10_000);
    assert_eq!(lot.decide(&cfg, 0, Signal::Idle), TradeDecision::Idle);
}

#[test]
fn ladder_values_match_the_fixed_progression() {
    let expected: [i64; 9] = [100, 200, 600, 1800, 5400, 16200, 38400, 80000, 160000];
    for (i, v) in expected.iter().enumerate() {
        assert_eq!(martingale_stake(i), *v);
    }
}
