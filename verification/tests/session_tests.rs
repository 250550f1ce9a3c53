use signal_engine::candle::Candle;
use signal_engine::generator::{AnalysisGenerator, AnalysisOptions};
use signal_engine::ma::MaType;
use signal_engine::num::{div_floor, isqrt_u128, log2_fp};
use signal_engine::rulebook::Signal;
use signal_engine::session::{
    apply_ma_config, get_action_by_cut_type, get_action_by_simple, parse_ma_type, should_check,
    CutStrategy, MaConfig,
};

#[test]
fn minute_gate_runs_once_per_minute() {
    // The first frame triggers regardless of the second.
    assert!(should_check(659, None, false));
    // Afterwards only the first five seconds of a new minute trigger.
    assert!(should_check(660, Some(10), true));
    assert!(should_check(665, Some(10), true));
    assert!(!should_check(666, Some(10), true));
    // Never twice in the same minute.
    assert!(!should_check(661, Some(11), true));
    assert!(!should_check(659, Some(10), true));
}

#[test]
fn ma_type_names_are_parsed() {
    assert_eq!(parse_ma_type("sma"), MaType::SMA);
    assert_eq!(parse_ma_type("wma"), MaType::WMA);
    assert_eq!(parse_ma_type("hma"), MaType::HMA);
    assert_eq!(parse_ma_type("ehma"), MaType::EHMA);
    assert_eq!(parse_ma_type("ema"), MaType::EMA);
    assert_eq!(parse_ma_type("anything"), MaType::EMA);
    assert_eq!(parse_ma_type(""), MaType::EMA);
}

#[test]
fn ma_config_rows_apply_in_order() {
    let base = AnalysisOptions::default();
    let rows = vec![
        MaConfig { ma_type: MaType::HMA, period: 9 },
        MaConfig { ma_type: MaType::SMA, period: 26 },
    ];
    let opts = apply_ma_config(&base, &rows);
    assert_eq!(opts.ema1_type, MaType::HMA);
    assert_eq!(opts.ema1_period, 9);
    assert_eq!(opts.ema2_type, MaType::SMA);
    assert_eq!(opts.ema2_period, 26);
    assert_eq!(opts.ema3_type, base.ema3_type);
    assert_eq!(opts.ema3_period, base.ema3_period);
    assert_eq!(opts.rsi_period, base.rsi_period);
}

fn fixture_series() -> AnalysisGenerator {
    let mut generator = AnalysisGenerator::new(AnalysisOptions {
        ema1_period: 3,
        ema2_period: 5,
        ema3_period: 7,
        atr_period: 3,
        bb_period: 5,
        ci_period: 3,
        adx_period: 3,
        rsi_period: 5,
        ..Default::default()
    })
    .unwrap();
    let closes: [i64; 10] = [104, 107, 105, 103, 105, 108, 111, 114, 113, 112];
    let mut prev = 100;
    for (i, c) in closes.iter().enumerate() {
        let (high, low) = if *c >= prev { (*c + 1, prev - 1) } else { (prev + 1, *c - 1) };
        generator
            .append_candle(Candle { time: 60 * (i as u64 + 1), open: prev, high, low, close: *c })
            .unwrap();
        prev = *c;
    }
    generator
}

#[test]
fn simple_action_follows_short_over_medium() {
    let generator = fixture_series();
    let results = generator.series();
    // At the end of a rally the short average is on top.
    assert_eq!(get_action_by_simple(results, 7), Signal::Call);
    // Out-of-range indices act on nothing.
    assert_eq!(get_action_by_simple(results, 99), Signal::Idle);
}

#[test]
fn cut_actions_require_crossing_and_direction() {
    let generator = fixture_series();
    let results = generator.series();
    let mut called = 0;
    for i in 0..results.len() {
        match get_action_by_cut_type(results, i, CutStrategy::LongCut) {
            Signal::Call | Signal::Put => called += 1,
            Signal::Idle => {}
        }
        // The short-cut strategy must also be answerable at every index.
        let _ = get_action_by_cut_type(results, i, CutStrategy::ShortCut);
    }
    assert!(called <= results.len());
    assert_eq!(
        get_action_by_cut_type(results, 99, CutStrategy::LongCut),
        Signal::Idle
    );
}

#[test]
fn numeric_kernels_match_reference_values() {
    assert_eq!(div_floor(7, 2), 3);
    assert_eq!(div_floor(-7, 2), -4);
    assert_eq!(div_floor(-8, 2), -4);
    assert_eq!(isqrt_u128(0), 0);
    assert_eq!(isqrt_u128(15), 3);
    assert_eq!(isqrt_u128(16), 4);
    assert_eq!(isqrt_u128(1_000_000_000_000), 1_000_000);
    // The fixed-point logarithm is exact on powers of two.
    assert_eq!(log2_fp(1), 0);
    assert_eq!(log2_fp(2), 65536);
    assert_eq!(log2_fp(4), 131072);
    assert_eq!(log2_fp(1 << 20), 20 * 65536);
    // And close to the true value elsewhere: log2(10) is about 3.3219.
    let l10 = log2_fp(10);
    assert!((217700..217800).contains(&l10), "log2_fp(10) = {}", l10);
}
