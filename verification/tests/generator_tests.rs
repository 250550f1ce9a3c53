use signal_engine::analysis::TurnType;
use signal_engine::candle::{Candle, Color};
use signal_engine::codebook::Direction;
use signal_engine::generator::{AnalysisGenerator, AnalysisOptions, OptionsError};
use signal_engine::indicators::BbPosition;
use signal_engine::ma::MaType;

fn candle(time: u64, open: i64, high: i64, low: i64, close: i64) -> Candle {
    Candle { time, open, high, low, close }
}

fn sample_candles() -> Vec<Candle> {
    vec![
        candle(1, 100, 105, 99, 104),
        candle(2, 104, 108, 103, 107),
        candle(3, 107, 110, 106, 105),
        candle(4, 105, 107, 102, 103),
        candle(5, 103, 106, 101, 105),
        candle(6, 105, 109, 104, 108),
        candle(7, 108, 112, 107, 111),
        candle(8, 111, 115, 110, 114),
        candle(9, 114, 116, 112, 113),
        candle(10, 113, 115, 111, 112),
    ]
}

fn fixture_options() -> AnalysisOptions {
    AnalysisOptions {
        ema1_period: 3,
        ema2_period: 5,
        ema3_period: 7,
        atr_period: 3,
        bb_period: 5,
        ci_period: 3,
        adx_period: 3,
        rsi_period: 5,
        ..Default::default()
    }
}

#[test]
fn test_analysis_generator() {
    let mut generator = AnalysisGenerator::new(fixture_options()).unwrap();
    for c in sample_candles() {
        generator.append_candle(c).unwrap();
    }
    let results = generator.series();
    assert_eq!(results.len(), 10);
    assert!(
        results[0].color == Color::Green
            || results[0].color == Color::Red
            || results[0].color == Color::Equal
    );
}

#[test]
fn test_analysis_summary() {
    let mut generator = AnalysisGenerator::new(AnalysisOptions::default()).unwrap();
    for c in sample_candles() {
        generator.append_candle(c).unwrap();
    }
    let summary = generator.get_summary();
    assert!(summary.is_some());
    assert_eq!(summary.unwrap().total_candles, 10);
}

#[test]
fn ten_candle_fixture_end_to_end() {
    let mut generator = AnalysisGenerator::new(fixture_options()).unwrap();
    for c in sample_candles() {
        generator.append_candle(c).unwrap();
    }
    let results = generator.series();
    assert_eq!(results.len(), 10);
    assert_eq!(results[0].color, Color::Green);
    assert_eq!(results[9].color, Color::Red);
    assert!(results[9].atr > 0);
}

#[test]
fn first_candle_boundary() {
    let mut generator = AnalysisGenerator::new(fixture_options()).unwrap();
    let r = generator.append_candle(candle(1, 100, 105, 99, 104)).unwrap();
    assert_eq!(r.ema_short_value, 104);
    assert_eq!(r.ema_medium_value, 104);
    assert_eq!(r.ema_long_value, 104);
    assert_eq!(r.ema_short_direction, Direction::Flat);
    assert_eq!(r.ema_medium_direction, Direction::Flat);
    assert_eq!(r.ema_long_direction, Direction::Flat);
    assert_eq!(r.ema_short_turn_type, TurnType::NoTurn);
    assert_eq!(r.ema_short_turn_type.as_str(), "-");
    assert_eq!(r.atr, 105 - 99);
    assert!(r.rsi_value.is_none());
    assert!(r.adx_value.is_none());
    assert!(r.bb_values.middle.is_none());
    assert_eq!(r.bb_position, BbPosition::Unknown);
    assert!(r.choppy_indicator.is_none());
}

#[test]
fn candle_geometry_partition() {
    let mut generator = AnalysisGenerator::new(fixture_options()).unwrap();
    for c in sample_candles() {
        let r = generator.append_candle(c).unwrap();
        assert_eq!(r.body + r.u_wick + r.l_wick, r.high - r.low);
        let pct_sum = r.body_percent + r.u_wick_percent + r.l_wick_percent;
        assert!(0 <= pct_sum && pct_sum <= 100);
    }
}

#[test]
fn flat_candle_percents_are_zero() {
    let mut generator = AnalysisGenerator::new(fixture_options()).unwrap();
    let r = generator.append_candle(candle(1, 100, 100, 100, 100)).unwrap();
    assert_eq!(r.body_percent, 0);
    assert_eq!(r.u_wick_percent, 0);
    assert_eq!(r.l_wick_percent, 0);
    // With no height, the short average sits exactly on the candle: the
    // upper-wick position, since the degenerate body has no interior.
    assert_eq!(r.ema_cut_position.as_str(), "2");
}

#[test]
fn ordering_violation_is_rejected() {
    let mut generator = AnalysisGenerator::new(fixture_options()).unwrap();
    generator.append_candle(candle(60, 100, 105, 99, 104)).unwrap();
    assert!(generator.append_candle(candle(60, 104, 108, 103, 107)).is_err());
    assert!(generator.append_candle(candle(30, 104, 108, 103, 107)).is_err());
    assert_eq!(generator.series().len(), 1);
    assert!(generator.append_candle(candle(120, 104, 108, 103, 107)).is_ok());
}

#[test]
fn invalid_options_are_rejected() {
    let mut opts = fixture_options();
    opts.rsi_period = 0;
    match AnalysisGenerator::new(opts) {
        Err(OptionsError::InvalidPeriod) => {}
        _ => panic!("a zero period must be rejected"),
    }
    let mut opts2 = fixture_options();
    opts2.flat_threshold = -1;
    match AnalysisGenerator::new(opts2) {
        Err(OptionsError::InvalidThreshold) => {}
        _ => panic!("a negative threshold must be rejected"),
    }
}

#[test]
fn monotonic_rise_keeps_medium_direction_up() {
    // Closes 1000, 2000, ..., 100000: strictly rising with a comfortable
    // step, so the medium average rises at every index past the first.
    let mut generator = AnalysisGenerator::new(AnalysisOptions {
        ema1_period: 3,
        ema2_period: 5,
        ema3_period: 7,
        flat_threshold: 200,
        ..fixture_options()
    })
    .unwrap();
    for i in 1..=100u64 {
        let c = 1000 * i as i64;
        let r = generator.append_candle(candle(60 * i, c, c, c, c)).unwrap();
        if i >= 2 {
            assert_eq!(r.ema_medium_direction, Direction::Up, "index {}", i - 1);
        }
    }
    let last = generator.latest().unwrap();
    assert_eq!(last.up_con_medium_ema, 99);
    assert_eq!(last.down_con_medium_ema, 0);
}

#[test]
fn rsi_is_hundred_without_losses() {
    let mut generator = AnalysisGenerator::new(fixture_options()).unwrap();
    for i in 1..=20u64 {
        let c = 1000 * i as i64;
        let r = generator.append_candle(candle(60 * i, c, c, c, c)).unwrap();
        if (i as usize) <= 5 {
            assert!(r.rsi_value.is_none(), "warmup at index {}", i - 1);
        } else {
            assert_eq!(r.rsi_value, Some(100), "index {}", i - 1);
        }
    }
}

#[test]
fn rsi_stays_in_range() {
    let mut generator = AnalysisGenerator::new(fixture_options()).unwrap();
    for (i, c) in sample_candles().into_iter().enumerate() {
        let r = generator.append_candle(c).unwrap();
        if let Some(v) = r.rsi_value {
            assert!((0..=100).contains(&v), "index {}", i);
        }
    }
}

#[test]
fn adx_becomes_zero_without_directional_movement() {
    // Identical candles: positive true range, but no directional movement,
    // so every directional index is zero and so is its average.
    let mut generator = AnalysisGenerator::new(fixture_options()).unwrap();
    let mut last_adx = None;
    for i in 1..=20u64 {
        let r = generator.append_candle(candle(60 * i, 100, 110, 90, 105)).unwrap();
        last_adx = r.adx_value;
        if let Some(v) = r.adx_value {
            assert!((0..=100).contains(&v));
        }
    }
    assert_eq!(last_adx, Some(0));
}

#[test]
fn bollinger_bands_are_ordered() {
    let mut generator = AnalysisGenerator::new(fixture_options()).unwrap();
    for (i, c) in sample_candles().into_iter().enumerate() {
        let r = generator.append_candle(c).unwrap();
        if i + 1 >= 5 {
            let u = r.bb_values.upper.unwrap();
            let m = r.bb_values.middle.unwrap();
            let l = r.bb_values.lower.unwrap();
            assert!(l <= m && m <= u, "index {}", i);
            assert!(u > m && l < m, "the fixture has spread at index {}", i);
        } else {
            assert!(r.bb_values.middle.is_none());
        }
    }
}

#[test]
fn choppy_zigzag_has_high_choppiness_and_crossings() {
    // Alternating green and red candles of equal amplitude for fifty steps.
    let mut generator = AnalysisGenerator::new(AnalysisOptions {
        ema1_period: 3,
        ema2_period: 5,
        ema3_period: 10,
        ci_period: 14,
        ..fixture_options()
    })
    .unwrap();
    let mut flips = 0;
    let mut last_ci = None;
    for i in 1..=50u64 {
        let (o, c) = if i % 2 == 1 { (10000, 10100) } else { (10100, 10000) };
        let r = generator
            .append_candle(candle(60 * i, o, 10100, 10000, c))
            .unwrap();
        if r.ema_cut_long_type.is_some() {
            flips += 1;
        }
        last_ci = r.choppy_indicator;
    }
    assert!(flips >= 2, "expected repeated crossings, saw {}", flips);
    assert!(last_ci.unwrap() > 60, "choppiness {} should be high", last_ci.unwrap());
}

#[test]
fn crossing_resets_candles_since_cut() {
    let mut generator = AnalysisGenerator::new(fixture_options()).unwrap();
    for i in 1..=50u64 {
        let (o, c) = if i % 2 == 1 { (10000, 10100) } else { (10100, 10000) };
        let r = generator
            .append_candle(candle(60 * i, o, 10100, 10000, c))
            .unwrap();
        if r.ema_cut_long_type.is_some() {
            assert_eq!(r.candles_since_ema_cut, Some(0));
        }
    }
}

#[test]
fn replay_reproduces_the_series() {
    let run = || {
        let mut generator = AnalysisGenerator::new(fixture_options()).unwrap();
        for c in sample_candles() {
            generator.append_candle(c).unwrap();
        }
        generator.series().clone()
    };
    let a = run();
    let b = run();
    assert_eq!(a.len(), b.len());
    for (x, y) in a.iter().zip(b.iter()) {
        assert_eq!(x, y);
    }
}

#[test]
fn series_grows_one_record_per_candle() {
    let mut generator = AnalysisGenerator::new(fixture_options()).unwrap();
    for (i, c) in sample_candles().into_iter().enumerate() {
        generator.append_candle(c).unwrap();
        assert_eq!(generator.series().len(), i + 1);
    }
}

#[test]
fn next_color_is_patched_on_seal() {
    let mut generator = AnalysisGenerator::new(fixture_options()).unwrap();
    for c in sample_candles() {
        generator.append_candle(c).unwrap();
    }
    let results = generator.series();
    for i in 0..results.len() - 1 {
        assert_eq!(results[i].next_color, Some(results[i + 1].color));
    }
    assert_eq!(results[results.len() - 1].next_color, None);
}

#[test]
fn ticks_assemble_minute_candles() {
    let mut generator = AnalysisGenerator::new(fixture_options()).unwrap();
    assert_eq!(generator.append_tick(100, 600).unwrap(), None);
    assert_eq!(generator.append_tick(105, 610).unwrap(), None);
    assert_eq!(generator.append_tick(99, 620).unwrap(), None);
    assert_eq!(generator.append_tick(104, 650).unwrap(), None);
    // The next minute closes the forming candle.
    let closed = generator.append_tick(107, 660).unwrap().unwrap();
    assert_eq!(closed.open, 100);
    assert_eq!(closed.high, 105);
    assert_eq!(closed.low, 99);
    assert_eq!(closed.close, 104);
    assert_eq!(closed.candletime, 600);
    assert_eq!(generator.series().len(), 1);
}

#[test]
fn hull_and_weighted_types_run() {
    for t in [MaType::SMA, MaType::WMA, MaType::HMA, MaType::EHMA] {
        let mut generator = AnalysisGenerator::new(AnalysisOptions {
            ema1_type: t,
            ema2_type: t,
            ema3_type: t,
            ..fixture_options()
        })
        .unwrap();
        for c in sample_candles() {
            let r = generator.append_candle(c).unwrap();
            assert!(r.ema_short_value >= -1_000_000_000_000);
        }
        assert_eq!(generator.series().len(), 10);
    }
}

#[test]
fn sub_period_hull_falls_back_to_close() {
    let mut generator = AnalysisGenerator::new(AnalysisOptions {
        ema1_type: MaType::HMA,
        ema1_period: 9,
        ..fixture_options()
    })
    .unwrap();
    let r = generator.append_candle(candle(1, 100, 105, 99, 104)).unwrap();
    assert_eq!(r.ema_short_value, 104);
    let r2 = generator.append_candle(candle(2, 104, 108, 103, 107)).unwrap();
    assert_eq!(r2.ema_short_value, 107);
}
