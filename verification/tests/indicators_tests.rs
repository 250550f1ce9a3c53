use signal_engine::candle::Candle;
use signal_engine::generator::{AnalysisGenerator, AnalysisOptions};

fn candle(time: u64, open: i64, high: i64, low: i64, close: i64) -> Candle {
    Candle { time, open, high, low, close }
}

fn sample_candles() -> Vec<Candle> {
    vec![
        candle(1, 100, 105, 99, 104),
        candle(2, 104, 108, 103, 107),
        candle(3, 107, 110, 106, 105),
        candle(4, 105, 107, 102, 103),
        candle(5, 103, 106, 101, 105),
        candle(6, 105, 109, 104, 108),
        candle(7, 108, 112, 107, 111),
        candle(8, 111, 115, 110, 114),
        candle(9, 114, 116, 112, 113),
        candle(10, 113, 115, 111, 112),
        candle(11, 112, 114, 109, 110),
        candle(12, 110, 113, 108, 111),
        candle(13, 111, 115, 110, 114),
        candle(14, 114, 118, 113, 117),
        candle(15, 117, 120, 116, 119),
    ]
}

fn run_with_period_five() -> AnalysisGenerator {
    let mut generator = AnalysisGenerator::new(AnalysisOptions {
        ema1_period: 3,
        ema2_period: 5,
        ema3_period: 7,
        atr_period: 5,
        bb_period: 5,
        ci_period: 5,
        adx_period: 5,
        rsi_period: 5,
        ..Default::default()
    })
    .unwrap();
    for c in sample_candles() {
        generator.append_candle(c).unwrap();
    }
    generator
}

#[test]
fn test_rsi() {
    let generator = run_with_period_five();
    let result = generator.series();
    assert!(result[6].rsi_value.is_some());
}

#[test]
fn test_atr() {
    let generator = run_with_period_five();
    let result = generator.series();
    assert!(result[4].atr > 0);
}

#[test]
fn test_bollinger_bands() {
    let generator = run_with_period_five();
    let bb = generator.series()[4].bb_values;
    assert!(bb.middle.is_some());
    assert!(bb.upper.unwrap() > bb.middle.unwrap());
    assert!(bb.lower.unwrap() < bb.middle.unwrap());
}

#[test]
fn test_choppiness_index() {
    let generator = run_with_period_five();
    let ci = generator.series()[4].choppy_indicator;
    assert!(ci.is_some());
}

#[test]
fn test_adx() {
    let generator = run_with_period_five();
    // The directional average needs two periods of candles before it first
    // appears; the series itself has one record per candle throughout.
    assert_eq!(generator.series().len(), sample_candles().len());
    assert!(generator.series()[14].adx_value.is_some());
}
