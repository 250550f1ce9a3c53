use signal_engine::candle::Candle;
use signal_engine::generator::{AnalysisGenerator, AnalysisOptions};
use signal_engine::ma::MaType;
use signal_engine::rulebook::{classify, parse_entry, parse_signal_codes, Signal, TradeSignalEntry};

#[test]
fn code_lists_are_parsed_and_trimmed() {
    assert_eq!(parse_signal_codes("7, 15"), vec![7, 15]);
    assert_eq!(parse_signal_codes("42"), vec![42]);
    assert_eq!(parse_signal_codes("  3 ,4,  5  "), vec![3, 4, 5]);
    assert_eq!(parse_signal_codes(""), Vec::<u32>::new());
    assert_eq!(parse_signal_codes(" , ,"), Vec::<u32>::new());
    assert_eq!(parse_signal_codes("7, x, 008"), vec![7, 8]);
    assert_eq!(parse_signal_codes("12a4, 9"), vec![9]);
}

#[test]
fn entries_are_parsed() {
    let entry = TradeSignalEntry {
        id: "1".to_string(),
        asset_code: "R_100".to_string(),
        put_signal: "42".to_string(),
        call_signal: "7, 15".to_string(),
        is_active: "y".to_string(),
    };
    let parsed = parse_entry(&entry);
    assert_eq!(parsed.symbol, "R_100");
    assert_eq!(parsed.call_codes, vec![7, 15]);
    assert_eq!(parsed.put_codes, vec![42]);
    assert!(parsed.active);

    let inactive = TradeSignalEntry { is_active: "n".to_string(), ..entry };
    assert!(!parse_entry(&inactive).active);
}

#[test]
fn classification_prefers_calls() {
    let call = vec![7, 15];
    let put = vec![42];
    assert_eq!(classify(Some(7), &call, &put), Signal::Call);
    assert_eq!(classify(Some(15), &call, &put), Signal::Call);
    assert_eq!(classify(Some(42), &call, &put), Signal::Put);
    assert_eq!(classify(Some(9), &call, &put), Signal::Idle);
    assert_eq!(classify(None, &call, &put), Signal::Idle);
    // A code in both lists is a call: the call list is consulted first.
    assert_eq!(classify(Some(7), &call, &vec![7]), Signal::Call);
}

#[test]
fn steady_decline_signals_a_call_for_code_seven() {
    // A long, perfectly linear decline settles the exponential averages into
    // constant separations: the medium average sits below the long one, both
    // fall, candles are red, and the separation class is steady — the
    // descriptor L-D-D-R-N, status code 7.
    let mut generator = AnalysisGenerator::new(AnalysisOptions {
        ema1_period: 5,
        ema1_type: MaType::EMA,
        ema2_period: 5,
        ema2_type: MaType::EMA,
        ema3_period: 21,
        ema3_type: MaType::EMA,
        ..Default::default()
    })
    .unwrap();
    let mut code = None;
    for i in 1..=400u64 {
        let close = 2_000_000 - 1000 * i as i64;
        let open = close + 1000;
        let r = generator
            .append_candle(Candle { time: 60 * i, open, high: open, low: close, close })
            .unwrap();
        code = r.status_code;
    }
    assert_eq!(code, Some(7), "descriptor {:?}", generator.latest().unwrap().status_desc());

    // Rulebook: CALL on 7 or 15, PUT on 42.
    let entry = TradeSignalEntry {
        id: "1".to_string(),
        asset_code: "X".to_string(),
        put_signal: "42".to_string(),
        call_signal: "7, 15".to_string(),
        is_active: "y".to_string(),
    };
    let parsed = parse_entry(&entry);
    assert_eq!(
        classify(code, &parsed.call_codes, &parsed.put_codes),
        Signal::Call,
        "the decision pass must emit a call for this symbol"
    );

    // Any other symbol, with a rulebook that does not list code 7, idles.
    let other = TradeSignalEntry {
        id: "2".to_string(),
        asset_code: "Y".to_string(),
        put_signal: "3".to_string(),
        call_signal: "11".to_string(),
        is_active: "y".to_string(),
    };
    let other_parsed = parse_entry(&other);
    assert_eq!(
        classify(code, &other_parsed.call_codes, &other_parsed.put_codes),
        Signal::Idle
    );
}
