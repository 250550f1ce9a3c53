use signal_engine::records::{
    make_doc_id, make_trade_record, next_lot_no, parse_lot_filename, utc_date_string,
    utc_datetime_string, SettlementFacts, WinStatus,
};

fn facts() -> SettlementFacts {
    SettlementFacts {
        order_no: 3,
        contract_id: "987654321".to_string(),
        symbol: "R_100".to_string(),
        trade_type: "CALL".to_string(),
        buy_price: 100,
        payout: 195,
        profit_loss: 95,
        buy_time: 1_700_000_000,
        expiry_time: 1_700_000_055,
        entry_spot: 123_456,
        exit_spot: 123_999,
        lot_no: 2,
        trade_no_in_lot: 3,
    }
}

#[test]
fn date_formatting_is_utc() {
    assert_eq!(utc_date_string(0), "1970-01-01");
    assert_eq!(utc_date_string(86_400), "1970-01-02");
    assert_eq!(utc_date_string(1_700_000_000), "2023-11-14");
    assert_eq!(utc_datetime_string(0), "1970-01-01T00:00:00");
    assert_eq!(utc_datetime_string(1_700_000_000), "2023-11-14T22:13:20");
}

#[test]
fn document_ids_join_date_and_contract() {
    assert_eq!(make_doc_id("2024-05-01", "12345"), "2024-05-01_12345");
    assert_eq!(make_doc_id("", "x"), "_x");
}

#[test]
fn repeated_settlement_yields_the_same_record() {
    let a = make_trade_record(facts());
    let b = make_trade_record(facts());
    assert_eq!(a.doc_id(), b.doc_id());
    assert_eq!(a.doc_id(), "2023-11-14_987654321");
    assert_eq!(a.trade_date, b.trade_date);
    assert_eq!(a.created_at, b.created_at);
    assert_eq!(a.profit_loss, b.profit_loss);
    assert_eq!(a.status, WinStatus::Win);
    assert_eq!(a.status.as_str(), "win");
    assert_eq!(a.trade_date, "2023-11-14");
    assert_eq!(a.created_at, "2023-11-14T22:13:20");
}

#[test]
fn losses_are_recorded_as_losses() {
    let mut f = facts();
    f.profit_loss = -100;
    let r = make_trade_record(f);
    assert_eq!(r.status, WinStatus::Loss);
    assert_eq!(r.min_profit, -100);
    assert_eq!(r.max_profit, -100);
}

#[test]
fn lot_numbers_exceed_every_existing_one() {
    assert_eq!(next_lot_no(&vec![]), 1);
    assert_eq!(next_lot_no(&vec![3, 1, 2]), 4);
    assert_eq!(next_lot_no(&vec![7]), 8);
}

#[test]
fn lot_filenames_are_parsed() {
    assert_eq!(parse_lot_filename("lot_7.json"), Some(7));
    assert_eq!(parse_lot_filename("lot_123.json"), Some(123));
    assert_eq!(parse_lot_filename("lot_.json"), None);
    assert_eq!(parse_lot_filename("lot_12x.json"), None);
    assert_eq!(parse_lot_filename("trade.json"), None);
    assert_eq!(parse_lot_filename("lot_1.txt"), None);
    assert_eq!(parse_lot_filename(""), None);
}
