use signal_engine::candle::Color;
use signal_engine::codebook::{
    lookup_series_code, render_status_desc, series_code, status_code, u32_to_string, AboveLong,
    CandleMasterCode, ConvClass, Direction, StatusKey,
};

#[test]
fn test_series_code_lookup() {
    assert_eq!(lookup_series_code("L-DD-G-C"), Some(2));
    assert_eq!(lookup_series_code("M-UU-G-N"), Some(81));
    assert_eq!(lookup_series_code("INVALID"), None);
}

#[test]
fn lookup_covers_equal_color_entries() {
    assert_eq!(lookup_series_code("L-DD-E-D"), Some(1));
    assert_eq!(lookup_series_code("M-UD-E-C"), Some(66));
    assert_eq!(lookup_series_code("M-UU-E-D"), Some(77));
    assert_eq!(lookup_series_code("M-UU-E-N"), Some(78));
    assert_eq!(lookup_series_code("M-UU-R-N"), Some(84));
}

#[test]
fn lookup_rejects_malformed_descriptors() {
    assert_eq!(lookup_series_code(""), None);
    assert_eq!(lookup_series_code("L-DD-G-"), None);
    assert_eq!(lookup_series_code("L-DD-G-CX"), None);
    assert_eq!(lookup_series_code("LxDD-G-C"), None);
    assert_eq!(lookup_series_code("L-DQ-G-C"), None);
}

fn key(
    above: AboveLong,
    medium_dir: Direction,
    long_dir: Direction,
    color: Color,
    conv: ConvClass,
) -> StatusKey {
    StatusKey { above, medium_dir, long_dir, color, conv }
}

#[test]
fn trading_codebook_matches_table() {
    // The trading codebook is the full table without its Equal-color rows.
    let k = key(
        AboveLong::LongAbove,
        Direction::Down,
        Direction::Down,
        Color::Red,
        ConvClass::N,
    );
    assert_eq!(status_code(&k), Some(7));
    assert_eq!(series_code(&k), Some(7));

    let e = key(
        AboveLong::MediumAbove,
        Direction::Up,
        Direction::Up,
        Color::Equal,
        ConvClass::D,
    );
    assert_eq!(series_code(&e), Some(77));
    assert_eq!(status_code(&e), None);

    let unknown = key(
        AboveLong::LongAbove,
        Direction::Flat,
        Direction::Flat,
        Color::Red,
        ConvClass::C,
    );
    assert_eq!(series_code(&unknown), None);
    assert_eq!(status_code(&unknown), None);
}

#[test]
fn descriptor_rendering() {
    let k = key(
        AboveLong::MediumAbove,
        Direction::Up,
        Direction::Down,
        Color::Green,
        ConvClass::C,
    );
    assert_eq!(render_status_desc(&k), "M-U-D-G-C");
    let k2 = key(
        AboveLong::LongAbove,
        Direction::Flat,
        Direction::Up,
        Color::Equal,
        ConvClass::N,
    );
    assert_eq!(render_status_desc(&k2), "L-F-U-E-N");
}

#[test]
fn decimal_rendering() {
    assert_eq!(u32_to_string(0), "0");
    assert_eq!(u32_to_string(7), "7");
    assert_eq!(u32_to_string(84), "84");
    assert_eq!(u32_to_string(1900), "1900");
}

#[test]
fn master_code_entries() {
    let k = key(
        AboveLong::MediumAbove,
        Direction::Up,
        Direction::Up,
        Color::Green,
        ConvClass::N,
    );
    let entry: CandleMasterCode = CandleMasterCode::of_key(&k).expect("code 81 exists");
    assert_eq!(entry.status_desc, "M-U-U-G-N");
    assert_eq!(entry.status_code, "81");

    let e = key(
        AboveLong::MediumAbove,
        Direction::Up,
        Direction::Up,
        Color::Equal,
        ConvClass::N,
    );
    assert!(CandleMasterCode::of_key(&e).is_none());
}
