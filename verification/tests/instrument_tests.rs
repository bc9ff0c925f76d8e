use price_loom::instrument::{text_equals, AppFileKind, InstrumentSegment, InstrumentSource, InstrumentType};

const TYPES: [(InstrumentType, &str); 15] = [
    (InstrumentType::Currency, "CUR"),
    (InstrumentType::CurrencyFutures, "CDF"),
    (InstrumentType::CurrencyOptions, "CDO"),
    (InstrumentType::InterestRateFuturesMiborGsec, "IRF"),
    (InstrumentType::InterestRateFuturesTbill, "IRT"),
    (InstrumentType::InterestRateOptions, "IRO"),
    (InstrumentType::Stock, "STK"),
    (InstrumentType::Commodity, "COM"),
    (InstrumentType::CommodityFutures, "COF"),
    (InstrumentType::CommodityOptions, "COO"),
    (InstrumentType::OptionsOnFutures, "FUO"),
    (InstrumentType::StockFutures, "STF"),
    (InstrumentType::StockOptions, "STO"),
    (InstrumentType::IndexFutures, "IDF"),
    (InstrumentType::IndexOptions, "IDO"),
];

#[test]
fn instrument_type_codes_round_trip() {
    for (i, (t, code)) in TYPES.iter().enumerate() {
        assert_eq!(t.code(), *code);
        assert_eq!(InstrumentType::from_code(code), Some(*t));
        assert_eq!(t.rank(), i as i64);
    }
    assert_eq!(InstrumentType::from_code("stk"), None);
    assert_eq!(InstrumentType::from_code(""), None);
    assert_eq!(InstrumentType::from_code("STKX"), None);
}

#[test]
fn segment_codes_round_trip() {
    let segs = [
        (InstrumentSegment::CaptialMarkets, "CM"),
        (InstrumentSegment::FuturesAndOptions, "FO"),
        (InstrumentSegment::CurrencyDerivatives, "CD"),
        (InstrumentSegment::CommoditiesDerivatives, "COM"),
    ];
    for (i, (s, code)) in segs.iter().enumerate() {
        assert_eq!(s.code(), *code);
        assert_eq!(InstrumentSegment::from_code(code), Some(*s));
        assert_eq!(s.rank(), i as i64);
    }
    assert_eq!(InstrumentSegment::from_code("XX"), None);
}

#[test]
fn source_and_kind_names() {
    assert_eq!(InstrumentSource::NSE.code(), "NSE");
    assert_eq!(InstrumentSource::NSE.db_name(), "nse");
    assert_eq!(InstrumentSource::from_code("NSE"), Some(InstrumentSource::NSE));
    assert_eq!(InstrumentSource::from_code("BSE"), None);
    assert_eq!(AppFileKind::NSE.name(), "nse");
}

#[test]
fn text_equals_compares_characters() {
    assert!(text_equals("abc", "abc"));
    assert!(!text_equals("abc", "abd"));
    assert!(!text_equals("abc", "ab"));
    assert!(text_equals("", ""));
    assert!(text_equals("₹é", "₹é"));
}
