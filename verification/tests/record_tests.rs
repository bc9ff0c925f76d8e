use price_loom::instrument::{InstrumentSegment, InstrumentSource, InstrumentType};
use price_loom::order::compare_keys;
use price_loom::price::{is_nan, order_key};
use price_loom::record::{BhavError, BhavRawRecord, BhavRecord, PriceField};
use price_loom::record_set::{collect_bhav_records, usable_headers};

fn raw(ticker: &str, trade_date: &str, close: f64) -> BhavRawRecord {
    BhavRawRecord {
        trade_date: trade_date.to_string(),
        business_date: None,
        segment: None,
        source: None,
        instrument_type: None,
        instrument_id: None,
        isin: Some("INE000000000".to_string()),
        ticker_symbol: ticker.to_string(),
        security_series: "EQ".to_string(),
        expiry_date: None,
        actual_expiry_date: None,
        strike_price: None,
        option_type: None,
        instrument_name: None,
        open_price: 10.0f64.to_bits(),
        high_price: 12.0f64.to_bits(),
        low_price: 9.5f64.to_bits(),
        close_price: close.to_bits(),
        last_price: 11.0f64.to_bits(),
        previous_close_price: 10.0f64.to_bits(),
        underlying_price: None,
        settlement_price: None,
        open_interest: None,
        change_in_open_interest: None,
        total_traded_volume: 1000,
        total_traded_value: 11000.0f64.to_bits(),
        total_number_of_trades: Some(12),
        session_id: None,
        market_lot_size: None,
        remarks: None,
    }
}

#[test]
fn nan_detection_matches_f64() {
    for v in [0.0f64, -0.0, 1.5, -2.25, f64::INFINITY, f64::NEG_INFINITY, f64::NAN, -f64::NAN, f64::MIN_POSITIVE, 1e300] {
        assert_eq!(is_nan(v.to_bits()), v.is_nan());
    }
    assert!(is_nan(0x7ff0_0000_0000_0001));
    assert!(!is_nan(0x7ff0_0000_0000_0000));
}

#[test]
fn order_key_orders_like_numbers() {
    let values = [f64::NEG_INFINITY, -1e300, -2.5, -1.0, -f64::MIN_POSITIVE, -0.0, 0.0, 5e-324, 1.0, 2.5, 1e300, f64::INFINITY];
    for a in values {
        for b in values {
            let ka = order_key(a.to_bits());
            let kb = order_key(b.to_bits());
            assert_eq!(ka.cmp(&kb), a.partial_cmp(&b).unwrap(), "{a} {b}");
        }
    }
    assert_eq!(order_key(0.0f64.to_bits()), 0);
    assert_eq!(order_key((-0.0f64).to_bits()), 0);
}

#[test]
fn compare_keys_is_lexicographic() {
    assert_eq!(compare_keys(&vec![1, 2, 3], &vec![1, 2, 3]), 0);
    assert_eq!(compare_keys(&vec![1, 2], &vec![1, 2, 3]), -1);
    assert_eq!(compare_keys(&vec![1, 3], &vec![1, 2, 3]), 1);
    assert_eq!(compare_keys(&vec![], &vec![]), 0);
    assert_eq!(compare_keys(&vec![-5], &vec![4]), -1);
}

#[test]
fn from_raw_fills_defaults() {
    let rec = BhavRecord::from_raw(raw("INFY", "03-Jun-2024", 11.0), InstrumentSource::NSE).unwrap().fields();
    assert_eq!(rec.segment, InstrumentSegment::CaptialMarkets);
    assert_eq!(rec.instrument_type, InstrumentType::Stock);
    assert_eq!(rec.source, InstrumentSource::NSE);
    assert_eq!((rec.trade_date.year(), rec.trade_date.month(), rec.trade_date.day()), (2024, 6, 3));
    assert_eq!(rec.business_date, None);
    assert_eq!(rec.ticker_symbol, "INFY");
    assert_eq!(rec.close_price, 11.0f64.to_bits());
    assert_eq!(rec.total_number_of_trades, Some(12));
}

#[test]
fn from_raw_keeps_given_segment_and_type() {
    let mut r = raw("NIFTY", "03-Jun-2024", 11.0);
    r.segment = Some(InstrumentSegment::FuturesAndOptions);
    r.instrument_type = Some(InstrumentType::IndexFutures);
    r.business_date = Some("2024-06-04".to_string());
    let rec = BhavRecord::from_raw(r, InstrumentSource::NSE).unwrap().fields();
    assert_eq!(rec.segment, InstrumentSegment::FuturesAndOptions);
    assert_eq!(rec.instrument_type, InstrumentType::IndexFutures);
    let b = rec.business_date.unwrap();
    assert_eq!((b.year(), b.month(), b.day()), (2024, 6, 4));
}

#[test]
fn from_raw_reports_the_first_failure() {
    assert_eq!(
        BhavRecord::from_raw(raw("A", "2024-06-03", f64::NAN), InstrumentSource::NSE).unwrap_err(),
        BhavError::InvalidTradeDate
    );
    let mut r = raw("A", "03-Jun-2024", f64::NAN);
    r.business_date = Some("03-Jun-2024".to_string());
    assert_eq!(BhavRecord::from_raw(r, InstrumentSource::NSE).unwrap_err(), BhavError::InvalidBusinessDate);
    assert_eq!(
        BhavRecord::from_raw(raw("A", "03-Jun-2024", f64::NAN), InstrumentSource::NSE).unwrap_err(),
        BhavError::NotANumber(PriceField::ClosePrice)
    );
    let mut r = raw("A", "03-Jun-2024", f64::NAN);
    r.strike_price = Some(f64::NAN.to_bits());
    assert_eq!(BhavRecord::from_raw(r, InstrumentSource::NSE).unwrap_err(), BhavError::NotANumber(PriceField::StrikePrice));
    let mut r = raw("A", "03-Jun-2024", 1.0);
    r.total_traded_value = f64::NAN.to_bits();
    assert_eq!(BhavRecord::from_raw(r, InstrumentSource::NSE).unwrap_err(), BhavError::NotANumber(PriceField::TotalTradedValue));
}

#[test]
fn sort_key_orders_by_fields() {
    let a = BhavRecord::from_raw(raw("AB", "03-Jun-2024", 1.0), InstrumentSource::NSE).unwrap();
    let b = BhavRecord::from_raw(raw("ABC", "03-Jun-2024", 1.0), InstrumentSource::NSE).unwrap();
    let c = BhavRecord::from_raw(raw("B", "03-Jun-2024", 1.0), InstrumentSource::NSE).unwrap();
    let d = BhavRecord::from_raw(raw("AB", "02-Jun-2024", 9.0), InstrumentSource::NSE).unwrap();
    assert_eq!(compare_keys(&a.sort_key(), &b.sort_key()), -1);
    assert_eq!(compare_keys(&b.sort_key(), &c.sort_key()), -1);
    assert_eq!(compare_keys(&d.sort_key(), &a.sort_key()), -1);
    assert_eq!(compare_keys(&a.sort_key(), &a.sort_key()), 0);
}

#[test]
fn collect_keeps_one_of_equal_records_in_order() {
    let rows = vec![
        Some(raw("TCS", "03-Jun-2024", 1.0)),
        None,
        Some(raw("INFY", "03-Jun-2024", 2.0)),
        Some(raw("BAD", "2024-06-03", 1.0)),
        Some(raw("TCS", "03-Jun-2024", 1.0)),
        Some(raw("NAN", "03-Jun-2024", f64::NAN)),
        Some(raw("INFY", "03-Jun-2024", 0.5)),
        Some(raw("ZEE", "03-Jun-2024", 0.0)),
        Some(raw("ZEE", "03-Jun-2024", -0.0)),
    ];
    let set = collect_bhav_records(rows, InstrumentSource::NSE);
    let seen: Vec<(String, f64)> = set.iter().map(|r| (r.fields().ticker_symbol, f64::from_bits(r.fields().close_price))).collect();
    assert_eq!(
        seen,
        vec![("INFY".to_string(), 0.5), ("INFY".to_string(), 2.0), ("TCS".to_string(), 1.0), ("ZEE".to_string(), 0.0)]
    );
    // Of the two zeros the last stays.
    assert_eq!(set[3].fields().close_price, (-0.0f64).to_bits());
}

#[test]
fn collect_of_nothing_is_empty() {
    assert!(collect_bhav_records(vec![], InstrumentSource::NSE).is_empty());
    assert!(collect_bhav_records(vec![None, None], InstrumentSource::NSE).is_empty());
}

#[test]
fn usable_headers_stop_at_the_first_empty_one() {
    let hs = |v: &[&str]| v.iter().map(|s| s.to_string()).collect::<Vec<String>>();
    assert_eq!(usable_headers(hs(&["SYMBOL", "SERIES", "", "X"])), hs(&["SYMBOL", "SERIES"]));
    assert_eq!(usable_headers(hs(&["A", "B"])), hs(&["A", "B"]));
    assert_eq!(usable_headers(hs(&["", "A"])), hs(&[]));
    assert_eq!(usable_headers(hs(&[])), hs(&[]));
}

#[test]
fn records_compare_field_by_field() {
    let a = BhavRecord::from_raw(raw("AB", "03-Jun-2024", 1.0), InstrumentSource::NSE).unwrap();
    let b = BhavRecord::from_raw(raw("ABC", "03-Jun-2024", 1.0), InstrumentSource::NSE).unwrap();
    let z = BhavRecord::from_raw(raw("AB", "03-Jun-2024", 0.0), InstrumentSource::NSE).unwrap();
    let nz = BhavRecord::from_raw(raw("AB", "03-Jun-2024", -0.0), InstrumentSource::NSE).unwrap();
    let neg = BhavRecord::from_raw(raw("AB", "03-Jun-2024", -1.0), InstrumentSource::NSE).unwrap();
    assert!(a < b);
    assert!(b > a);
    assert!(a != b);
    assert!(z == nz);
    assert!(neg < z);
    assert!(z < a);
    assert_eq!(a.partial_cmp(&a), Some(std::cmp::Ordering::Equal));
}
