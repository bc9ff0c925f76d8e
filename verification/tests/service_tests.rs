use price_loom::bhav::{next_bhav_action, Bhav, BhavAction, BhavEvent};
use price_loom::config::default_port;
use price_loom::date::Date;
use price_loom::instrument::{AppFileKind, InstrumentSource};
use price_loom::record::{BhavRawRecord, BhavRecord};
use price_loom::storage::{get_app_file_path, get_file_path};

fn date(y: i32, m: u32, d: u32) -> Date {
    Date::from_ymd_opt(y, m, d).unwrap()
}

fn raw(ticker: &str) -> BhavRawRecord {
    BhavRawRecord {
        trade_date: "03-Jun-2024".to_string(),
        business_date: None,
        segment: None,
        source: None,
        instrument_type: None,
        instrument_id: Some("2885".to_string()),
        isin: Some("INE002A01018".to_string()),
        ticker_symbol: ticker.to_string(),
        security_series: "EQ".to_string(),
        expiry_date: None,
        actual_expiry_date: None,
        strike_price: None,
        option_type: None,
        instrument_name: Some("RELIANCE INDUSTRIES LTD".to_string()),
        open_price: 2900.0f64.to_bits(),
        high_price: 2950.5f64.to_bits(),
        low_price: 2890.0f64.to_bits(),
        close_price: 2940.0f64.to_bits(),
        last_price: 2941.0f64.to_bits(),
        previous_close_price: 2895.0f64.to_bits(),
        underlying_price: None,
        settlement_price: None,
        open_interest: None,
        change_in_open_interest: None,
        total_traded_volume: 5_000_000,
        total_traded_value: 1.47e10f64.to_bits(),
        total_number_of_trades: Some(250_000),
        session_id: Some("F1".to_string()),
        market_lot_size: Some(1),
        remarks: None,
    }
}

#[test]
fn default_port_is_3000() {
    assert_eq!(default_port(), 3000);
}

#[test]
fn file_paths() {
    assert_eq!(get_file_path(&date(2024, 6, 3), &InstrumentSource::NSE), "NSE/2024-06-03.json");
    assert_eq!(get_app_file_path(&date(2024, 6, 3), &AppFileKind::NSE), "nse/2024-06-03.json");
    assert_eq!(get_file_path(&date(12345, 1, 2), &InstrumentSource::NSE), "NSE/+12345-01-02.json");
}

#[test]
fn next_actions() {
    assert_eq!(next_bhav_action(BhavEvent::Requested), BhavAction::ReadStoredFile);
    assert_eq!(next_bhav_action(BhavEvent::StoredFileRead { found: true }), BhavAction::AnswerFromStoredFile);
    assert_eq!(next_bhav_action(BhavEvent::StoredFileRead { found: false }), BhavAction::DownloadFile);
    assert_eq!(next_bhav_action(BhavEvent::DownloadFinished { found: false }), BhavAction::AnswerNothing);
    assert_eq!(next_bhav_action(BhavEvent::DownloadFinished { found: true }), BhavAction::SaveDownload);
    assert_eq!(next_bhav_action(BhavEvent::DownloadSaved), BhavAction::PersistAndAnswer);
}

#[test]
fn bhav_from_rows_builds_the_set() {
    let bhav = Bhav::from_rows(
        "NSE/2024-06-03.json".to_string(),
        date(2024, 6, 3),
        InstrumentSource::NSE,
        vec![Some(raw("TCS")), Some(raw("RELIANCE")), Some(raw("TCS")), None],
    );
    assert_eq!(bhav.key(), "NSE/2024-06-03.json");
    assert_eq!(bhav.date(), date(2024, 6, 3));
    assert_eq!(bhav.source(), InstrumentSource::NSE);
    let tickers: Vec<String> = bhav.prices().iter().map(|r| r.fields().ticker_symbol).collect();
    assert_eq!(tickers, vec!["RELIANCE", "TCS"]);
}

#[test]
fn rows_become_database_rows() {
    let rec = BhavRecord::from_raw(raw("RELIANCE"), InstrumentSource::NSE).unwrap();
    let inst = rec.into_instrument(1_717_400_000_000_000).unwrap();
    assert_eq!(inst.created_at, 1_717_400_000_000_000);
    assert_eq!(inst.updated_at, 1_717_400_000_000_000);
    assert_eq!(inst.ticker_symbol, "RELIANCE");
    assert_eq!(inst.isin.as_deref(), Some("INE002A01018"));
    assert_eq!(inst.instrument_id.as_deref(), Some("2885"));
    assert_eq!(inst.instrument_name.as_deref(), Some("RELIANCE INDUSTRIES LTD"));
    assert_eq!(inst.security_series, "EQ");
    let price = rec.into_create_price(7, 9, 1_717_400_000_000_001);
    assert_eq!(price.instrument_id, 7);
    assert_eq!(price.file_id, 9);
    assert_eq!(f64::from_bits(price.close_price), 2940.0);
    assert_eq!(price.session_id.as_deref(), Some("F1"));
    assert_eq!(price.total_number_of_trades, Some(250_000));
    assert_eq!(price.created_at, 1_717_400_000_000_001);
    assert_eq!(price.updated_at, 1_717_400_000_000_001);
    let bhav = Bhav::from_rows("NSE/2024-06-03.json".to_string(), date(2024, 6, 3), InstrumentSource::NSE, vec![]);
    let file = bhav.into_file(1_717_400_000_000_002);
    assert_eq!(file.created_at, 1_717_400_000_000_002);
    assert_eq!(file.updated_at, 1_717_400_000_000_002);
    assert_eq!(file.key, "NSE/2024-06-03.json");
    assert_eq!(file.date, date(2024, 6, 3));
    assert_eq!(file.source, InstrumentSource::NSE);
}

#[test]
fn bhav_from_records_keeps_the_last_of_equal_records() {
    let mut zero = raw("ZEE");
    zero.close_price = 0.0f64.to_bits();
    let mut minus_zero = raw("ZEE");
    minus_zero.close_price = (-0.0f64).to_bits();
    let records = vec![
        BhavRecord::from_raw(raw("TCS"), InstrumentSource::NSE).unwrap(),
        BhavRecord::from_raw(zero, InstrumentSource::NSE).unwrap(),
        BhavRecord::from_raw(raw("INFY"), InstrumentSource::NSE).unwrap(),
        BhavRecord::from_raw(minus_zero, InstrumentSource::NSE).unwrap(),
    ];
    let bhav = Bhav::from_records("NSE/2024-06-03.json".to_string(), date(2024, 6, 3), InstrumentSource::NSE, records);
    let seen: Vec<(String, u64)> = bhav.prices().iter().map(|r| (r.fields().ticker_symbol, r.fields().close_price)).collect();
    assert_eq!(
        seen,
        vec![
            ("INFY".to_string(), 2940.0f64.to_bits()),
            ("TCS".to_string(), 2940.0f64.to_bits()),
            ("ZEE".to_string(), (-0.0f64).to_bits()),
        ]
    );
}

#[test]
fn reading_rows_twice_gives_the_same_set() {
    let rows = || vec![Some(raw("TCS")), Some(raw("RELIANCE")), None, Some(raw("TCS"))];
    let mut twice = rows();
    twice.extend(rows());
    let once = Bhav::from_rows("k".to_string(), date(2024, 6, 3), InstrumentSource::NSE, rows());
    let again = Bhav::from_rows("k".to_string(), date(2024, 6, 3), InstrumentSource::NSE, twice);
    let names = |b: &Bhav| b.prices().iter().map(|r| r.fields().ticker_symbol).collect::<Vec<String>>();
    assert_eq!(names(&once), names(&again));
    assert_eq!(names(&once), vec!["RELIANCE".to_string(), "TCS".to_string()]);
}
