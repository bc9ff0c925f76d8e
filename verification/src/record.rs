use vstd::prelude::*;

use crate::date::{
    chrono_parse_date, date_from_view, iso_date_format, lemma_date_from_view, opt_date_view,
    parse_iso_date, parse_trade_date, trade_date_format, Date,
};
use crate::instrument::{InstrumentSegment, InstrumentSource, InstrumentType};
use crate::price::{is_nan, is_nan_bits};

verus! {

/// One row of a bhavcopy as it is read, before it is checked. Prices are the bit patterns of
/// IEEE-754 binary64 values.
#[derive(Debug)]
pub struct BhavRawRecord {
    pub trade_date: String,
    pub business_date: Option<String>,
    pub segment: Option<InstrumentSegment>,
    pub source: Option<InstrumentSource>,
    pub instrument_type: Option<InstrumentType>,
    pub instrument_id: Option<String>,
    pub isin: Option<String>,
    pub ticker_symbol: String,
    pub security_series: String,
    pub expiry_date: Option<String>,
    pub actual_expiry_date: Option<String>,
    pub strike_price: Option<u64>,
    pub option_type: Option<String>,
    pub instrument_name: Option<String>,
    pub open_price: u64,
    pub high_price: u64,
    pub low_price: u64,
    pub close_price: u64,
    pub last_price: u64,
    pub previous_close_price: u64,
    pub underlying_price: Option<u64>,
    pub settlement_price: Option<u64>,
    pub open_interest: Option<i64>,
    pub change_in_open_interest: Option<i64>,
    pub total_traded_volume: i64,
    pub total_traded_value: u64,
    pub total_number_of_trades: Option<i64>,
    pub session_id: Option<String>,
    pub market_lot_size: Option<i64>,
    pub remarks: Option<String>,
}

/// The prices of a record, in the order in which they are checked.
#[derive(Clone, Copy, Debug, PartialEq, Eq, Structural)]
pub enum PriceField {
    StrikePrice,
    OpenPrice,
    HighPrice,
    LowPrice,
    ClosePrice,
    LastPrice,
    PreviousClosePrice,
    UnderlyingPrice,
    SettlementPrice,
    TotalTradedValue,
}

/// Why a row does not become a record.
#[derive(Clone, Copy, Debug, PartialEq, Eq, Structural)]
pub enum BhavError {
    /// The trade date is not a date written as `%d-%b-%Y`.
    InvalidTradeDate,
    /// The business date is present and is not a date written as `%Y-%m-%d`.
    InvalidBusinessDate,
    /// The price is NaN.
    NotANumber(PriceField),
}

/// The fields of a record, as plain values.
#[derive(Debug)]
pub struct BhavRecordFields {
    pub source: InstrumentSource,
    pub segment: InstrumentSegment,
    pub instrument_type: InstrumentType,
    pub trade_date: Date,
    pub ticker_symbol: String,
    pub isin: Option<String>,
    pub business_date: Option<Date>,
    pub instrument_id: Option<String>,
    pub security_series: String,
    pub expiry_date: Option<String>,
    pub actual_expiry_date: Option<String>,
    pub strike_price: Option<u64>,
    pub option_type: Option<String>,
    pub instrument_name: Option<String>,
    pub open_price: u64,
    pub high_price: u64,
    pub low_price: u64,
    pub close_price: u64,
    pub last_price: u64,
    pub previous_close_price: u64,
    pub underlying_price: Option<u64>,
    pub settlement_price: Option<u64>,
    pub open_interest: Option<i64>,
    pub change_in_open_interest: Option<i64>,
    pub total_traded_volume: i64,
    pub total_traded_value: u64,
    pub total_number_of_trades: Option<i64>,
    pub session_id: Option<String>,
    pub market_lot_size: Option<i64>,
    pub remarks: Option<String>,
}

/// A checked row of a bhavcopy. No price is NaN: that is the type's invariant,
/// `record_prices_valid`.
#[derive(Debug)]
pub struct BhavRecord {
    pub(crate) source: InstrumentSource,
    pub(crate) segment: InstrumentSegment,
    pub(crate) instrument_type: InstrumentType,
    pub(crate) trade_date: Date,
    pub(crate) ticker_symbol: String,
    pub(crate) isin: Option<String>,
    pub(crate) business_date: Option<Date>,
    pub(crate) instrument_id: Option<String>,
    pub(crate) security_series: String,
    pub(crate) expiry_date: Option<String>,
    pub(crate) actual_expiry_date: Option<String>,
    pub(crate) strike_price: Option<u64>,
    pub(crate) option_type: Option<String>,
    pub(crate) instrument_name: Option<String>,
    pub(crate) open_price: u64,
    pub(crate) high_price: u64,
    pub(crate) low_price: u64,
    pub(crate) close_price: u64,
    pub(crate) last_price: u64,
    pub(crate) previous_close_price: u64,
    pub(crate) underlying_price: Option<u64>,
    pub(crate) settlement_price: Option<u64>,
    pub(crate) open_interest: Option<i64>,
    pub(crate) change_in_open_interest: Option<i64>,
    pub(crate) total_traded_volume: i64,
    pub(crate) total_traded_value: u64,
    pub(crate) total_number_of_trades: Option<i64>,
    pub(crate) session_id: Option<String>,
    pub(crate) market_lot_size: Option<i64>,
    pub(crate) remarks: Option<String>,
}

impl View for BhavRecord {
    type V = BhavRecordFields;

    closed spec fn view(&self) -> BhavRecordFields {
        BhavRecordFields {
            source: self.source,
            segment: self.segment,
            instrument_type: self.instrument_type,
            trade_date: self.trade_date,
            ticker_symbol: self.ticker_symbol,
            isin: self.isin,
            business_date: self.business_date,
            instrument_id: self.instrument_id,
            security_series: self.security_series,
            expiry_date: self.expiry_date,
            actual_expiry_date: self.actual_expiry_date,
            strike_price: self.strike_price,
            option_type: self.option_type,
            instrument_name: self.instrument_name,
            open_price: self.open_price,
            high_price: self.high_price,
            low_price: self.low_price,
            close_price: self.close_price,
            last_price: self.last_price,
            previous_close_price: self.previous_close_price,
            underlying_price: self.underlying_price,
            settlement_price: self.settlement_price,
            open_interest: self.open_interest,
            change_in_open_interest: self.change_in_open_interest,
            total_traded_volume: self.total_traded_volume,
            total_traded_value: self.total_traded_value,
            total_number_of_trades: self.total_number_of_trades,
            session_id: self.session_id,
            market_lot_size: self.market_lot_size,
            remarks: self.remarks,
        }
    }
}

/// The view of a record holds its fields.
pub(crate) proof fn lemma_record_view(r: BhavRecord)
    ensures
        r@ == (BhavRecordFields {
            source: r.source,
            segment: r.segment,
            instrument_type: r.instrument_type,
            trade_date: r.trade_date,
            ticker_symbol: r.ticker_symbol,
            isin: r.isin,
            business_date: r.business_date,
            instrument_id: r.instrument_id,
            security_series: r.security_series,
            expiry_date: r.expiry_date,
            actual_expiry_date: r.actual_expiry_date,
            strike_price: r.strike_price,
            option_type: r.option_type,
            instrument_name: r.instrument_name,
            open_price: r.open_price,
            high_price: r.high_price,
            low_price: r.low_price,
            close_price: r.close_price,
            last_price: r.last_price,
            previous_close_price: r.previous_close_price,
            underlying_price: r.underlying_price,
            settlement_price: r.settlement_price,
            open_interest: r.open_interest,
            change_in_open_interest: r.change_in_open_interest,
            total_traded_volume: r.total_traded_volume,
            total_traded_value: r.total_traded_value,
            total_number_of_trades: r.total_number_of_trades,
            session_id: r.session_id,
            market_lot_size: r.market_lot_size,
            remarks: r.remarks,
        }),
{
}

/// An optional price is NaN.
pub open spec fn opt_is_nan(p: Option<u64>) -> bool {
    match p {
        Some(b) => is_nan_bits(b),
        None => false,
    }
}

/// The first price of a row, in checking order, that is NaN.
pub open spec fn first_nan_price(r: BhavRawRecord) -> Option<PriceField> {
    if opt_is_nan(r.strike_price) {
        Some(PriceField::StrikePrice)
    } else if is_nan_bits(r.open_price) {
        Some(PriceField::OpenPrice)
    } else if is_nan_bits(r.high_price) {
        Some(PriceField::HighPrice)
    } else if is_nan_bits(r.low_price) {
        Some(PriceField::LowPrice)
    } else if is_nan_bits(r.close_price) {
        Some(PriceField::ClosePrice)
    } else if is_nan_bits(r.last_price) {
        Some(PriceField::LastPrice)
    } else if is_nan_bits(r.previous_close_price) {
        Some(PriceField::PreviousClosePrice)
    } else if opt_is_nan(r.underlying_price) {
        Some(PriceField::UnderlyingPrice)
    } else if opt_is_nan(r.settlement_price) {
        Some(PriceField::SettlementPrice)
    } else if is_nan_bits(r.total_traded_value) {
        Some(PriceField::TotalTradedValue)
    } else {
        None
    }
}

/// No price of the fields is NaN.
pub open spec fn fields_prices_valid(r: BhavRecordFields) -> bool {
    &&& !opt_is_nan(r.strike_price)
    &&& !is_nan_bits(r.open_price)
    &&& !is_nan_bits(r.high_price)
    &&& !is_nan_bits(r.low_price)
    &&& !is_nan_bits(r.close_price)
    &&& !is_nan_bits(r.last_price)
    &&& !is_nan_bits(r.previous_close_price)
    &&& !opt_is_nan(r.underlying_price)
    &&& !opt_is_nan(r.settlement_price)
    &&& !is_nan_bits(r.total_traded_value)
}

/// No price of the record is NaN. Every record keeps this.
#[verifier::type_invariant]
pub open spec fn record_prices_valid(r: BhavRecord) -> bool {
    fields_prices_valid(r@)
}

/// The fields of the record a row becomes, given its source and its parsed dates: a missing
/// segment is capital markets, a missing instrument type is stock, and every other field is
/// carried over.
pub open spec fn fields_of_row(
    r: BhavRawRecord,
    source: InstrumentSource,
    trade_date: (int, int, int),
    business_date: Option<(int, int, int)>,
) -> BhavRecordFields {
    BhavRecordFields {
        source: source,
        segment: match r.segment {
            Some(s) => s,
            None => InstrumentSegment::CaptialMarkets,
        },
        instrument_type: match r.instrument_type {
            Some(t) => t,
            None => InstrumentType::Stock,
        },
        trade_date: date_from_view(trade_date),
        ticker_symbol: r.ticker_symbol,
        isin: r.isin,
        business_date: match business_date {
            Some(v) => Some(date_from_view(v)),
            None => None,
        },
        instrument_id: r.instrument_id,
        security_series: r.security_series,
        expiry_date: r.expiry_date,
        actual_expiry_date: r.actual_expiry_date,
        strike_price: r.strike_price,
        option_type: r.option_type,
        instrument_name: r.instrument_name,
        open_price: r.open_price,
        high_price: r.high_price,
        low_price: r.low_price,
        close_price: r.close_price,
        last_price: r.last_price,
        previous_close_price: r.previous_close_price,
        underlying_price: r.underlying_price,
        settlement_price: r.settlement_price,
        open_interest: r.open_interest,
        change_in_open_interest: r.change_in_open_interest,
        total_traded_volume: r.total_traded_volume,
        total_traded_value: r.total_traded_value,
        total_number_of_trades: r.total_number_of_trades,
        session_id: r.session_id,
        market_lot_size: r.market_lot_size,
        remarks: r.remarks,
    }
}

/// The record a row becomes, given its source and its parsed dates; its fields are
/// `fields_of_row` (`lemma_record_of_row_view`).
pub closed spec fn record_of_row(
    r: BhavRawRecord,
    source: InstrumentSource,
    trade_date: (int, int, int),
    business_date: Option<(int, int, int)>,
) -> BhavRecord {
    BhavRecord {
        source: source,
        segment: match r.segment {
            Some(s) => s,
            None => InstrumentSegment::CaptialMarkets,
        },
        instrument_type: match r.instrument_type {
            Some(t) => t,
            None => InstrumentType::Stock,
        },
        trade_date: date_from_view(trade_date),
        ticker_symbol: r.ticker_symbol,
        isin: r.isin,
        business_date: match business_date {
            Some(v) => Some(date_from_view(v)),
            None => None,
        },
        instrument_id: r.instrument_id,
        security_series: r.security_series,
        expiry_date: r.expiry_date,
        actual_expiry_date: r.actual_expiry_date,
        strike_price: r.strike_price,
        option_type: r.option_type,
        instrument_name: r.instrument_name,
        open_price: r.open_price,
        high_price: r.high_price,
        low_price: r.low_price,
        close_price: r.close_price,
        last_price: r.last_price,
        previous_close_price: r.previous_close_price,
        underlying_price: r.underlying_price,
        settlement_price: r.settlement_price,
        open_interest: r.open_interest,
        change_in_open_interest: r.change_in_open_interest,
        total_traded_volume: r.total_traded_volume,
        total_traded_value: r.total_traded_value,
        total_number_of_trades: r.total_number_of_trades,
        session_id: r.session_id,
        market_lot_size: r.market_lot_size,
        remarks: r.remarks,
    }
}

/// The fields of the record a row becomes are `fields_of_row`.
pub proof fn lemma_record_of_row_view(
    r: BhavRawRecord,
    source: InstrumentSource,
    trade_date: (int, int, int),
    business_date: Option<(int, int, int)>,
)
    ensures
        record_of_row(r, source, trade_date, business_date)@ == fields_of_row(r, source, trade_date, business_date),
{
}

/// What a row becomes, given the parses of its trade date and, where it has one, of its
/// business date: the first failure in field order, else the record.
pub open spec fn row_outcome(
    r: BhavRawRecord,
    source: InstrumentSource,
    trade_date: Option<(int, int, int)>,
    business_date: Option<(int, int, int)>,
) -> Result<BhavRecord, BhavError> {
    match trade_date {
        None => Err(BhavError::InvalidTradeDate),
        Some(t) => if r.business_date is Some && business_date is None {
            Err(BhavError::InvalidBusinessDate)
        } else {
            match first_nan_price(r) {
                Some(f) => Err(BhavError::NotANumber(f)),
                None => Ok(record_of_row(
                    r,
                    source,
                    t,
                    if r.business_date is Some { business_date } else { None },
                )),
            }
        },
    }
}

/// The parse of a row's business date, where it has one.
pub open spec fn parsed_business_date(r: BhavRawRecord) -> Option<(int, int, int)> {
    match r.business_date {
        Some(s) => chrono_parse_date(s@, iso_date_format()),
        None => None,
    }
}

/// What `BhavRecord::from_raw` makes of a row.
pub open spec fn raw_outcome(r: BhavRawRecord, source: InstrumentSource) -> Result<BhavRecord, BhavError> {
    row_outcome(r, source, chrono_parse_date(r.trade_date@, trade_date_format()), parsed_business_date(r))
}

/// Checks an optional price.
fn check_opt_price(p: Option<u64>, field: PriceField) -> (res: Result<(), BhavError>)
    ensures
        res is Err <==> opt_is_nan(p),
        res matches Err(e) ==> e == BhavError::NotANumber(field),
{
    match p {
        Some(b) => check_price(b, field),
        None => Ok(()),
    }
}

/// Checks a price.
fn check_price(b: u64, field: PriceField) -> (res: Result<(), BhavError>)
    ensures
        res is Err <==> is_nan_bits(b),
        res matches Err(e) ==> e == BhavError::NotANumber(field),
{
    if is_nan(b) {
        Err(BhavError::NotANumber(field))
    } else {
        Ok(())
    }
}

/// Checks every price of a row, in order.
fn check_prices(r: &BhavRawRecord) -> (res: Result<(), BhavError>)
    ensures
        match first_nan_price(*r) {
            Some(f) => res == Err::<(), BhavError>(BhavError::NotANumber(f)),
            None => res is Ok,
        },
{
    check_opt_price(r.strike_price, PriceField::StrikePrice)?;
    check_price(r.open_price, PriceField::OpenPrice)?;
    check_price(r.high_price, PriceField::HighPrice)?;
    check_price(r.low_price, PriceField::LowPrice)?;
    check_price(r.close_price, PriceField::ClosePrice)?;
    check_price(r.last_price, PriceField::LastPrice)?;
    check_price(r.previous_close_price, PriceField::PreviousClosePrice)?;
    check_opt_price(r.underlying_price, PriceField::UnderlyingPrice)?;
    check_opt_price(r.settlement_price, PriceField::SettlementPrice)?;
    check_price(r.total_traded_value, PriceField::TotalTradedValue)?;
    Ok(())
}

impl BhavRecord {
    /// Makes a record of a row whose dates have been parsed: `trade_date` is the parse of the
    /// row's trade date and `business_date` that of its business date, where it has one.
    pub fn from_parsed(
        r: BhavRawRecord,
        source: InstrumentSource,
        trade_date: Option<Date>,
        business_date: Option<Date>,
    ) -> (res: Result<BhavRecord, BhavError>)
        ensures
            res == row_outcome(r, source, opt_date_view(trade_date), opt_date_view(business_date)),
            res matches Ok(rec) ==> record_prices_valid(rec),
            res matches Ok(rec) ==> Some(rec@.trade_date) == trade_date,
            res matches Ok(rec) ==> rec@.business_date == (if r.business_date is Some { business_date } else { None }),
            res matches Ok(rec) ==> {
                &&& rec@.source == source
                &&& rec@.segment == match r.segment {
                    Some(x) => x,
                    None => InstrumentSegment::CaptialMarkets,
                }
                &&& rec@.instrument_type == match r.instrument_type {
                    Some(x) => x,
                    None => InstrumentType::Stock,
                }
                &&& rec@.ticker_symbol == r.ticker_symbol
                &&& rec@.isin == r.isin
                &&& rec@.instrument_id == r.instrument_id
                &&& rec@.security_series == r.security_series
                &&& rec@.expiry_date == r.expiry_date
                &&& rec@.actual_expiry_date == r.actual_expiry_date
                &&& rec@.strike_price == r.strike_price
                &&& rec@.option_type == r.option_type
                &&& rec@.instrument_name == r.instrument_name
                &&& rec@.open_price == r.open_price
                &&& rec@.high_price == r.high_price
                &&& rec@.low_price == r.low_price
                &&& rec@.close_price == r.close_price
                &&& rec@.last_price == r.last_price
                &&& rec@.previous_close_price == r.previous_close_price
                &&& rec@.underlying_price == r.underlying_price
                &&& rec@.settlement_price == r.settlement_price
                &&& rec@.open_interest == r.open_interest
                &&& rec@.change_in_open_interest == r.change_in_open_interest
                &&& rec@.total_traded_volume == r.total_traded_volume
                &&& rec@.total_traded_value == r.total_traded_value
                &&& rec@.total_number_of_trades == r.total_number_of_trades
                &&& rec@.session_id == r.session_id
                &&& rec@.market_lot_size == r.market_lot_size
                &&& rec@.remarks == r.remarks
            },
            res is Ok <==> (trade_date is Some && (r.business_date is Some ==> business_date is Some)
                && !(r.strike_price matches Some(b) && is_nan_bits(b)) && !is_nan_bits(r.open_price)
                && !is_nan_bits(r.high_price) && !is_nan_bits(r.low_price) && !is_nan_bits(r.close_price)
                && !is_nan_bits(r.last_price) && !is_nan_bits(r.previous_close_price)
                && !(r.underlying_price matches Some(b) && is_nan_bits(b))
                && !(r.settlement_price matches Some(b) && is_nan_bits(b)) && !is_nan_bits(r.total_traded_value)),
    {
        let trade = match trade_date {
            Some(d) => d,
            None => return Err(BhavError::InvalidTradeDate),
        };
        let business = if r.business_date.is_some() {
            match business_date {
                Some(d) => Some(d),
                None => return Err(BhavError::InvalidBusinessDate),
            }
        } else {
            None
        };
        check_prices(&r)?;
        proof {
            lemma_date_from_view(trade);
            if let Some(d) = business {
                lemma_date_from_view(d);
            }
        }
        let segment = match r.segment {
            Some(s) => s,
            None => InstrumentSegment::CaptialMarkets,
        };
        let instrument_type = match r.instrument_type {
            Some(t) => t,
            None => InstrumentType::Stock,
        };
        Ok(BhavRecord {
            source,
            segment,
            instrument_type,
            trade_date: trade,
            ticker_symbol: r.ticker_symbol,
            isin: r.isin,
            business_date: business,
            instrument_id: r.instrument_id,
            security_series: r.security_series,
            expiry_date: r.expiry_date,
            actual_expiry_date: r.actual_expiry_date,
            strike_price: r.strike_price,
            option_type: r.option_type,
            instrument_name: r.instrument_name,
            open_price: r.open_price,
            high_price: r.high_price,
            low_price: r.low_price,
            close_price: r.close_price,
            last_price: r.last_price,
            previous_close_price: r.previous_close_price,
            underlying_price: r.underlying_price,
            settlement_price: r.settlement_price,
            open_interest: r.open_interest,
            change_in_open_interest: r.change_in_open_interest,
            total_traded_volume: r.total_traded_volume,
            total_traded_value: r.total_traded_value,
            total_number_of_trades: r.total_number_of_trades,
            session_id: r.session_id,
            market_lot_size: r.market_lot_size,
            remarks: r.remarks,
        })
    }

    /// Makes a record of a row: parses its trade date as `%d-%b-%Y` and its business date, where
    /// it has one, as `%Y-%m-%d`; fills a missing segment and instrument type; and refuses a
    /// NaN price.
    pub fn from_raw(r: BhavRawRecord, source: InstrumentSource) -> (res: Result<BhavRecord, BhavError>)
        ensures
            res == raw_outcome(r, source),
            res matches Ok(rec) ==> record_prices_valid(rec),
            res matches Ok(rec) ==> Some(rec@.trade_date@) == chrono_parse_date(r.trade_date@, trade_date_format()),
            res matches Ok(rec) ==> opt_date_view(rec@.business_date) == parsed_business_date(r),
            res matches Ok(rec) ==> {
                &&& rec@.source == source
                &&& rec@.segment == match r.segment {
                    Some(x) => x,
                    None => InstrumentSegment::CaptialMarkets,
                }
                &&& rec@.instrument_type == match r.instrument_type {
                    Some(x) => x,
                    None => InstrumentType::Stock,
                }
                &&& rec@.ticker_symbol == r.ticker_symbol
                &&& rec@.isin == r.isin
                &&& rec@.instrument_id == r.instrument_id
                &&& rec@.security_series == r.security_series
                &&& rec@.expiry_date == r.expiry_date
                &&& rec@.actual_expiry_date == r.actual_expiry_date
                &&& rec@.strike_price == r.strike_price
                &&& rec@.option_type == r.option_type
                &&& rec@.instrument_name == r.instrument_name
                &&& rec@.open_price == r.open_price
                &&& rec@.high_price == r.high_price
                &&& rec@.low_price == r.low_price
                &&& rec@.close_price == r.close_price
                &&& rec@.last_price == r.last_price
                &&& rec@.previous_close_price == r.previous_close_price
                &&& rec@.underlying_price == r.underlying_price
                &&& rec@.settlement_price == r.settlement_price
                &&& rec@.open_interest == r.open_interest
                &&& rec@.change_in_open_interest == r.change_in_open_interest
                &&& rec@.total_traded_volume == r.total_traded_volume
                &&& rec@.total_traded_value == r.total_traded_value
                &&& rec@.total_number_of_trades == r.total_number_of_trades
                &&& rec@.session_id == r.session_id
                &&& rec@.market_lot_size == r.market_lot_size
                &&& rec@.remarks == r.remarks
            },
            res is Ok <==> (chrono_parse_date(r.trade_date@, trade_date_format()) is Some
                && (r.business_date is Some ==> parsed_business_date(r) is Some)
                && !(r.strike_price matches Some(b) && is_nan_bits(b)) && !is_nan_bits(r.open_price)
                && !is_nan_bits(r.high_price) && !is_nan_bits(r.low_price) && !is_nan_bits(r.close_price)
                && !is_nan_bits(r.last_price) && !is_nan_bits(r.previous_close_price)
                && !(r.underlying_price matches Some(b) && is_nan_bits(b))
                && !(r.settlement_price matches Some(b) && is_nan_bits(b)) && !is_nan_bits(r.total_traded_value)),
    {
        let trade_date = parse_trade_date(r.trade_date.as_str());
        let business_date = match &r.business_date {
            Some(s) => parse_iso_date(s.as_str()),
            None => None,
        };
        BhavRecord::from_parsed(r, source, trade_date, business_date)
    }
}

/// A copy of an optional text.
pub(crate) fn clone_text(o: &Option<String>) -> (res: Option<String>)
    ensures
        res == *o,
{
    match o {
        Some(s) => Some(s.clone()),
        None => None,
    }
}

impl BhavRecord {
    /// The fields of the record, as plain values.
    pub fn fields(&self) -> (f: BhavRecordFields)
        ensures
            f == self@,
            fields_prices_valid(f),
    {
        proof {
            use_type_invariant(self);
        }
        BhavRecordFields {
            source: self.source,
            segment: self.segment,
            instrument_type: self.instrument_type,
            trade_date: self.trade_date,
            ticker_symbol: self.ticker_symbol.clone(),
            isin: clone_text(&self.isin),
            business_date: self.business_date,
            instrument_id: clone_text(&self.instrument_id),
            security_series: self.security_series.clone(),
            expiry_date: clone_text(&self.expiry_date),
            actual_expiry_date: clone_text(&self.actual_expiry_date),
            strike_price: self.strike_price,
            option_type: clone_text(&self.option_type),
            instrument_name: clone_text(&self.instrument_name),
            open_price: self.open_price,
            high_price: self.high_price,
            low_price: self.low_price,
            close_price: self.close_price,
            last_price: self.last_price,
            previous_close_price: self.previous_close_price,
            underlying_price: self.underlying_price,
            settlement_price: self.settlement_price,
            open_interest: self.open_interest,
            change_in_open_interest: self.change_in_open_interest,
            total_traded_volume: self.total_traded_volume,
            total_traded_value: self.total_traded_value,
            total_number_of_trades: self.total_number_of_trades,
            session_id: clone_text(&self.session_id),
            market_lot_size: self.market_lot_size,
            remarks: clone_text(&self.remarks),
        }
    }
}

/// A row becomes a record exactly when its trade date parses, its business date parses where it
/// has one, and none of its prices is NaN. The record then has the given source, the row's
/// segment or else capital markets, the row's instrument type or else stock, and every other
/// field of the row unchanged, field by field.
pub proof fn lemma_row_outcome_fields(
    r: BhavRawRecord,
    source: InstrumentSource,
    trade_date: Option<(int, int, int)>,
    business_date: Option<(int, int, int)>,
)
    ensures
        row_outcome(r, source, trade_date, business_date) is Ok <==> (trade_date is Some
            && (r.business_date is Some ==> business_date is Some)
            && !(r.strike_price matches Some(b) && is_nan_bits(b)) && !is_nan_bits(r.open_price)
            && !is_nan_bits(r.high_price) && !is_nan_bits(r.low_price) && !is_nan_bits(r.close_price)
            && !is_nan_bits(r.last_price) && !is_nan_bits(r.previous_close_price)
            && !(r.underlying_price matches Some(b) && is_nan_bits(b))
            && !(r.settlement_price matches Some(b) && is_nan_bits(b)) && !is_nan_bits(r.total_traded_value)),
        row_outcome(r, source, trade_date, business_date) matches Ok(rec) ==> {
            &&& rec@.source == source
            &&& rec@.segment == match r.segment {
                Some(x) => x,
                None => InstrumentSegment::CaptialMarkets,
            }
            &&& rec@.instrument_type == match r.instrument_type {
                Some(x) => x,
                None => InstrumentType::Stock,
            }
            &&& rec@.ticker_symbol == r.ticker_symbol
            &&& rec@.isin == r.isin
            &&& rec@.instrument_id == r.instrument_id
            &&& rec@.security_series == r.security_series
            &&& rec@.expiry_date == r.expiry_date
            &&& rec@.actual_expiry_date == r.actual_expiry_date
            &&& rec@.strike_price == r.strike_price
            &&& rec@.option_type == r.option_type
            &&& rec@.instrument_name == r.instrument_name
            &&& rec@.open_price == r.open_price
            &&& rec@.high_price == r.high_price
            &&& rec@.low_price == r.low_price
            &&& rec@.close_price == r.close_price
            &&& rec@.last_price == r.last_price
            &&& rec@.previous_close_price == r.previous_close_price
            &&& rec@.underlying_price == r.underlying_price
            &&& rec@.settlement_price == r.settlement_price
            &&& rec@.open_interest == r.open_interest
            &&& rec@.change_in_open_interest == r.change_in_open_interest
            &&& rec@.total_traded_volume == r.total_traded_volume
            &&& rec@.total_traded_value == r.total_traded_value
            &&& rec@.total_number_of_trades == r.total_number_of_trades
            &&& rec@.session_id == r.session_id
            &&& rec@.market_lot_size == r.market_lot_size
            &&& rec@.remarks == r.remarks
        },
{
}

/// A row that becomes a record gives a record without a NaN price.
pub proof fn lemma_row_outcome_prices_valid(
    r: BhavRawRecord,
    source: InstrumentSource,
    trade_date: Option<(int, int, int)>,
    business_date: Option<(int, int, int)>,
)
    ensures
        row_outcome(r, source, trade_date, business_date) matches Ok(rec) ==> record_prices_valid(rec),
{
}

} // verus!
