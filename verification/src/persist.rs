use vstd::prelude::*;

use crate::bhav::{lemma_bhav_view, Bhav};
use crate::date::Date;
use crate::instrument::{InstrumentSegment, InstrumentSource, InstrumentType};
use crate::price::is_nan_bits;
use crate::record::{clone_text, lemma_record_view, BhavError, BhavRecord};

verus! {

// Timestamps are microseconds since the Unix epoch, in UTC. Identifiers of database rows are
// UUIDs held as 128-bit integers.

/// An instrument to be recorded in the database.
#[derive(Debug)]
pub struct CreateInstrument {
    pub segment: InstrumentSegment,
    pub source: InstrumentSource,
    pub instrument_type: InstrumentType,
    pub instrument_id: Option<String>,
    pub isin: Option<String>,
    pub ticker_symbol: String,
    pub security_series: String,
    pub instrument_name: Option<String>,
    pub created_at: i64,
    pub updated_at: i64,
}

/// A price of an instrument on a day, to be recorded in the database.
#[derive(Debug)]
pub struct CreatePrice {
    pub instrument_id: u128,
    pub file_id: u128,
    pub trade_date: Date,
    pub business_date: Option<Date>,
    pub open_price: u64,
    pub high_price: u64,
    pub low_price: u64,
    pub close_price: u64,
    pub last_price: u64,
    pub previous_close_price: u64,
    pub total_traded_volume: i64,
    pub total_traded_value: u64,
    pub total_number_of_trades: Option<i64>,
    pub session_id: Option<String>,
    pub market_lot_size: Option<i64>,
    pub remarks: Option<String>,
    pub created_at: i64,
    pub updated_at: i64,
}

/// No price of the row is NaN.
pub open spec fn create_price_valid(p: CreatePrice) -> bool {
    &&& !is_nan_bits(p.open_price)
    &&& !is_nan_bits(p.high_price)
    &&& !is_nan_bits(p.low_price)
    &&& !is_nan_bits(p.close_price)
    &&& !is_nan_bits(p.last_price)
    &&& !is_nan_bits(p.previous_close_price)
    &&& !is_nan_bits(p.total_traded_value)
}

/// A stored bhavcopy file to be recorded in the database.
#[derive(Debug)]
pub struct CreateSourceFile {
    pub source: InstrumentSource,
    pub date: Date,
    pub key: String,
    pub created_at: i64,
    pub updated_at: i64,
}

/// An instrument as the database holds it.
#[derive(Debug)]
pub struct Instrument {
    pub segment: InstrumentSegment,
    pub source: InstrumentSource,
    pub instrument_type: InstrumentType,
    pub instrument_id: Option<String>,
    pub isin: String,
    pub ticker_symbol: String,
    pub security_series: String,
    pub instrument_name: Option<String>,
}

/// A price as the database holds it.
#[derive(Debug)]
pub struct Price {
    pub trade_date: Date,
    pub business_date: Option<Date>,
    pub open_price: u64,
    pub high_price: u64,
    pub low_price: u64,
    pub close_price: u64,
    pub last_price: u64,
    pub previous_close_price: u64,
    pub total_traded_volume: i64,
    pub total_traded_value: u64,
    pub total_number_of_trades: i64,
    pub session_id: Option<String>,
    pub market_lot_size: Option<i64>,
    pub remarks: Option<String>,
}

impl Bhav {
    /// The row that records the stored file of this bhavcopy, stamped with the time `now`.
    pub fn into_file(&self, now: i64) -> (file: CreateSourceFile)
        ensures
            file.created_at == now,
            file.updated_at == now,
            file.source == self@.source,
            file.date == self@.date,
            file.key@ == self@.key,
    {
        proof { lemma_bhav_view(*self); }
        CreateSourceFile {
            source: self.source,
            date: self.date,
            key: self.key.clone(),
            created_at: now,
            updated_at: now,
        }
    }
}

impl BhavRecord {
    /// The price row of this record for the instrument row `instrument` and the file row `file`,
    /// stamped with the time `now`.
    pub fn into_create_price(&self, instrument: u128, file: u128, now: i64) -> (price: CreatePrice)
        ensures
            price.created_at == now,
            price.updated_at == now,
            price.instrument_id == instrument,
            price.file_id == file,
            price.trade_date == self@.trade_date,
            price.business_date == self@.business_date,
            price.open_price == self@.open_price,
            price.high_price == self@.high_price,
            price.low_price == self@.low_price,
            price.close_price == self@.close_price,
            price.last_price == self@.last_price,
            price.previous_close_price == self@.previous_close_price,
            price.total_traded_volume == self@.total_traded_volume,
            price.total_traded_value == self@.total_traded_value,
            price.total_number_of_trades == self@.total_number_of_trades,
            price.session_id == self@.session_id,
            price.market_lot_size == self@.market_lot_size,
            price.remarks == self@.remarks,
            create_price_valid(price),
    {
        proof {
            lemma_record_view(*self);
            use_type_invariant(self);
        }
        CreatePrice {
            instrument_id: instrument,
            file_id: file,
            trade_date: self.trade_date,
            business_date: self.business_date,
            open_price: self.open_price,
            high_price: self.high_price,
            low_price: self.low_price,
            close_price: self.close_price,
            last_price: self.last_price,
            previous_close_price: self.previous_close_price,
            total_traded_volume: self.total_traded_volume,
            total_traded_value: self.total_traded_value,
            total_number_of_trades: self.total_number_of_trades,
            session_id: clone_text(&self.session_id),
            market_lot_size: self.market_lot_size,
            remarks: clone_text(&self.remarks),
            created_at: now,
            updated_at: now,
        }
    }

    /// The instrument row of this record, stamped with the time `now`. It is always made.
    pub fn into_instrument(&self, now: i64) -> (res: Result<CreateInstrument, BhavError>)
        ensures
            res matches Ok(i) && {
                &&& i.created_at == now
                &&& i.updated_at == now
                &&& i.segment == self@.segment
                &&& i.source == self@.source
                &&& i.instrument_type == self@.instrument_type
                &&& i.instrument_id == self@.instrument_id
                &&& i.isin == self@.isin
                &&& i.ticker_symbol == self@.ticker_symbol
                &&& i.security_series == self@.security_series
                &&& i.instrument_name == self@.instrument_name
            },
    {
        proof { lemma_record_view(*self); }
        Ok(CreateInstrument {
            segment: self.segment,
            source: self.source,
            instrument_type: self.instrument_type,
            instrument_id: clone_text(&self.instrument_id),
            isin: clone_text(&self.isin),
            ticker_symbol: self.ticker_symbol.clone(),
            security_series: self.security_series.clone(),
            instrument_name: clone_text(&self.instrument_name),
            created_at: now,
            updated_at: now,
        })
    }
}

} // verus!
