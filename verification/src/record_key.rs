use vstd::prelude::*;

use crate::date::Date;
use crate::instrument::{
    instrument_segment_rank, instrument_source_rank, instrument_type_rank,
};
use crate::price::{float_order_key, order_key};
use crate::record::{lemma_record_view, BhavRecord};

verus! {

// Records are ordered, and told apart, by a key: a sequence of integers compared
// lexicographically. Each field contributes a piece in field order, and no piece is a proper
// prefix of another piece of the same field, so comparing keys compares the fields one after
// the other: enums by declaration order, dates by calendar order, texts character by character
// (a proper prefix first), absent values before present ones, and prices as numbers.

/// The integer view of a key.
pub open spec fn ints(v: Seq<i64>) -> Seq<int> {
    v.map_values(|x: i64| x as int)
}

/// The key of a text: each character's code plus one, then a 0 that ends the text.
pub open spec fn text_key(s: Seq<char>) -> Seq<int> {
    s.map_values(|c: char| (c as u32 as int) + 1).push(0)
}

pub open spec fn opt_text_key(o: Option<String>) -> Seq<int> {
    match o {
        Some(s) => seq![1int] + text_key(s@),
        None => seq![0int],
    }
}

pub open spec fn opt_int_key(o: Option<i64>) -> Seq<int> {
    match o {
        Some(x) => seq![1int, x as int],
        None => seq![0int],
    }
}

pub open spec fn opt_price_key(o: Option<u64>) -> Seq<int> {
    match o {
        Some(b) => seq![1int, float_order_key(b)],
        None => seq![0int],
    }
}

pub open spec fn date_key(d: Date) -> Seq<int> {
    seq![d@.0, d@.1, d@.2]
}

pub open spec fn opt_date_key(o: Option<Date>) -> Seq<int> {
    match o {
        Some(d) => seq![1int] + date_key(d),
        None => seq![0int],
    }
}

/// The pieces of the fields from the source to the actual expiry date.
pub open spec fn key_head(r: BhavRecord) -> Seq<int> {
    seq![instrument_source_rank(r@.source), instrument_segment_rank(r@.segment), instrument_type_rank(r@.instrument_type)]
        + date_key(r@.trade_date) + text_key(r@.ticker_symbol@) + opt_text_key(r@.isin)
        + opt_date_key(r@.business_date) + opt_text_key(r@.instrument_id)
        + text_key(r@.security_series@) + opt_text_key(r@.expiry_date)
        + opt_text_key(r@.actual_expiry_date)
}

/// The pieces of the fields from the strike price to the settlement price.
pub open spec fn key_middle(r: BhavRecord) -> Seq<int> {
    opt_price_key(r@.strike_price) + opt_text_key(r@.option_type) + opt_text_key(r@.instrument_name)
        + key_daily_prices(r) + opt_price_key(r@.underlying_price) + opt_price_key(r@.settlement_price)
}

/// The pieces of the open, high, low, close, last and previous close prices.
pub open spec fn key_daily_prices(r: BhavRecord) -> Seq<int> {
    seq![
        float_order_key(r@.open_price),
        float_order_key(r@.high_price),
        float_order_key(r@.low_price),
        float_order_key(r@.close_price),
        float_order_key(r@.last_price),
        float_order_key(r@.previous_close_price),
    ]
}

/// The pieces of the fields from the open interest to the remarks.
pub open spec fn key_tail(r: BhavRecord) -> Seq<int> {
    opt_int_key(r@.open_interest) + opt_int_key(r@.change_in_open_interest)
        + seq![r@.total_traded_volume as int, float_order_key(r@.total_traded_value)]
        + opt_int_key(r@.total_number_of_trades) + opt_text_key(r@.session_id)
        + opt_int_key(r@.market_lot_size) + opt_text_key(r@.remarks)
}

/// The key by which records are ordered and told apart.
#[verifier::opaque]
pub open spec fn record_key(r: BhavRecord) -> Seq<int> {
    key_head(r) + key_middle(r) + key_tail(r)
}

fn push_int(key: &mut Vec<i64>, x: i64)
    ensures
        ints(final(key)@) == ints(old(key)@) + seq![x as int],
{
    key.push(x);
    assert(ints(key@) =~= ints(old(key)@) + seq![x as int]);
}

fn push_text(key: &mut Vec<i64>, s: &String)
    ensures
        ints(final(key)@) == ints(old(key)@) + text_key(s@),
{
    let ghost start = ints(key@);
    let t = s.as_str();
    let n = t.unicode_len();
    let mut i: usize = 0;
    while i < n
        invariant
            n == s@.len(),
            t@ == s@,
            i <= n,
            ints(key@) == start + s@.take(i as int).map_values(|c: char| (c as u32 as int) + 1),
        decreases n - i,
    {
        let c = t.get_char(i);
        let code: u32 = c as u32;
        assert(code == c as u32);
        let ghost before = ints(key@);
        key.push(code as i64 + 1);
        proof {
            assert(s@[i as int] == c);
            assert(ints(key@) =~= before.push((c as u32 as int) + 1));
            assert(s@.take(i + 1).map_values(|c: char| (c as u32 as int) + 1)
                =~= s@.take(i as int).map_values(|c: char| (c as u32 as int) + 1).push((c as u32 as int) + 1));
        }
        i = i + 1;
        assert(ints(key@) =~= start + s@.take(i as int).map_values(|c: char| (c as u32 as int) + 1));
    }
    let ghost before = ints(key@);
    key.push(0);
    assert(s@.take(n as int) =~= s@);
    assert(ints(key@) =~= before.push(0));
    assert(ints(key@) =~= start + text_key(s@));
}

fn push_opt_text(key: &mut Vec<i64>, o: &Option<String>)
    ensures
        ints(final(key)@) == ints(old(key)@) + opt_text_key(*o),
{
    let ghost start = ints(key@);
    match o {
        Some(s) => {
            push_int(key, 1);
            push_text(key, s);
            assert(ints(key@) =~= start + opt_text_key(*o));
        },
        None => {
            push_int(key, 0);
        },
    }
}

fn push_opt_int(key: &mut Vec<i64>, o: Option<i64>)
    ensures
        ints(final(key)@) == ints(old(key)@) + opt_int_key(o),
{
    let ghost start = ints(key@);
    match o {
        Some(x) => {
            push_int(key, 1);
            push_int(key, x);
            assert(ints(key@) =~= start + opt_int_key(o));
        },
        None => {
            push_int(key, 0);
        },
    }
}

fn push_price(key: &mut Vec<i64>, b: u64)
    ensures
        ints(final(key)@) == ints(old(key)@) + seq![float_order_key(b)],
{
    push_int(key, order_key(b));
}

fn push_opt_price(key: &mut Vec<i64>, o: Option<u64>)
    ensures
        ints(final(key)@) == ints(old(key)@) + opt_price_key(o),
{
    let ghost start = ints(key@);
    match o {
        Some(b) => {
            push_int(key, 1);
            push_price(key, b);
            assert(ints(key@) =~= start + opt_price_key(o));
        },
        None => {
            push_int(key, 0);
        },
    }
}

fn push_date(key: &mut Vec<i64>, d: &Date)
    ensures
        ints(final(key)@) == ints(old(key)@) + date_key(*d),
{
    let ghost start = ints(key@);
    push_int(key, d.year() as i64);
    push_int(key, d.month() as i64);
    push_int(key, d.day() as i64);
    assert(ints(key@) =~= start + date_key(*d));
}

fn push_opt_date(key: &mut Vec<i64>, o: &Option<Date>)
    ensures
        ints(final(key)@) == ints(old(key)@) + opt_date_key(*o),
{
    let ghost start = ints(key@);
    match o {
        Some(d) => {
            push_int(key, 1);
            push_date(key, d);
            assert(ints(key@) =~= start + opt_date_key(*o));
        },
        None => {
            push_int(key, 0);
        },
    }
}

fn push_key_head(key: &mut Vec<i64>, r: &BhavRecord)
    ensures
        ints(final(key)@) == ints(old(key)@) + key_head(*r),
{
    proof { lemma_record_view(*r); }
    let ghost start = ints(key@);
    push_int(key, r.source.rank());
    push_int(key, r.segment.rank());
    push_int(key, r.instrument_type.rank());
    push_date(key, &r.trade_date);
    push_text(key, &r.ticker_symbol);
    push_opt_text(key, &r.isin);
    push_opt_date(key, &r.business_date);
    push_opt_text(key, &r.instrument_id);
    push_text(key, &r.security_series);
    push_opt_text(key, &r.expiry_date);
    push_opt_text(key, &r.actual_expiry_date);
    assert(ints(key@) =~= start + key_head(*r));
}

fn push_daily_prices(key: &mut Vec<i64>, r: &BhavRecord)
    ensures
        ints(final(key)@) == ints(old(key)@) + key_daily_prices(*r),
{
    proof { lemma_record_view(*r); }
    let ghost start = ints(key@);
    push_price(key, r.open_price);
    push_price(key, r.high_price);
    push_price(key, r.low_price);
    push_price(key, r.close_price);
    push_price(key, r.last_price);
    push_price(key, r.previous_close_price);
    assert(ints(key@) =~= start + key_daily_prices(*r));
}

fn push_key_middle(key: &mut Vec<i64>, r: &BhavRecord)
    ensures
        ints(final(key)@) == ints(old(key)@) + key_middle(*r),
{
    proof { lemma_record_view(*r); }
    let ghost start = ints(key@);
    push_opt_price(key, r.strike_price);
    push_opt_text(key, &r.option_type);
    push_opt_text(key, &r.instrument_name);
    push_daily_prices(key, r);
    push_opt_price(key, r.underlying_price);
    push_opt_price(key, r.settlement_price);
    assert(ints(key@) =~= start + key_middle(*r));
}

fn push_key_tail(key: &mut Vec<i64>, r: &BhavRecord)
    ensures
        ints(final(key)@) == ints(old(key)@) + key_tail(*r),
{
    proof { lemma_record_view(*r); }
    let ghost start = ints(key@);
    push_opt_int(key, r.open_interest);
    push_opt_int(key, r.change_in_open_interest);
    push_int(key, r.total_traded_volume);
    push_price(key, r.total_traded_value);
    push_opt_int(key, r.total_number_of_trades);
    push_opt_text(key, &r.session_id);
    push_opt_int(key, r.market_lot_size);
    push_opt_text(key, &r.remarks);
    assert(ints(key@) =~= start + key_tail(*r));
}

impl BhavRecord {
    /// The key of the record.
    pub fn sort_key(&self) -> (key: Vec<i64>)
        ensures
            ints(key@) == record_key(*self),
    {
        let mut key: Vec<i64> = Vec::new();
        assert(ints(key@) =~= Seq::<int>::empty());
        push_key_head(&mut key, self);
        push_key_middle(&mut key, self);
        push_key_tail(&mut key, self);
        proof { reveal(record_key); }
        assert(ints(key@) =~= record_key(*self));
        key
    }
}

} // verus!
