use vstd::prelude::*;
use vstd::seq_lib::lemma_concat_associative;

use crate::date::Date;
use crate::instrument::{instrument_segment_rank, instrument_source_rank, instrument_type_rank};
use crate::order::{
    is_prefix, lemma_lex_common_prefix, lemma_lex_decided, lemma_lex_eq, lex_compare, prefix_free,
};
use crate::price::float_order_key;
use crate::record::BhavRecord;
use crate::record_key::{
    date_key, key_daily_prices, key_head, key_middle, key_tail, opt_date_key, opt_int_key, opt_price_key,
    opt_text_key, record_key, text_key,
};
use crate::record_set::record_compare;

verus! {

// The order of records field by field, and the proof that comparing keys gives it.

/// -1, 0 or 1 as `x` is smaller than, equal to or greater than `y`.
pub open spec fn int_compare(x: int, y: int) -> int {
    if x < y { -1 } else if x > y { 1 } else { 0 }
}

/// Texts compared character by character, a proper prefix first.
pub open spec fn text_compare(a: Seq<char>, b: Seq<char>) -> int
    decreases a.len(),
{
    if a.len() == 0 {
        if b.len() == 0 { 0 } else { -1 }
    } else if b.len() == 0 {
        1
    } else if (a[0] as u32 as int) < (b[0] as u32 as int) {
        -1
    } else if (a[0] as u32 as int) > (b[0] as u32 as int) {
        1
    } else {
        text_compare(a.drop_first(), b.drop_first())
    }
}

/// Absent values first, present ones by `text_compare`.
pub open spec fn opt_text_compare(a: Option<String>, b: Option<String>) -> int {
    match (a, b) {
        (None, None) => 0,
        (None, Some(_)) => -1,
        (Some(_), None) => 1,
        (Some(x), Some(y)) => text_compare(x@, y@),
    }
}

/// Absent values first, present ones by value.
pub open spec fn opt_int_compare(a: Option<i64>, b: Option<i64>) -> int {
    match (a, b) {
        (None, None) => 0,
        (None, Some(_)) => -1,
        (Some(_), None) => 1,
        (Some(x), Some(y)) => int_compare(x as int, y as int),
    }
}

/// Prices compared as the numbers they denote.
pub open spec fn price_compare(a: u64, b: u64) -> int {
    int_compare(float_order_key(a), float_order_key(b))
}

/// Absent prices first, present ones as numbers.
pub open spec fn opt_price_compare(a: Option<u64>, b: Option<u64>) -> int {
    match (a, b) {
        (None, None) => 0,
        (None, Some(_)) => -1,
        (Some(_), None) => 1,
        (Some(x), Some(y)) => price_compare(x, y),
    }
}

/// Dates in calendar order.
pub open spec fn date_compare(a: Date, b: Date) -> int {
    if a@.0 != b@.0 {
        int_compare(a@.0, b@.0)
    } else if a@.1 != b@.1 {
        int_compare(a@.1, b@.1)
    } else {
        int_compare(a@.2, b@.2)
    }
}

/// Absent dates first, present ones in calendar order.
pub open spec fn opt_date_compare(a: Option<Date>, b: Option<Date>) -> int {
    match (a, b) {
        (None, None) => 0,
        (None, Some(_)) => -1,
        (Some(_), None) => 1,
        (Some(x), Some(y)) => date_compare(x, y),
    }
}

/// Records compared field by field, in the order in which the fields are declared: as the
/// first field in which they differ. Texts compare character by character, absent values come
/// before present ones, prices compare as the numbers they denote and dates in calendar order.
pub open spec fn field_compare(a: BhavRecord, b: BhavRecord) -> int {
    then_compare(int_compare(instrument_source_rank(a@.source), instrument_source_rank(b@.source)),
    then_compare(int_compare(instrument_segment_rank(a@.segment), instrument_segment_rank(b@.segment)),
    then_compare(int_compare(instrument_type_rank(a@.instrument_type), instrument_type_rank(b@.instrument_type)),
    then_compare(date_compare(a@.trade_date, b@.trade_date),
    then_compare(text_compare(a@.ticker_symbol@, b@.ticker_symbol@),
    then_compare(opt_text_compare(a@.isin, b@.isin),
    then_compare(opt_date_compare(a@.business_date, b@.business_date),
    then_compare(opt_text_compare(a@.instrument_id, b@.instrument_id),
    then_compare(text_compare(a@.security_series@, b@.security_series@),
    then_compare(opt_text_compare(a@.expiry_date, b@.expiry_date),
    then_compare(opt_text_compare(a@.actual_expiry_date, b@.actual_expiry_date),
    then_compare(opt_price_compare(a@.strike_price, b@.strike_price),
    then_compare(opt_text_compare(a@.option_type, b@.option_type),
    then_compare(opt_text_compare(a@.instrument_name, b@.instrument_name),
    then_compare(price_compare(a@.open_price, b@.open_price),
    then_compare(price_compare(a@.high_price, b@.high_price),
    then_compare(price_compare(a@.low_price, b@.low_price),
    then_compare(price_compare(a@.close_price, b@.close_price),
    then_compare(price_compare(a@.last_price, b@.last_price),
    then_compare(price_compare(a@.previous_close_price, b@.previous_close_price),
    then_compare(opt_price_compare(a@.underlying_price, b@.underlying_price),
    then_compare(opt_price_compare(a@.settlement_price, b@.settlement_price),
    then_compare(opt_int_compare(a@.open_interest, b@.open_interest),
    then_compare(opt_int_compare(a@.change_in_open_interest, b@.change_in_open_interest),
    then_compare(int_compare(a@.total_traded_volume as int, b@.total_traded_volume as int),
    then_compare(price_compare(a@.total_traded_value, b@.total_traded_value),
    then_compare(opt_int_compare(a@.total_number_of_trades, b@.total_number_of_trades),
    then_compare(opt_text_compare(a@.session_id, b@.session_id),
    then_compare(opt_int_compare(a@.market_lot_size, b@.market_lot_size),
    then_compare(opt_text_compare(a@.remarks, b@.remarks),
    0))))))))))))))))))))))))))))))
}

/// `c` where it is not 0, `rest` otherwise.
pub open spec fn then_compare(c: int, rest: int) -> int {
    if c != 0 { c } else { rest }
}

/// Two pieces that are prefix free compare first; only where they are equal does what follows
/// them count.
proof fn lemma_lex_piece(p: Seq<int>, q: Seq<int>, x: Seq<int>, y: Seq<int>)
    requires
        prefix_free(p, q),
    ensures
        lex_compare(p + x, q + y) == then_compare(lex_compare(p, q), lex_compare(x, y)),
{
    lemma_lex_eq(p, q);
    if p == q {
        lemma_lex_common_prefix(p, x, y);
    } else {
        lemma_lex_decided(p, q, x, y);
    }
}

/// Pieces of one length are prefix free.
proof fn lemma_same_length_prefix_free(p: Seq<int>, q: Seq<int>)
    requires
        p.len() == q.len(),
    ensures
        prefix_free(p, q),
{
    if is_prefix(p, q) {
        assert(q.take(p.len() as int) =~= q);
    }
    if is_prefix(q, p) {
        assert(p.take(q.len() as int) =~= p);
    }
}

proof fn lemma_single_piece(x: int, y: int)
    ensures
        prefix_free(seq![x], seq![y]),
        lex_compare(seq![x], seq![y]) == int_compare(x, y),
{
    lemma_same_length_prefix_free(seq![x], seq![y]);
    let e = Seq::<int>::empty();
    assert(seq![x].drop_first() =~= e);
    assert(seq![y].drop_first() =~= e);
    assert(lex_compare(e, e) == 0);
}

proof fn lemma_price_piece(x: u64, y: u64)
    ensures
        prefix_free(seq![float_order_key(x)], seq![float_order_key(y)]),
        lex_compare(seq![float_order_key(x)], seq![float_order_key(y)]) == price_compare(x, y),
{
    lemma_single_piece(float_order_key(x), float_order_key(y));
}

proof fn lemma_date_piece(a: Date, b: Date)
    ensures
        prefix_free(date_key(a), date_key(b)),
        lex_compare(date_key(a), date_key(b)) == date_compare(a, b),
{
    lemma_same_length_prefix_free(date_key(a), date_key(b));
    lemma_single_piece(a@.0, b@.0);
    lemma_single_piece(a@.1, b@.1);
    lemma_single_piece(a@.2, b@.2);
    lemma_lex_piece(seq![a@.1], seq![b@.1], seq![a@.2], seq![b@.2]);
    lemma_lex_piece(seq![a@.0], seq![b@.0], seq![a@.1] + seq![a@.2], seq![b@.1] + seq![b@.2]);
    assert(date_key(a) =~= seq![a@.0] + (seq![a@.1] + seq![a@.2]));
    assert(date_key(b) =~= seq![b@.0] + (seq![b@.1] + seq![b@.2]));
}

/// The key of a text: the characters compare as the text does, and a proper prefix is never
/// the key of another text, because the key of a text ends with its only 0.
proof fn lemma_text_piece(a: Seq<char>, b: Seq<char>)
    ensures
        prefix_free(text_key(a), text_key(b)),
        lex_compare(text_key(a), text_key(b)) == text_compare(a, b),
    decreases a.len(),
{
    let p = text_key(a);
    let q = text_key(b);
    assert(p.len() == a.len() + 1 && q.len() == b.len() + 1);
    assert(p[a.len() as int] == 0 && q[b.len() as int] == 0);
    if p.len() == q.len() {
        lemma_same_length_prefix_free(p, q);
    } else if p.len() < q.len() {
        if is_prefix(p, q) {
            let t = q.take(p.len() as int);
            assert(t == p);
            assert(t[a.len() as int] == q[a.len() as int]);
            assert(q[a.len() as int] == b.map_values(|c: char| (c as u32 as int) + 1)[a.len() as int]);
            assert(q[a.len() as int] == (b[a.len() as int] as u32 as int) + 1);
            assert(false);
        }
        assert(!is_prefix(q, p));
    } else {
        if is_prefix(q, p) {
            let t = p.take(q.len() as int);
            assert(t == q);
            assert(t[b.len() as int] == p[b.len() as int]);
            assert(p[b.len() as int] == a.map_values(|c: char| (c as u32 as int) + 1)[b.len() as int]);
            assert(p[b.len() as int] == (a[b.len() as int] as u32 as int) + 1);
            assert(false);
        }
        assert(!is_prefix(p, q));
    }
    if a.len() == 0 && b.len() == 0 {
        assert(p =~= q);
        lemma_lex_eq(p, q);
    } else if a.len() == 0 {
        assert(q[0] == (b[0] as u32 as int) + 1);
    } else if b.len() == 0 {
        assert(p[0] == (a[0] as u32 as int) + 1);
    } else {
        assert(p[0] == (a[0] as u32 as int) + 1);
        assert(q[0] == (b[0] as u32 as int) + 1);
        if (a[0] as u32) == (b[0] as u32) {
            lemma_text_piece(a.drop_first(), b.drop_first());
            assert(p.drop_first() =~= text_key(a.drop_first()));
            assert(q.drop_first() =~= text_key(b.drop_first()));
        }
    }
}

/// A piece that starts with a marker: markers compare first.
proof fn lemma_marked_piece(m: int, n: int, x: Seq<int>, y: Seq<int>)
    requires
        prefix_free(x, y),
    ensures
        prefix_free(seq![m] + x, seq![n] + y),
        lex_compare(seq![m] + x, seq![n] + y) == then_compare(int_compare(m, n), lex_compare(x, y)),
{
    let p = seq![m] + x;
    let q = seq![n] + y;
    assert(p[0] == m && q[0] == n);
    assert(p.drop_first() =~= x);
    assert(q.drop_first() =~= y);
    if m == n {
        if is_prefix(p, q) {
            assert(y.take(x.len() as int) =~= q.take(p.len() as int).drop_first());
        }
        if is_prefix(q, p) {
            assert(x.take(y.len() as int) =~= p.take(q.len() as int).drop_first());
        }
        if x == y {
            assert(p =~= q);
        }
    } else {
        if is_prefix(p, q) {
            assert(q.take(p.len() as int)[0] == q[0]);
        }
        if is_prefix(q, p) {
            assert(p.take(q.len() as int)[0] == p[0]);
        }
    }
    lemma_lex_eq(x, y);
}

/// An absent value against a present one.
proof fn lemma_absent_piece(m: int, y: Seq<int>)
    requires
        m != 0,
    ensures
        prefix_free(seq![0int], seq![m] + y),
        prefix_free(seq![m] + y, seq![0int]),
        lex_compare(seq![0int], seq![m] + y) == int_compare(0, m),
        lex_compare(seq![m] + y, seq![0int]) == int_compare(m, 0),
{
    let p = seq![0int];
    let q = seq![m] + y;
    assert(q[0] == m);
    if is_prefix(p, q) {
        assert(q.take(1)[0] == q[0]);
    }
    if is_prefix(q, p) {
        assert(p.take(q.len() as int)[0] == p[0]);
    }
}

proof fn lemma_opt_text_piece(a: Option<String>, b: Option<String>)
    ensures
        prefix_free(opt_text_key(a), opt_text_key(b)),
        lex_compare(opt_text_key(a), opt_text_key(b)) == opt_text_compare(a, b),
{
    match (a, b) {
        (Some(x), Some(y)) => {
            lemma_text_piece(x@, y@);
            lemma_marked_piece(1, 1, text_key(x@), text_key(y@));
        },
        (None, Some(y)) => lemma_absent_piece(1, text_key(y@)),
        (Some(x), None) => lemma_absent_piece(1, text_key(x@)),
        (None, None) => {
            lemma_single_piece(0, 0);
        },
    }
}

proof fn lemma_opt_int_piece(a: Option<i64>, b: Option<i64>)
    ensures
        prefix_free(opt_int_key(a), opt_int_key(b)),
        lex_compare(opt_int_key(a), opt_int_key(b)) == opt_int_compare(a, b),
{
    match (a, b) {
        (Some(x), Some(y)) => {
            lemma_single_piece(x as int, y as int);
            lemma_marked_piece(1, 1, seq![x as int], seq![y as int]);
            assert(seq![1int] + seq![x as int] =~= opt_int_key(a));
            assert(seq![1int] + seq![y as int] =~= opt_int_key(b));
        },
        (None, Some(y)) => {
            lemma_absent_piece(1, seq![y as int]);
            assert(seq![1int] + seq![y as int] =~= opt_int_key(b));
        },
        (Some(x), None) => {
            lemma_absent_piece(1, seq![x as int]);
            assert(seq![1int] + seq![x as int] =~= opt_int_key(a));
        },
        (None, None) => {
            lemma_single_piece(0, 0);
        },
    }
}

proof fn lemma_opt_price_piece(a: Option<u64>, b: Option<u64>)
    ensures
        prefix_free(opt_price_key(a), opt_price_key(b)),
        lex_compare(opt_price_key(a), opt_price_key(b)) == opt_price_compare(a, b),
{
    match (a, b) {
        (Some(x), Some(y)) => {
            lemma_price_piece(x, y);
            lemma_marked_piece(1, 1, seq![float_order_key(x)], seq![float_order_key(y)]);
            assert(seq![1int] + seq![float_order_key(x)] =~= opt_price_key(a));
            assert(seq![1int] + seq![float_order_key(y)] =~= opt_price_key(b));
        },
        (None, Some(y)) => {
            lemma_absent_piece(1, seq![float_order_key(y)]);
            assert(seq![1int] + seq![float_order_key(y)] =~= opt_price_key(b));
        },
        (Some(x), None) => {
            lemma_absent_piece(1, seq![float_order_key(x)]);
            assert(seq![1int] + seq![float_order_key(x)] =~= opt_price_key(a));
        },
        (None, None) => {
            lemma_single_piece(0, 0);
        },
    }
}

proof fn lemma_opt_date_piece(a: Option<Date>, b: Option<Date>)
    ensures
        prefix_free(opt_date_key(a), opt_date_key(b)),
        lex_compare(opt_date_key(a), opt_date_key(b)) == opt_date_compare(a, b),
{
    match (a, b) {
        (Some(x), Some(y)) => {
            lemma_date_piece(x, y);
            lemma_marked_piece(1, 1, date_key(x), date_key(y));
        },
        (None, Some(y)) => lemma_absent_piece(1, date_key(y)),
        (Some(x), None) => lemma_absent_piece(1, date_key(x)),
        (None, None) => {
            lemma_single_piece(0, 0);
        },
    }
}

/// The pieces of the fields from the source to the actual expiry date, followed by `rest`.
pub open spec fn head_then(r: BhavRecord, rest: Seq<int>) -> Seq<int> {
    seq![instrument_source_rank(r@.source)] + (seq![instrument_segment_rank(r@.segment)] + (seq![instrument_type_rank(r@.instrument_type)] + (date_key(r@.trade_date) + (text_key(r@.ticker_symbol@) + (opt_text_key(r@.isin) + (opt_date_key(r@.business_date) + (opt_text_key(r@.instrument_id) + (text_key(r@.security_series@) + (opt_text_key(r@.expiry_date) + (opt_text_key(r@.actual_expiry_date) + (rest)))))))))))
}

/// The pieces of the fields from the strike price to the settlement price, followed by `rest`.
pub open spec fn middle_then(r: BhavRecord, rest: Seq<int>) -> Seq<int> {
    opt_price_key(r@.strike_price) + (opt_text_key(r@.option_type) + (opt_text_key(r@.instrument_name) + (seq![float_order_key(r@.open_price)] + (seq![float_order_key(r@.high_price)] + (seq![float_order_key(r@.low_price)] + (seq![float_order_key(r@.close_price)] + (seq![float_order_key(r@.last_price)] + (seq![float_order_key(r@.previous_close_price)] + (opt_price_key(r@.underlying_price) + (opt_price_key(r@.settlement_price) + (rest)))))))))))
}

/// The pieces of the fields from the open interest to the remarks, followed by `rest`.
pub open spec fn tail_then(r: BhavRecord, rest: Seq<int>) -> Seq<int> {
    opt_int_key(r@.open_interest) + (opt_int_key(r@.change_in_open_interest) + (seq![r@.total_traded_volume as int] + (seq![float_order_key(r@.total_traded_value)] + (opt_int_key(r@.total_number_of_trades) + (opt_text_key(r@.session_id) + (opt_int_key(r@.market_lot_size) + (opt_text_key(r@.remarks) + (rest))))))))
}

#[verifier::rlimit(80)]
proof fn lemma_head_then(a: BhavRecord, b: BhavRecord, x: Seq<int>, y: Seq<int>)
    ensures
        lex_compare(head_then(a, x), head_then(b, y)) == then_compare(int_compare(instrument_source_rank(a@.source), instrument_source_rank(b@.source)), then_compare(int_compare(instrument_segment_rank(a@.segment), instrument_segment_rank(b@.segment)), then_compare(int_compare(instrument_type_rank(a@.instrument_type), instrument_type_rank(b@.instrument_type)), then_compare(date_compare(a@.trade_date, b@.trade_date), then_compare(text_compare(a@.ticker_symbol@, b@.ticker_symbol@), then_compare(opt_text_compare(a@.isin, b@.isin), then_compare(opt_date_compare(a@.business_date, b@.business_date), then_compare(opt_text_compare(a@.instrument_id, b@.instrument_id), then_compare(text_compare(a@.security_series@, b@.security_series@), then_compare(opt_text_compare(a@.expiry_date, b@.expiry_date), then_compare(opt_text_compare(a@.actual_expiry_date, b@.actual_expiry_date), lex_compare(x, y)))))))))))),
{
    lemma_single_piece(instrument_source_rank(a@.source), instrument_source_rank(b@.source));
    lemma_lex_piece(seq![instrument_source_rank(a@.source)], seq![instrument_source_rank(b@.source)], seq![instrument_segment_rank(a@.segment)] + (seq![instrument_type_rank(a@.instrument_type)] + (date_key(a@.trade_date) + (text_key(a@.ticker_symbol@) + (opt_text_key(a@.isin) + (opt_date_key(a@.business_date) + (opt_text_key(a@.instrument_id) + (text_key(a@.security_series@) + (opt_text_key(a@.expiry_date) + (opt_text_key(a@.actual_expiry_date) + (x)))))))))), seq![instrument_segment_rank(b@.segment)] + (seq![instrument_type_rank(b@.instrument_type)] + (date_key(b@.trade_date) + (text_key(b@.ticker_symbol@) + (opt_text_key(b@.isin) + (opt_date_key(b@.business_date) + (opt_text_key(b@.instrument_id) + (text_key(b@.security_series@) + (opt_text_key(b@.expiry_date) + (opt_text_key(b@.actual_expiry_date) + (y)))))))))));
    lemma_single_piece(instrument_segment_rank(a@.segment), instrument_segment_rank(b@.segment));
    lemma_lex_piece(seq![instrument_segment_rank(a@.segment)], seq![instrument_segment_rank(b@.segment)], seq![instrument_type_rank(a@.instrument_type)] + (date_key(a@.trade_date) + (text_key(a@.ticker_symbol@) + (opt_text_key(a@.isin) + (opt_date_key(a@.business_date) + (opt_text_key(a@.instrument_id) + (text_key(a@.security_series@) + (opt_text_key(a@.expiry_date) + (opt_text_key(a@.actual_expiry_date) + (x))))))))), seq![instrument_type_rank(b@.instrument_type)] + (date_key(b@.trade_date) + (text_key(b@.ticker_symbol@) + (opt_text_key(b@.isin) + (opt_date_key(b@.business_date) + (opt_text_key(b@.instrument_id) + (text_key(b@.security_series@) + (opt_text_key(b@.expiry_date) + (opt_text_key(b@.actual_expiry_date) + (y))))))))));
    lemma_single_piece(instrument_type_rank(a@.instrument_type), instrument_type_rank(b@.instrument_type));
    lemma_lex_piece(seq![instrument_type_rank(a@.instrument_type)], seq![instrument_type_rank(b@.instrument_type)], date_key(a@.trade_date) + (text_key(a@.ticker_symbol@) + (opt_text_key(a@.isin) + (opt_date_key(a@.business_date) + (opt_text_key(a@.instrument_id) + (text_key(a@.security_series@) + (opt_text_key(a@.expiry_date) + (opt_text_key(a@.actual_expiry_date) + (x)))))))), date_key(b@.trade_date) + (text_key(b@.ticker_symbol@) + (opt_text_key(b@.isin) + (opt_date_key(b@.business_date) + (opt_text_key(b@.instrument_id) + (text_key(b@.security_series@) + (opt_text_key(b@.expiry_date) + (opt_text_key(b@.actual_expiry_date) + (y)))))))));
    lemma_date_piece(a@.trade_date, b@.trade_date);
    lemma_lex_piece(date_key(a@.trade_date), date_key(b@.trade_date), text_key(a@.ticker_symbol@) + (opt_text_key(a@.isin) + (opt_date_key(a@.business_date) + (opt_text_key(a@.instrument_id) + (text_key(a@.security_series@) + (opt_text_key(a@.expiry_date) + (opt_text_key(a@.actual_expiry_date) + (x))))))), text_key(b@.ticker_symbol@) + (opt_text_key(b@.isin) + (opt_date_key(b@.business_date) + (opt_text_key(b@.instrument_id) + (text_key(b@.security_series@) + (opt_text_key(b@.expiry_date) + (opt_text_key(b@.actual_expiry_date) + (y))))))));
    lemma_text_piece(a@.ticker_symbol@, b@.ticker_symbol@);
    lemma_lex_piece(text_key(a@.ticker_symbol@), text_key(b@.ticker_symbol@), opt_text_key(a@.isin) + (opt_date_key(a@.business_date) + (opt_text_key(a@.instrument_id) + (text_key(a@.security_series@) + (opt_text_key(a@.expiry_date) + (opt_text_key(a@.actual_expiry_date) + (x)))))), opt_text_key(b@.isin) + (opt_date_key(b@.business_date) + (opt_text_key(b@.instrument_id) + (text_key(b@.security_series@) + (opt_text_key(b@.expiry_date) + (opt_text_key(b@.actual_expiry_date) + (y)))))));
    lemma_opt_text_piece(a@.isin, b@.isin);
    lemma_lex_piece(opt_text_key(a@.isin), opt_text_key(b@.isin), opt_date_key(a@.business_date) + (opt_text_key(a@.instrument_id) + (text_key(a@.security_series@) + (opt_text_key(a@.expiry_date) + (opt_text_key(a@.actual_expiry_date) + (x))))), opt_date_key(b@.business_date) + (opt_text_key(b@.instrument_id) + (text_key(b@.security_series@) + (opt_text_key(b@.expiry_date) + (opt_text_key(b@.actual_expiry_date) + (y))))));
    lemma_opt_date_piece(a@.business_date, b@.business_date);
    lemma_lex_piece(opt_date_key(a@.business_date), opt_date_key(b@.business_date), opt_text_key(a@.instrument_id) + (text_key(a@.security_series@) + (opt_text_key(a@.expiry_date) + (opt_text_key(a@.actual_expiry_date) + (x)))), opt_text_key(b@.instrument_id) + (text_key(b@.security_series@) + (opt_text_key(b@.expiry_date) + (opt_text_key(b@.actual_expiry_date) + (y)))));
    lemma_opt_text_piece(a@.instrument_id, b@.instrument_id);
    lemma_lex_piece(opt_text_key(a@.instrument_id), opt_text_key(b@.instrument_id), text_key(a@.security_series@) + (opt_text_key(a@.expiry_date) + (opt_text_key(a@.actual_expiry_date) + (x))), text_key(b@.security_series@) + (opt_text_key(b@.expiry_date) + (opt_text_key(b@.actual_expiry_date) + (y))));
    lemma_text_piece(a@.security_series@, b@.security_series@);
    lemma_lex_piece(text_key(a@.security_series@), text_key(b@.security_series@), opt_text_key(a@.expiry_date) + (opt_text_key(a@.actual_expiry_date) + (x)), opt_text_key(b@.expiry_date) + (opt_text_key(b@.actual_expiry_date) + (y)));
    lemma_opt_text_piece(a@.expiry_date, b@.expiry_date);
    lemma_lex_piece(opt_text_key(a@.expiry_date), opt_text_key(b@.expiry_date), opt_text_key(a@.actual_expiry_date) + (x), opt_text_key(b@.actual_expiry_date) + (y));
    lemma_opt_text_piece(a@.actual_expiry_date, b@.actual_expiry_date);
    lemma_lex_piece(opt_text_key(a@.actual_expiry_date), opt_text_key(b@.actual_expiry_date), x, y);
}

#[verifier::rlimit(80)]
proof fn lemma_middle_then(a: BhavRecord, b: BhavRecord, x: Seq<int>, y: Seq<int>)
    ensures
        lex_compare(middle_then(a, x), middle_then(b, y)) == then_compare(opt_price_compare(a@.strike_price, b@.strike_price), then_compare(opt_text_compare(a@.option_type, b@.option_type), then_compare(opt_text_compare(a@.instrument_name, b@.instrument_name), then_compare(price_compare(a@.open_price, b@.open_price), then_compare(price_compare(a@.high_price, b@.high_price), then_compare(price_compare(a@.low_price, b@.low_price), then_compare(price_compare(a@.close_price, b@.close_price), then_compare(price_compare(a@.last_price, b@.last_price), then_compare(price_compare(a@.previous_close_price, b@.previous_close_price), then_compare(opt_price_compare(a@.underlying_price, b@.underlying_price), then_compare(opt_price_compare(a@.settlement_price, b@.settlement_price), lex_compare(x, y)))))))))))),
{
    lemma_opt_price_piece(a@.strike_price, b@.strike_price);
    lemma_lex_piece(opt_price_key(a@.strike_price), opt_price_key(b@.strike_price), opt_text_key(a@.option_type) + (opt_text_key(a@.instrument_name) + (seq![float_order_key(a@.open_price)] + (seq![float_order_key(a@.high_price)] + (seq![float_order_key(a@.low_price)] + (seq![float_order_key(a@.close_price)] + (seq![float_order_key(a@.last_price)] + (seq![float_order_key(a@.previous_close_price)] + (opt_price_key(a@.underlying_price) + (opt_price_key(a@.settlement_price) + (x)))))))))), opt_text_key(b@.option_type) + (opt_text_key(b@.instrument_name) + (seq![float_order_key(b@.open_price)] + (seq![float_order_key(b@.high_price)] + (seq![float_order_key(b@.low_price)] + (seq![float_order_key(b@.close_price)] + (seq![float_order_key(b@.last_price)] + (seq![float_order_key(b@.previous_close_price)] + (opt_price_key(b@.underlying_price) + (opt_price_key(b@.settlement_price) + (y)))))))))));
    lemma_opt_text_piece(a@.option_type, b@.option_type);
    lemma_lex_piece(opt_text_key(a@.option_type), opt_text_key(b@.option_type), opt_text_key(a@.instrument_name) + (seq![float_order_key(a@.open_price)] + (seq![float_order_key(a@.high_price)] + (seq![float_order_key(a@.low_price)] + (seq![float_order_key(a@.close_price)] + (seq![float_order_key(a@.last_price)] + (seq![float_order_key(a@.previous_close_price)] + (opt_price_key(a@.underlying_price) + (opt_price_key(a@.settlement_price) + (x))))))))), opt_text_key(b@.instrument_name) + (seq![float_order_key(b@.open_price)] + (seq![float_order_key(b@.high_price)] + (seq![float_order_key(b@.low_price)] + (seq![float_order_key(b@.close_price)] + (seq![float_order_key(b@.last_price)] + (seq![float_order_key(b@.previous_close_price)] + (opt_price_key(b@.underlying_price) + (opt_price_key(b@.settlement_price) + (y))))))))));
    lemma_opt_text_piece(a@.instrument_name, b@.instrument_name);
    lemma_lex_piece(opt_text_key(a@.instrument_name), opt_text_key(b@.instrument_name), seq![float_order_key(a@.open_price)] + (seq![float_order_key(a@.high_price)] + (seq![float_order_key(a@.low_price)] + (seq![float_order_key(a@.close_price)] + (seq![float_order_key(a@.last_price)] + (seq![float_order_key(a@.previous_close_price)] + (opt_price_key(a@.underlying_price) + (opt_price_key(a@.settlement_price) + (x)))))))), seq![float_order_key(b@.open_price)] + (seq![float_order_key(b@.high_price)] + (seq![float_order_key(b@.low_price)] + (seq![float_order_key(b@.close_price)] + (seq![float_order_key(b@.last_price)] + (seq![float_order_key(b@.previous_close_price)] + (opt_price_key(b@.underlying_price) + (opt_price_key(b@.settlement_price) + (y)))))))));
    lemma_price_piece(a@.open_price, b@.open_price);
    lemma_lex_piece(seq![float_order_key(a@.open_price)], seq![float_order_key(b@.open_price)], seq![float_order_key(a@.high_price)] + (seq![float_order_key(a@.low_price)] + (seq![float_order_key(a@.close_price)] + (seq![float_order_key(a@.last_price)] + (seq![float_order_key(a@.previous_close_price)] + (opt_price_key(a@.underlying_price) + (opt_price_key(a@.settlement_price) + (x))))))), seq![float_order_key(b@.high_price)] + (seq![float_order_key(b@.low_price)] + (seq![float_order_key(b@.close_price)] + (seq![float_order_key(b@.last_price)] + (seq![float_order_key(b@.previous_close_price)] + (opt_price_key(b@.underlying_price) + (opt_price_key(b@.settlement_price) + (y))))))));
    lemma_price_piece(a@.high_price, b@.high_price);
    lemma_lex_piece(seq![float_order_key(a@.high_price)], seq![float_order_key(b@.high_price)], seq![float_order_key(a@.low_price)] + (seq![float_order_key(a@.close_price)] + (seq![float_order_key(a@.last_price)] + (seq![float_order_key(a@.previous_close_price)] + (opt_price_key(a@.underlying_price) + (opt_price_key(a@.settlement_price) + (x)))))), seq![float_order_key(b@.low_price)] + (seq![float_order_key(b@.close_price)] + (seq![float_order_key(b@.last_price)] + (seq![float_order_key(b@.previous_close_price)] + (opt_price_key(b@.underlying_price) + (opt_price_key(b@.settlement_price) + (y)))))));
    lemma_price_piece(a@.low_price, b@.low_price);
    lemma_lex_piece(seq![float_order_key(a@.low_price)], seq![float_order_key(b@.low_price)], seq![float_order_key(a@.close_price)] + (seq![float_order_key(a@.last_price)] + (seq![float_order_key(a@.previous_close_price)] + (opt_price_key(a@.underlying_price) + (opt_price_key(a@.settlement_price) + (x))))), seq![float_order_key(b@.close_price)] + (seq![float_order_key(b@.last_price)] + (seq![float_order_key(b@.previous_close_price)] + (opt_price_key(b@.underlying_price) + (opt_price_key(b@.settlement_price) + (y))))));
    lemma_price_piece(a@.close_price, b@.close_price);
    lemma_lex_piece(seq![float_order_key(a@.close_price)], seq![float_order_key(b@.close_price)], seq![float_order_key(a@.last_price)] + (seq![float_order_key(a@.previous_close_price)] + (opt_price_key(a@.underlying_price) + (opt_price_key(a@.settlement_price) + (x)))), seq![float_order_key(b@.last_price)] + (seq![float_order_key(b@.previous_close_price)] + (opt_price_key(b@.underlying_price) + (opt_price_key(b@.settlement_price) + (y)))));
    lemma_price_piece(a@.last_price, b@.last_price);
    lemma_lex_piece(seq![float_order_key(a@.last_price)], seq![float_order_key(b@.last_price)], seq![float_order_key(a@.previous_close_price)] + (opt_price_key(a@.underlying_price) + (opt_price_key(a@.settlement_price) + (x))), seq![float_order_key(b@.previous_close_price)] + (opt_price_key(b@.underlying_price) + (opt_price_key(b@.settlement_price) + (y))));
    lemma_price_piece(a@.previous_close_price, b@.previous_close_price);
    lemma_lex_piece(seq![float_order_key(a@.previous_close_price)], seq![float_order_key(b@.previous_close_price)], opt_price_key(a@.underlying_price) + (opt_price_key(a@.settlement_price) + (x)), opt_price_key(b@.underlying_price) + (opt_price_key(b@.settlement_price) + (y)));
    lemma_opt_price_piece(a@.underlying_price, b@.underlying_price);
    lemma_lex_piece(opt_price_key(a@.underlying_price), opt_price_key(b@.underlying_price), opt_price_key(a@.settlement_price) + (x), opt_price_key(b@.settlement_price) + (y));
    lemma_opt_price_piece(a@.settlement_price, b@.settlement_price);
    lemma_lex_piece(opt_price_key(a@.settlement_price), opt_price_key(b@.settlement_price), x, y);
}

#[verifier::rlimit(80)]
proof fn lemma_tail_then(a: BhavRecord, b: BhavRecord, x: Seq<int>, y: Seq<int>)
    ensures
        lex_compare(tail_then(a, x), tail_then(b, y)) == then_compare(opt_int_compare(a@.open_interest, b@.open_interest), then_compare(opt_int_compare(a@.change_in_open_interest, b@.change_in_open_interest), then_compare(int_compare(a@.total_traded_volume as int, b@.total_traded_volume as int), then_compare(price_compare(a@.total_traded_value, b@.total_traded_value), then_compare(opt_int_compare(a@.total_number_of_trades, b@.total_number_of_trades), then_compare(opt_text_compare(a@.session_id, b@.session_id), then_compare(opt_int_compare(a@.market_lot_size, b@.market_lot_size), then_compare(opt_text_compare(a@.remarks, b@.remarks), lex_compare(x, y))))))))),
{
    lemma_opt_int_piece(a@.open_interest, b@.open_interest);
    lemma_lex_piece(opt_int_key(a@.open_interest), opt_int_key(b@.open_interest), opt_int_key(a@.change_in_open_interest) + (seq![a@.total_traded_volume as int] + (seq![float_order_key(a@.total_traded_value)] + (opt_int_key(a@.total_number_of_trades) + (opt_text_key(a@.session_id) + (opt_int_key(a@.market_lot_size) + (opt_text_key(a@.remarks) + (x))))))), opt_int_key(b@.change_in_open_interest) + (seq![b@.total_traded_volume as int] + (seq![float_order_key(b@.total_traded_value)] + (opt_int_key(b@.total_number_of_trades) + (opt_text_key(b@.session_id) + (opt_int_key(b@.market_lot_size) + (opt_text_key(b@.remarks) + (y))))))));
    lemma_opt_int_piece(a@.change_in_open_interest, b@.change_in_open_interest);
    lemma_lex_piece(opt_int_key(a@.change_in_open_interest), opt_int_key(b@.change_in_open_interest), seq![a@.total_traded_volume as int] + (seq![float_order_key(a@.total_traded_value)] + (opt_int_key(a@.total_number_of_trades) + (opt_text_key(a@.session_id) + (opt_int_key(a@.market_lot_size) + (opt_text_key(a@.remarks) + (x)))))), seq![b@.total_traded_volume as int] + (seq![float_order_key(b@.total_traded_value)] + (opt_int_key(b@.total_number_of_trades) + (opt_text_key(b@.session_id) + (opt_int_key(b@.market_lot_size) + (opt_text_key(b@.remarks) + (y)))))));
    lemma_single_piece(a@.total_traded_volume as int, b@.total_traded_volume as int);
    lemma_lex_piece(seq![a@.total_traded_volume as int], seq![b@.total_traded_volume as int], seq![float_order_key(a@.total_traded_value)] + (opt_int_key(a@.total_number_of_trades) + (opt_text_key(a@.session_id) + (opt_int_key(a@.market_lot_size) + (opt_text_key(a@.remarks) + (x))))), seq![float_order_key(b@.total_traded_value)] + (opt_int_key(b@.total_number_of_trades) + (opt_text_key(b@.session_id) + (opt_int_key(b@.market_lot_size) + (opt_text_key(b@.remarks) + (y))))));
    lemma_price_piece(a@.total_traded_value, b@.total_traded_value);
    lemma_lex_piece(seq![float_order_key(a@.total_traded_value)], seq![float_order_key(b@.total_traded_value)], opt_int_key(a@.total_number_of_trades) + (opt_text_key(a@.session_id) + (opt_int_key(a@.market_lot_size) + (opt_text_key(a@.remarks) + (x)))), opt_int_key(b@.total_number_of_trades) + (opt_text_key(b@.session_id) + (opt_int_key(b@.market_lot_size) + (opt_text_key(b@.remarks) + (y)))));
    lemma_opt_int_piece(a@.total_number_of_trades, b@.total_number_of_trades);
    lemma_lex_piece(opt_int_key(a@.total_number_of_trades), opt_int_key(b@.total_number_of_trades), opt_text_key(a@.session_id) + (opt_int_key(a@.market_lot_size) + (opt_text_key(a@.remarks) + (x))), opt_text_key(b@.session_id) + (opt_int_key(b@.market_lot_size) + (opt_text_key(b@.remarks) + (y))));
    lemma_opt_text_piece(a@.session_id, b@.session_id);
    lemma_lex_piece(opt_text_key(a@.session_id), opt_text_key(b@.session_id), opt_int_key(a@.market_lot_size) + (opt_text_key(a@.remarks) + (x)), opt_int_key(b@.market_lot_size) + (opt_text_key(b@.remarks) + (y)));
    lemma_opt_int_piece(a@.market_lot_size, b@.market_lot_size);
    lemma_lex_piece(opt_int_key(a@.market_lot_size), opt_int_key(b@.market_lot_size), opt_text_key(a@.remarks) + (x), opt_text_key(b@.remarks) + (y));
    lemma_opt_text_piece(a@.remarks, b@.remarks);
    lemma_lex_piece(opt_text_key(a@.remarks), opt_text_key(b@.remarks), x, y);
}

proof fn lemma_head_then_is_key(r: BhavRecord, x: Seq<int>)
    ensures
        head_then(r, x) == key_head(r) + x,
{
    lemma_concat_associative(seq![instrument_source_rank(r@.source), instrument_segment_rank(r@.segment), instrument_type_rank(r@.instrument_type)] + date_key(r@.trade_date) + text_key(r@.ticker_symbol@) + opt_text_key(r@.isin) + opt_date_key(r@.business_date) + opt_text_key(r@.instrument_id) + text_key(r@.security_series@) + opt_text_key(r@.expiry_date), opt_text_key(r@.actual_expiry_date), x);
    lemma_concat_associative(seq![instrument_source_rank(r@.source), instrument_segment_rank(r@.segment), instrument_type_rank(r@.instrument_type)] + date_key(r@.trade_date) + text_key(r@.ticker_symbol@) + opt_text_key(r@.isin) + opt_date_key(r@.business_date) + opt_text_key(r@.instrument_id) + text_key(r@.security_series@), opt_text_key(r@.expiry_date), opt_text_key(r@.actual_expiry_date) + (x));
    lemma_concat_associative(seq![instrument_source_rank(r@.source), instrument_segment_rank(r@.segment), instrument_type_rank(r@.instrument_type)] + date_key(r@.trade_date) + text_key(r@.ticker_symbol@) + opt_text_key(r@.isin) + opt_date_key(r@.business_date) + opt_text_key(r@.instrument_id), text_key(r@.security_series@), opt_text_key(r@.expiry_date) + (opt_text_key(r@.actual_expiry_date) + (x)));
    lemma_concat_associative(seq![instrument_source_rank(r@.source), instrument_segment_rank(r@.segment), instrument_type_rank(r@.instrument_type)] + date_key(r@.trade_date) + text_key(r@.ticker_symbol@) + opt_text_key(r@.isin) + opt_date_key(r@.business_date), opt_text_key(r@.instrument_id), text_key(r@.security_series@) + (opt_text_key(r@.expiry_date) + (opt_text_key(r@.actual_expiry_date) + (x))));
    lemma_concat_associative(seq![instrument_source_rank(r@.source), instrument_segment_rank(r@.segment), instrument_type_rank(r@.instrument_type)] + date_key(r@.trade_date) + text_key(r@.ticker_symbol@) + opt_text_key(r@.isin), opt_date_key(r@.business_date), opt_text_key(r@.instrument_id) + (text_key(r@.security_series@) + (opt_text_key(r@.expiry_date) + (opt_text_key(r@.actual_expiry_date) + (x)))));
    lemma_concat_associative(seq![instrument_source_rank(r@.source), instrument_segment_rank(r@.segment), instrument_type_rank(r@.instrument_type)] + date_key(r@.trade_date) + text_key(r@.ticker_symbol@), opt_text_key(r@.isin), opt_date_key(r@.business_date) + (opt_text_key(r@.instrument_id) + (text_key(r@.security_series@) + (opt_text_key(r@.expiry_date) + (opt_text_key(r@.actual_expiry_date) + (x))))));
    lemma_concat_associative(seq![instrument_source_rank(r@.source), instrument_segment_rank(r@.segment), instrument_type_rank(r@.instrument_type)] + date_key(r@.trade_date), text_key(r@.ticker_symbol@), opt_text_key(r@.isin) + (opt_date_key(r@.business_date) + (opt_text_key(r@.instrument_id) + (text_key(r@.security_series@) + (opt_text_key(r@.expiry_date) + (opt_text_key(r@.actual_expiry_date) + (x)))))));
    lemma_concat_associative(seq![instrument_source_rank(r@.source), instrument_segment_rank(r@.segment), instrument_type_rank(r@.instrument_type)], date_key(r@.trade_date), text_key(r@.ticker_symbol@) + (opt_text_key(r@.isin) + (opt_date_key(r@.business_date) + (opt_text_key(r@.instrument_id) + (text_key(r@.security_series@) + (opt_text_key(r@.expiry_date) + (opt_text_key(r@.actual_expiry_date) + (x))))))));
    assert(seq![instrument_source_rank(r@.source), instrument_segment_rank(r@.segment), instrument_type_rank(r@.instrument_type)] + (date_key(r@.trade_date) + (text_key(r@.ticker_symbol@) + (opt_text_key(r@.isin) + (opt_date_key(r@.business_date) + (opt_text_key(r@.instrument_id) + (text_key(r@.security_series@) + (opt_text_key(r@.expiry_date) + (opt_text_key(r@.actual_expiry_date) + (x)))))))))
        =~= seq![instrument_source_rank(r@.source)] + (seq![instrument_segment_rank(r@.segment)] + (seq![instrument_type_rank(r@.instrument_type)] + (date_key(r@.trade_date) + (text_key(r@.ticker_symbol@) + (opt_text_key(r@.isin) + (opt_date_key(r@.business_date) + (opt_text_key(r@.instrument_id) + (text_key(r@.security_series@) + (opt_text_key(r@.expiry_date) + (opt_text_key(r@.actual_expiry_date) + (x))))))))))));
}

proof fn lemma_middle_then_is_key(r: BhavRecord, x: Seq<int>)
    ensures
        middle_then(r, x) == key_middle(r) + x,
{
    lemma_concat_associative(opt_price_key(r@.strike_price) + opt_text_key(r@.option_type) + opt_text_key(r@.instrument_name) + key_daily_prices(r) + opt_price_key(r@.underlying_price), opt_price_key(r@.settlement_price), x);
    lemma_concat_associative(opt_price_key(r@.strike_price) + opt_text_key(r@.option_type) + opt_text_key(r@.instrument_name) + key_daily_prices(r), opt_price_key(r@.underlying_price), opt_price_key(r@.settlement_price) + (x));
    lemma_concat_associative(opt_price_key(r@.strike_price) + opt_text_key(r@.option_type) + opt_text_key(r@.instrument_name), key_daily_prices(r), opt_price_key(r@.underlying_price) + (opt_price_key(r@.settlement_price) + (x)));
    lemma_concat_associative(opt_price_key(r@.strike_price) + opt_text_key(r@.option_type), opt_text_key(r@.instrument_name), key_daily_prices(r) + (opt_price_key(r@.underlying_price) + (opt_price_key(r@.settlement_price) + (x))));
    lemma_concat_associative(opt_price_key(r@.strike_price), opt_text_key(r@.option_type), opt_text_key(r@.instrument_name) + (key_daily_prices(r) + (opt_price_key(r@.underlying_price) + (opt_price_key(r@.settlement_price) + (x)))));
    let ghost y = opt_price_key(r@.underlying_price) + (opt_price_key(r@.settlement_price) + (x));
    assert(key_daily_prices(r) + y =~= seq![float_order_key(r@.open_price)] + (seq![float_order_key(r@.high_price)] + (seq![float_order_key(r@.low_price)] + (seq![float_order_key(r@.close_price)] + (seq![float_order_key(r@.last_price)] + (seq![float_order_key(r@.previous_close_price)] + y))))));
}

proof fn lemma_tail_then_is_key(r: BhavRecord, x: Seq<int>)
    ensures
        tail_then(r, x) == key_tail(r) + x,
{
    lemma_concat_associative(opt_int_key(r@.open_interest) + opt_int_key(r@.change_in_open_interest) + seq![r@.total_traded_volume as int, float_order_key(r@.total_traded_value)] + opt_int_key(r@.total_number_of_trades) + opt_text_key(r@.session_id) + opt_int_key(r@.market_lot_size), opt_text_key(r@.remarks), x);
    lemma_concat_associative(opt_int_key(r@.open_interest) + opt_int_key(r@.change_in_open_interest) + seq![r@.total_traded_volume as int, float_order_key(r@.total_traded_value)] + opt_int_key(r@.total_number_of_trades) + opt_text_key(r@.session_id), opt_int_key(r@.market_lot_size), opt_text_key(r@.remarks) + (x));
    lemma_concat_associative(opt_int_key(r@.open_interest) + opt_int_key(r@.change_in_open_interest) + seq![r@.total_traded_volume as int, float_order_key(r@.total_traded_value)] + opt_int_key(r@.total_number_of_trades), opt_text_key(r@.session_id), opt_int_key(r@.market_lot_size) + (opt_text_key(r@.remarks) + (x)));
    lemma_concat_associative(opt_int_key(r@.open_interest) + opt_int_key(r@.change_in_open_interest) + seq![r@.total_traded_volume as int, float_order_key(r@.total_traded_value)], opt_int_key(r@.total_number_of_trades), opt_text_key(r@.session_id) + (opt_int_key(r@.market_lot_size) + (opt_text_key(r@.remarks) + (x))));
    lemma_concat_associative(opt_int_key(r@.open_interest) + opt_int_key(r@.change_in_open_interest), seq![r@.total_traded_volume as int, float_order_key(r@.total_traded_value)], opt_int_key(r@.total_number_of_trades) + (opt_text_key(r@.session_id) + (opt_int_key(r@.market_lot_size) + (opt_text_key(r@.remarks) + (x)))));
    lemma_concat_associative(opt_int_key(r@.open_interest), opt_int_key(r@.change_in_open_interest), seq![r@.total_traded_volume as int, float_order_key(r@.total_traded_value)] + (opt_int_key(r@.total_number_of_trades) + (opt_text_key(r@.session_id) + (opt_int_key(r@.market_lot_size) + (opt_text_key(r@.remarks) + (x))))));
    let ghost y = opt_int_key(r@.total_number_of_trades) + (opt_text_key(r@.session_id) + (opt_int_key(r@.market_lot_size) + (opt_text_key(r@.remarks) + (x))));
    assert(seq![r@.total_traded_volume as int, float_order_key(r@.total_traded_value)] + y =~= seq![r@.total_traded_volume as int] + (seq![float_order_key(r@.total_traded_value)] + y));
}

proof fn lemma_key_is_then(r: BhavRecord)
    ensures
        record_key(r) == head_then(r, middle_then(r, tail_then(r, Seq::<int>::empty()))),
{
    reveal(record_key);
    let e = Seq::<int>::empty();
    lemma_tail_then_is_key(r, e);
    lemma_middle_then_is_key(r, tail_then(r, e));
    lemma_head_then_is_key(r, middle_then(r, tail_then(r, e)));
    assert(key_tail(r) + e =~= key_tail(r));
    assert(key_head(r) + (key_middle(r) + key_tail(r)) =~= record_key(r));
}

/// Records compare, by their keys, as they compare field by field.
pub proof fn lemma_record_compare_by_fields(a: BhavRecord, b: BhavRecord)
    ensures
        record_compare(a, b) == field_compare(a, b),
{
    reveal(record_key);
    let e = Seq::<int>::empty();
    lemma_tail_then(a, b, e, e);
    lemma_middle_then(a, b, tail_then(a, e), tail_then(b, e));
    lemma_head_then(a, b, middle_then(a, tail_then(a, e)), middle_then(b, tail_then(b, e)));
    lemma_key_is_then(a);
    lemma_key_is_then(b);
    lemma_lex_eq(e, e);
}

} // verus!
