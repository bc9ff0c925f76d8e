use vstd::prelude::*;

use crate::date::{chrono_parse_date, trade_date_format};
use crate::instrument::InstrumentSource;
use crate::order::{
    compare_keys, lemma_lex_antisymmetric, lemma_lex_eq, lemma_lex_transitive,
    lemma_lex_transitive_le, lex_compare,
};
use crate::record::{
    BhavError, lemma_row_outcome_prices_valid, parsed_business_date, raw_outcome, record_prices_valid,
    BhavRawRecord, BhavRecord,
};
use crate::record_key::{ints, record_key};

verus! {

/// How two records compare: -1, 0 or 1. Records that compare 0 are the same member of a set.
/// `lemma_record_compare_by_fields` shows that this is comparing them field by field.
pub open spec fn record_compare(a: BhavRecord, b: BhavRecord) -> int {
    lex_compare(record_key(a), record_key(b))
}

/// Every record comes strictly before every later one.
pub open spec fn sorted_strictly(s: Seq<BhavRecord>) -> bool {
    forall|i: int, j: int| 0 <= i < j < s.len() ==> record_compare(#[trigger] s[i], #[trigger] s[j]) < 0
}

/// Inserts a record into a sorted set; where an equal record is already there, the inserted
/// record takes its place.
pub open spec fn insert_sorted(s: Seq<BhavRecord>, r: BhavRecord) -> Seq<BhavRecord>
    decreases s.len(),
{
    if s.len() == 0 {
        seq![r]
    } else if record_compare(r, s[0]) < 0 {
        seq![r] + s
    } else if record_compare(r, s[0]) == 0 {
        seq![r] + s.drop_first()
    } else {
        seq![s[0]] + insert_sorted(s.drop_first(), r)
    }
}

/// The set of the records of `xs`: inserted one after the other, so that of equal records the
/// last stays, and in order.
pub open spec fn record_set(xs: Seq<BhavRecord>) -> Seq<BhavRecord>
    decreases xs.len(),
{
    if xs.len() == 0 {
        Seq::empty()
    } else {
        insert_sorted(record_set(xs.drop_last()), xs.last())
    }
}

/// The records that the rows become, in row order, leaving out the rows that were not read
/// and those that do not become records.
pub open spec fn accepted_records(rows: Seq<Option<BhavRawRecord>>, source: InstrumentSource) -> Seq<BhavRecord>
    decreases rows.len(),
{
    if rows.len() == 0 {
        Seq::empty()
    } else {
        let before = accepted_records(rows.drop_last(), source);
        match rows.last() {
            Some(r) => match raw_outcome(r, source) {
                Ok(rec) => before.push(rec),
                Err(_) => before,
            },
            None => before,
        }
    }
}

/// Every row that is read and becomes a record gives a record of `accepted_records`.
pub proof fn lemma_accepted_has_row(rows: Seq<Option<BhavRawRecord>>, source: InstrumentSource, i: int, r: BhavRawRecord, rec: BhavRecord)
    requires
        0 <= i < rows.len(),
        rows[i] == Some(r),
        raw_outcome(r, source) == Ok::<BhavRecord, BhavError>(rec),
    ensures
        accepted_records(rows, source).contains(rec),
    decreases rows.len(),
{
    let pre = rows.drop_last();
    let before = accepted_records(pre, source);
    if i == rows.len() - 1 {
        assert(accepted_records(rows, source) == before.push(rec));
        assert(before.push(rec)[before.len() as int] == rec);
    } else {
        assert(pre[i] == rows[i]);
        lemma_accepted_has_row(pre, source, i, r, rec);
        let k = choose|k: int| 0 <= k < before.len() && before[k] == rec;
        let after = accepted_records(rows, source);
        assert(after.len() >= before.len());
        assert(after[k] == before[k]) by {
            match rows.last() {
                Some(x) => match raw_outcome(x, source) {
                    Ok(y) => assert(after == before.push(y)),
                    Err(_) => {},
                },
                None => {},
            }
        }
    }
}

/// Every record of `accepted_records` is what some row that was read becomes.
pub proof fn lemma_accepted_from_row(rows: Seq<Option<BhavRawRecord>>, source: InstrumentSource, rec: BhavRecord)
    requires
        accepted_records(rows, source).contains(rec),
    ensures
        exists|i: int, r: BhavRawRecord| 0 <= i < rows.len() && rows[i] == Some(r)
            && raw_outcome(r, source) == Ok::<BhavRecord, BhavError>(rec),
    decreases rows.len(),
{
    let pre = rows.drop_last();
    let before = accepted_records(pre, source);
    let n = rows.len() - 1;
    let after = accepted_records(rows, source);
    let k = choose|k: int| 0 <= k < after.len() && after[k] == rec;
    match rows.last() {
        Some(x) => match raw_outcome(x, source) {
            Ok(y) => {
                assert(after == before.push(y));
                if k == before.len() {
                    assert(rows[n] == Some(x));
                } else {
                    assert(before[k] == rec);
                    lemma_accepted_from_row(pre, source, rec);
                    let (i, r) = choose|i: int, r: BhavRawRecord| 0 <= i < pre.len() && pre[i] == Some(r)
                        && raw_outcome(r, source) == Ok::<BhavRecord, BhavError>(rec);
                    assert(rows[i] == pre[i]);
                }
            },
            Err(_) => {
                assert(before[k] == rec);
                lemma_accepted_from_row(pre, source, rec);
                let (i, r) = choose|i: int, r: BhavRawRecord| 0 <= i < pre.len() && pre[i] == Some(r)
                    && raw_outcome(r, source) == Ok::<BhavRecord, BhavError>(rec);
                assert(rows[i] == pre[i]);
            },
        },
        None => {
            assert(before[k] == rec);
            lemma_accepted_from_row(pre, source, rec);
            let (i, r) = choose|i: int, r: BhavRawRecord| 0 <= i < pre.len() && pre[i] == Some(r)
                && raw_outcome(r, source) == Ok::<BhavRecord, BhavError>(rec);
            assert(rows[i] == pre[i]);
        },
    }
}

/// The set of a bhavcopy's rows holds, for every row that is read and becomes a record, that
/// record or a later one equal to it; and each of its members is what some row becomes.
pub proof fn lemma_rows_set_complete_sound(rows: Seq<Option<BhavRawRecord>>, source: InstrumentSource)
    ensures
        forall|i: int, r: BhavRawRecord, rec: BhavRecord|
            0 <= i < rows.len() && rows[i] == Some(r) && raw_outcome(r, source) == Ok::<BhavRecord, BhavError>(rec)
                ==> exists|y: BhavRecord| #[trigger] record_set(accepted_records(rows, source)).contains(y)
                    && record_key(y) == record_key(rec),
        forall|y: BhavRecord| #[trigger] record_set(accepted_records(rows, source)).contains(y)
            ==> exists|i: int, r: BhavRawRecord| 0 <= i < rows.len() && rows[i] == Some(r)
                && raw_outcome(r, source) == Ok::<BhavRecord, BhavError>(y),
{
    let acc = accepted_records(rows, source);
    assert forall|i: int, r: BhavRawRecord, rec: BhavRecord|
        0 <= i < rows.len() && rows[i] == Some(r) && raw_outcome(r, source) == Ok::<BhavRecord, BhavError>(rec)
            implies exists|y: BhavRecord| #[trigger] record_set(acc).contains(y) && record_key(y) == record_key(rec) by {
        lemma_accepted_has_row(rows, source, i, r, rec);
        let k = choose|k: int| 0 <= k < acc.len() && acc[k] == rec;
        lemma_record_set_complete(acc, k);
    }
    assert forall|y: BhavRecord| #[trigger] record_set(acc).contains(y)
        implies exists|i: int, r: BhavRawRecord| 0 <= i < rows.len() && rows[i] == Some(r)
            && raw_outcome(r, source) == Ok::<BhavRecord, BhavError>(y) by {
        lemma_record_set_sound(acc, y);
        let k = choose|k: int| 0 <= k < acc.len() && acc[k] == y
            && forall|m: int| k < m < acc.len() ==> record_key(#[trigger] acc[m]) != record_key(y);
        assert(acc.contains(y));
        lemma_accepted_from_row(rows, source, y);
    }
}

/// `record_compare` is 0 exactly on records with equal keys, and it is antisymmetric.
pub proof fn lemma_record_compare_basics(a: BhavRecord, b: BhavRecord)
    ensures
        (record_compare(a, b) == 0) <==> (record_key(a) == record_key(b)),
        record_compare(a, b) == -record_compare(b, a),
        -1 <= record_compare(a, b) <= 1,
{
    lemma_lex_eq(record_key(a), record_key(b));
    lemma_lex_antisymmetric(record_key(a), record_key(b));
}

/// Inserting at the place that a search finds is inserting into the sorted set.
proof fn lemma_insert_at(s: Seq<BhavRecord>, r: BhavRecord, p: int)
    requires
        sorted_strictly(s),
        0 <= p <= s.len(),
        forall|i: int| 0 <= i < p ==> record_compare(#[trigger] s[i], r) < 0,
        forall|i: int| p <= i < s.len() ==> record_compare(#[trigger] s[i], r) >= 0,
    ensures
        insert_sorted(s, r) == (if p < s.len() && record_compare(s[p], r) == 0 {
            s.update(p, r)
        } else {
            s.insert(p, r)
        }),
    decreases s.len(),
{
    if s.len() == 0 {
        assert(s.insert(p, r) =~= seq![r]);
    } else {
        lemma_record_compare_basics(r, s[0]);
        if p == 0 {
            if record_compare(s[0], r) != 0 {
                assert(s.insert(0, r) =~= seq![r] + s);
            } else {
                assert(s.update(0, r) =~= seq![r] + s.drop_first());
            }
        } else {
            let t = s.drop_first();
            assert(sorted_strictly(t)) by {
                assert forall|i: int, j: int| 0 <= i < j < t.len() implies record_compare(#[trigger] t[i], #[trigger] t[j]) < 0 by {
                    assert(t[i] == s[i + 1] && t[j] == s[j + 1]);
                }
            }
            assert forall|i: int| 0 <= i < p - 1 implies record_compare(#[trigger] t[i], r) < 0 by {
                assert(t[i] == s[i + 1]);
            }
            assert forall|i: int| p - 1 <= i < t.len() implies record_compare(#[trigger] t[i], r) >= 0 by {
                assert(t[i] == s[i + 1]);
            }
            lemma_insert_at(t, r, p - 1);
            if p < s.len() && record_compare(s[p], r) == 0 {
                assert(t[p - 1] == s[p]);
                assert(seq![s[0]] + t.update(p - 1, r) =~= s.update(p, r));
            } else {
                if p - 1 < t.len() {
                    assert(t[p - 1] == s[p]);
                }
                assert(seq![s[0]] + t.insert(p - 1, r) =~= s.insert(p, r));
            }
        }
    }
}

/// Finds the place of `key` in a sorted set: every record before it is smaller, every record
/// from it on is not.
fn search(keys: &Vec<Vec<i64>>, key: &Vec<i64>, Ghost(s): Ghost<Seq<BhavRecord>>, Ghost(r): Ghost<BhavRecord>) -> (p: usize)
    requires
        sorted_strictly(s),
        keys.len() == s.len(),
        forall|i: int| 0 <= i < s.len() ==> ints(#[trigger] keys@[i]@) == record_key(s[i]),
        ints(key@) == record_key(r),
    ensures
        p <= s.len(),
        forall|i: int| 0 <= i < p ==> record_compare(#[trigger] s[i], r) < 0,
        forall|i: int| p <= i < s.len() ==> record_compare(#[trigger] s[i], r) >= 0,
{
    let mut lo: usize = 0;
    let mut hi: usize = keys.len();
    while lo < hi
        invariant
            lo <= hi <= s.len(),
            sorted_strictly(s),
            keys.len() == s.len(),
            forall|i: int| 0 <= i < s.len() ==> ints(#[trigger] keys@[i]@) == record_key(s[i]),
            ints(key@) == record_key(r),
            forall|i: int| 0 <= i < lo ==> record_compare(#[trigger] s[i], r) < 0,
            forall|i: int| hi <= i < s.len() ==> record_compare(#[trigger] s[i], r) >= 0,
        decreases hi - lo,
    {
        let mid = lo + (hi - lo) / 2;
        let c = compare_keys(&keys[mid], key);
        assert(ints(keys@[mid as int]@) == record_key(s[mid as int]));
        if c < 0 {
            assert forall|i: int| 0 <= i <= mid implies record_compare(#[trigger] s[i], r) < 0 by {
                if i < mid {
                    lemma_lex_transitive(record_key(s[i]), record_key(s[mid as int]), record_key(r));
                }
            }
            lo = mid + 1;
        } else {
            assert forall|i: int| mid <= i < s.len() implies record_compare(#[trigger] s[i], r) >= 0 by {
                if i > mid {
                    lemma_record_compare_basics(s[mid as int], r);
                    lemma_record_compare_basics(s[i], s[mid as int]);
                    lemma_lex_transitive_le(record_key(r), record_key(s[mid as int]), record_key(s[i]));
                    lemma_record_compare_basics(s[i], r);
                }
            }
            hi = mid;
        }
    }
    lo
}

/// Inserts a record into a sorted set held with the keys of its members.
fn insert_record(set: &mut Vec<BhavRecord>, keys: &mut Vec<Vec<i64>>, r: BhavRecord)
    requires
        sorted_strictly(old(set)@),
        old(keys).len() == old(set).len(),
        forall|i: int| 0 <= i < old(set)@.len() ==> ints(#[trigger] old(keys)@[i]@) == record_key(old(set)@[i]),
    ensures
        final(set)@ == insert_sorted(old(set)@, r),
        sorted_strictly(final(set)@),
        final(keys).len() == final(set).len(),
        forall|i: int| 0 <= i < final(set)@.len() ==> ints(#[trigger] final(keys)@[i]@) == record_key(final(set)@[i]),
{
    let key = r.sort_key();
    let p = search(keys, &key, Ghost(set@), Ghost(r));
    proof { lemma_insert_at(set@, r, p as int); }
    if p < keys.len() {
        let c = compare_keys(&keys[p], &key);
        assert(ints(keys@[p as int]@) == record_key(set@[p as int]));
        if c == 0 {
            let ghost s0 = set@;
            proof {
                lemma_lex_eq(record_key(s0[p as int]), record_key(r));
            }
            set.set(p, r);
            proof {
                let t = set@;
                assert forall|i: int| 0 <= i < t.len() implies record_key(#[trigger] t[i]) == record_key(s0[i]) by {}
                assert forall|i: int, j: int| 0 <= i < j < t.len() implies record_compare(#[trigger] t[i], #[trigger] t[j]) < 0 by {
                    assert(record_key(t[i]) == record_key(s0[i]) && record_key(t[j]) == record_key(s0[j]));
                }
            }
            return;
        }
    }
    let ghost s = set@;
    proof {
        assert forall|i: int| p <= i < s.len() implies record_compare(r, #[trigger] s[i]) < 0 by {
            lemma_record_compare_basics(s[i], r);
            if i > p {
                lemma_record_compare_basics(s[p as int], r);
                lemma_lex_transitive_le(record_key(r), record_key(s[p as int]), record_key(s[i]));
            }
        }
        assert forall|i: int| 0 <= i < p implies record_compare(#[trigger] s[i], r) < 0 by {}
    }
    set.insert(p, r);
    keys.insert(p, key);
    proof {
        let t = set@;
        assert(t == s.insert(p as int, r));
        assert forall|i: int, j: int| 0 <= i < j < t.len() implies record_compare(#[trigger] t[i], #[trigger] t[j]) < 0 by {
            if j < p {
                assert(t[i] == s[i] && t[j] == s[j]);
            } else if j == p {
                assert(t[j] == r && t[i] == s[i]);
            } else if i < p {
                assert(t[i] == s[i] && t[j] == s[j - 1]);
                lemma_lex_transitive(record_key(s[i]), record_key(r), record_key(s[j - 1]));
            } else if i == p {
                assert(t[i] == r && t[j] == s[j - 1]);
            } else {
                assert(t[i] == s[i - 1] && t[j] == s[j - 1]);
            }
        }
        assert forall|i: int| 0 <= i < t.len() implies ints(#[trigger] keys@[i]@) == record_key(t[i]) by {
            if i < p {
                assert(t[i] == s[i]);
            } else if i > p {
                assert(t[i] == s[i - 1]);
            }
        }
    }
}

/// Turns the rows of a bhavcopy into its set of records: a row that was not read, or that does
/// not become a record, is left out; of equal records the last stays; the set is in order.
pub fn collect_bhav_records(rows: Vec<Option<BhavRawRecord>>, source: InstrumentSource) -> (set: Vec<BhavRecord>)
    ensures
        set@ == record_set(accepted_records(rows@, source)),
        sorted_strictly(set@),
        forall|i: int| 0 <= i < set@.len() ==> record_prices_valid(#[trigger] set@[i]),
        forall|i: int, r: BhavRawRecord, rec: BhavRecord|
            0 <= i < rows@.len() && rows@[i] == Some(r) && raw_outcome(r, source) == Ok::<BhavRecord, BhavError>(rec)
                ==> exists|y: BhavRecord| #[trigger] set@.contains(y) && record_key(y) == record_key(rec),
        forall|y: BhavRecord| #[trigger] set@.contains(y)
            ==> exists|i: int, r: BhavRawRecord| 0 <= i < rows@.len() && rows@[i] == Some(r)
                && raw_outcome(r, source) == Ok::<BhavRecord, BhavError>(y),
{
    let ghost all = rows@;
    let mut set: Vec<BhavRecord> = Vec::new();
    let mut keys: Vec<Vec<i64>> = Vec::new();
    proof {
        assert(all.take(0) =~= Seq::<Option<BhavRawRecord>>::empty());
    }
    for row in it: rows.into_iter()
        invariant
            it.seq() == all,
            set@ == record_set(accepted_records(all.take(it.index() as int), source)),
            sorted_strictly(set@),
            keys.len() == set.len(),
            forall|i: int| 0 <= i < set@.len() ==> ints(#[trigger] keys@[i]@) == record_key(set@[i]),
    {
        let ghost n = it.index() as int;
        let ghost before = all.take(n);
        proof {
            assert(all.take(n + 1).drop_last() =~= before);
            assert(all.take(n + 1).last() == all[n]);
        }
        if let Some(raw) = row {
            if let Ok(rec) = BhavRecord::from_raw(raw, source) {
                proof {
                    let acc = accepted_records(before, source);
                    assert(acc.push(rec).drop_last() =~= acc);
                }
                insert_record(&mut set, &mut keys, rec);
            }
        }
    }
    proof {
        assert(all.take(all.len() as int) =~= all);
        lemma_record_set_prices_valid(accepted_records(all, source), all, source);
        lemma_rows_set_complete_sound(all, source);
    }
    set
}

/// The set of `records`: of equal records the last stays; the set is in order.
pub fn collect_records(records: Vec<BhavRecord>) -> (set: Vec<BhavRecord>)
    ensures
        set@ == record_set(records@),
        sorted_strictly(set@),
        forall|i: int| 0 <= i < set@.len() ==> record_prices_valid(#[trigger] set@[i]),
{
    let ghost all = records@;
    let mut set: Vec<BhavRecord> = Vec::new();
    let mut keys: Vec<Vec<i64>> = Vec::new();
    proof {
        assert(all.take(0) =~= Seq::<BhavRecord>::empty());
    }
    for r in it: records.into_iter()
        invariant
            it.seq() == all,
            set@ == record_set(all.take(it.index() as int)),
            sorted_strictly(set@),
            keys.len() == set.len(),
            forall|i: int| 0 <= i < set@.len() ==> ints(#[trigger] keys@[i]@) == record_key(set@[i]),
            forall|i: int| 0 <= i < set@.len() ==> record_prices_valid(#[trigger] set@[i]),
    {
        let ghost n = it.index() as int;
        let ghost before = set@;
        proof {
            use_type_invariant(&r);
            assert(all.take(n + 1).drop_last() =~= all.take(n));
            assert(all.take(n + 1).last() == all[n]);
        }
        insert_record(&mut set, &mut keys, r);
        proof {
            assert forall|i: int| 0 <= i < set@.len() implies record_prices_valid(#[trigger] set@[i]) by {
                assert(set@.contains(set@[i]));
                lemma_insert_sorted_only(before, r, set@[i]);
            }
        }
    }
    proof {
        assert(all.take(all.len() as int) =~= all);
    }
    set
}

/// The usable headers of a bhavcopy: those before the first empty one.
pub fn usable_headers(headers: Vec<String>) -> (res: Vec<String>)
    ensures
        res.len() <= headers.len(),
        forall|i: int| 0 <= i < res.len() ==> #[trigger] res@[i] == headers@[i] && res@[i]@.len() > 0,
        res.len() == headers.len() || headers@[res.len() as int]@.len() == 0,
{
    let ghost all = headers@;
    let mut res: Vec<String> = Vec::new();
    let mut done = false;
    for h in it: headers.into_iter()
        invariant
            it.seq() == all,
            !done ==> res.len() == it.index(),
            done ==> res.len() < it.index() && all[res.len() as int]@.len() == 0,
            res.len() <= all.len(),
            forall|i: int| 0 <= i < res.len() ==> #[trigger] res@[i] == all[i] && res@[i]@.len() > 0,
    {
        if !done {
            if h.as_str().is_empty() {
                done = true;
            } else {
                res.push(h);
            }
        }
    }
    res
}

/// The tail of a sorted set is sorted.
proof fn lemma_sorted_drop_first(s: Seq<BhavRecord>)
    requires
        sorted_strictly(s),
        s.len() > 0,
    ensures
        sorted_strictly(s.drop_first()),
{
    let t = s.drop_first();
    assert forall|i: int, j: int| 0 <= i < j < t.len() implies record_compare(#[trigger] t[i], #[trigger] t[j]) < 0 by {
        assert(t[i] == s[i + 1] && t[j] == s[j + 1]);
    }
}

/// Inserting keeps every member whose key differs from that of the inserted record.
pub proof fn lemma_insert_sorted_keeps(s: Seq<BhavRecord>, r: BhavRecord, x: BhavRecord)
    requires
        s.contains(x),
        record_key(x) != record_key(r),
    ensures
        insert_sorted(s, r).contains(x),
    decreases s.len(),
{
    let u = insert_sorted(s, r);
    let i = choose|i: int| 0 <= i < s.len() && s[i] == x;
    lemma_record_compare_basics(r, s[0]);
    if record_compare(r, s[0]) < 0 {
        assert(u[i + 1] == x);
    } else if record_compare(r, s[0]) == 0 {
        assert(i != 0);
        assert(u[i] == x);
    } else {
        if i == 0 {
            assert(u[0] == x);
        } else {
            let t = s.drop_first();
            assert(t[i - 1] == x);
            lemma_insert_sorted_keeps(t, r, x);
            let v = insert_sorted(t, r);
            let k = choose|k: int| 0 <= k < v.len() && v[k] == x;
            assert(u[k + 1] == x);
        }
    }
}

/// Inserting brings in no record but the inserted one.
pub proof fn lemma_insert_sorted_only(s: Seq<BhavRecord>, r: BhavRecord, x: BhavRecord)
    requires
        insert_sorted(s, r).contains(x),
    ensures
        x == r || s.contains(x),
    decreases s.len(),
{
    let u = insert_sorted(s, r);
    let i = choose|i: int| 0 <= i < u.len() && u[i] == x;
    if s.len() > 0 {
        if record_compare(r, s[0]) < 0 {
            if i > 0 {
                assert(s[i - 1] == x);
            }
        } else if record_compare(r, s[0]) == 0 {
            if i > 0 {
                assert(s[i] == x);
            }
        } else {
            if i == 0 {
                assert(s[0] == x);
            } else {
                let t = s.drop_first();
                let v = insert_sorted(t, r);
                assert(v[i - 1] == x);
                lemma_insert_sorted_only(t, r, x);
                if x != r {
                    let k = choose|k: int| 0 <= k < t.len() && t[k] == x;
                    assert(s[k + 1] == x);
                }
            }
        }
    }
}

/// After inserting, the inserted record is a member.
pub proof fn lemma_insert_sorted_contains(s: Seq<BhavRecord>, r: BhavRecord)
    ensures
        insert_sorted(s, r).contains(r),
    decreases s.len(),
{
    let u = insert_sorted(s, r);
    if s.len() == 0 || record_compare(r, s[0]) <= 0 {
        assert(u[0] == r);
    } else {
        let t = s.drop_first();
        lemma_insert_sorted_contains(t, r);
        let v = insert_sorted(t, r);
        let k = choose|k: int| 0 <= k < v.len() && v[k] == r;
        assert(u[k + 1] == r);
    }
}

/// After inserting into a sorted set, no other member has the key of the inserted record.
pub proof fn lemma_insert_sorted_replaces(s: Seq<BhavRecord>, r: BhavRecord, x: BhavRecord)
    requires
        sorted_strictly(s),
        insert_sorted(s, r).contains(x),
        x != r,
    ensures
        record_key(x) != record_key(r),
    decreases s.len(),
{
    let u = insert_sorted(s, r);
    let k = choose|k: int| 0 <= k < u.len() && u[k] == x;
    lemma_record_compare_basics(r, s[0]);
    if record_compare(r, s[0]) < 0 {
        assert(s[k - 1] == x);
        if k > 1 {
            assert(record_compare(s[0], s[k - 1]) < 0);
            lemma_record_compare_basics(s[0], x);
        }
    } else if record_compare(r, s[0]) == 0 {
        assert(s[k] == x);
        assert(record_compare(s[0], s[k]) < 0);
        lemma_record_compare_basics(s[0], x);
    } else {
        if k == 0 {
            assert(x == s[0]);
        } else {
            let t = s.drop_first();
            lemma_sorted_drop_first(s);
            assert(insert_sorted(t, r)[k - 1] == x);
            lemma_insert_sorted_replaces(t, r, x);
        }
    }
}

/// Inserting a member of a sorted set leaves the set as it is.
pub proof fn lemma_insert_sorted_member(s: Seq<BhavRecord>, r: BhavRecord)
    requires
        sorted_strictly(s),
        s.contains(r),
    ensures
        insert_sorted(s, r) == s,
    decreases s.len(),
{
    let i = choose|i: int| 0 <= i < s.len() && s[i] == r;
    lemma_record_compare_reflexive(r);
    lemma_record_compare_basics(r, s[0]);
    if record_compare(r, s[0]) < 0 {
        if i > 0 {
            assert(record_compare(s[0], s[i]) < 0);
        }
    } else if record_compare(r, s[0]) == 0 {
        if i > 0 {
            assert(record_compare(s[0], s[i]) < 0);
            lemma_record_compare_basics(s[0], r);
        }
        assert(seq![r] + s.drop_first() =~= s);
    } else {
        let t = s.drop_first();
        lemma_sorted_drop_first(s);
        assert(t[i - 1] == r);
        lemma_insert_sorted_member(t, r);
        assert(seq![s[0]] + t =~= s);
    }
}

/// Inserting into a sorted set keeps it sorted.
pub proof fn lemma_insert_sorted_sorted(s: Seq<BhavRecord>, r: BhavRecord)
    requires
        sorted_strictly(s),
    ensures
        sorted_strictly(insert_sorted(s, r)),
    decreases s.len(),
{
    let u = insert_sorted(s, r);
    if s.len() > 0 {
        lemma_record_compare_basics(r, s[0]);
        if record_compare(r, s[0]) < 0 {
            assert forall|i: int, j: int| 0 <= i < j < u.len() implies record_compare(#[trigger] u[i], #[trigger] u[j]) < 0 by {
                if i == 0 {
                    if j > 1 {
                        lemma_lex_transitive(record_key(r), record_key(s[0]), record_key(s[j - 1]));
                    }
                } else {
                    assert(u[i] == s[i - 1] && u[j] == s[j - 1]);
                }
            }
        } else if record_compare(r, s[0]) == 0 {
            assert forall|i: int, j: int| 0 <= i < j < u.len() implies record_compare(#[trigger] u[i], #[trigger] u[j]) < 0 by {
                assert(u[j] == s[j]);
                if i > 0 {
                    assert(u[i] == s[i]);
                } else {
                    assert(record_compare(s[0], s[j]) < 0);
                }
            }
        } else {
            let t = s.drop_first();
            lemma_sorted_drop_first(s);
            lemma_insert_sorted_sorted(t, r);
            let v = insert_sorted(t, r);
            assert forall|i: int, j: int| 0 <= i < j < u.len() implies record_compare(#[trigger] u[i], #[trigger] u[j]) < 0 by {
                if i == 0 {
                    let x = v[j - 1];
                    assert(u[j] == x);
                    assert(v.contains(x));
                    lemma_insert_sorted_only(t, r, x);
                    if x != r {
                        let k = choose|k: int| 0 <= k < t.len() && t[k] == x;
                        assert(s[k + 1] == x);
                    }
                } else {
                    assert(u[i] == v[i - 1] && u[j] == v[j - 1]);
                }
            }
        }
    }
}

/// A record set is sorted strictly: no two of its members are equal.
pub proof fn lemma_record_set_sorted(xs: Seq<BhavRecord>)
    ensures
        sorted_strictly(record_set(xs)),
    decreases xs.len(),
{
    if xs.len() > 0 {
        lemma_record_set_sorted(xs.drop_last());
        lemma_insert_sorted_sorted(record_set(xs.drop_last()), xs.last());
    }
}

/// `y` is a record of `xs` that no later record of `xs` is equal to.
pub open spec fn last_of_its_key(xs: Seq<BhavRecord>, y: BhavRecord) -> bool {
    exists|i: int| 0 <= i < xs.len() && xs[i] == y
        && forall|k: int| i < k < xs.len() ==> record_key(#[trigger] xs[k]) != record_key(y)
}

/// Every record of `xs` has a member of its set with the same key.
pub proof fn lemma_record_set_complete(xs: Seq<BhavRecord>, i: int)
    requires
        0 <= i < xs.len(),
    ensures
        exists|y: BhavRecord| record_set(xs).contains(y) && record_key(y) == record_key(xs[i]),
    decreases xs.len(),
{
    let prev = record_set(xs.drop_last());
    assert(record_set(xs) == insert_sorted(prev, xs.last()));
    lemma_insert_sorted_contains(prev, xs.last());
    if i < xs.len() - 1 {
        assert(xs.drop_last()[i] == xs[i]);
        lemma_record_set_complete(xs.drop_last(), i);
        let y = choose|y: BhavRecord| prev.contains(y) && record_key(y) == record_key(xs[i]);
        if record_key(y) != record_key(xs.last()) {
            lemma_insert_sorted_keeps(prev, xs.last(), y);
            assert(record_set(xs).contains(y));
        } else {
            assert(record_set(xs).contains(xs.last()));
        }
    }
}

/// Every member of the set of `xs` is a record of `xs`, the last one with its key.
pub proof fn lemma_record_set_sound(xs: Seq<BhavRecord>, y: BhavRecord)
    requires
        record_set(xs).contains(y),
    ensures
        last_of_its_key(xs, y),
    decreases xs.len(),
{
    let n = xs.len() - 1;
    let pre = xs.drop_last();
    let prev = record_set(pre);
    lemma_insert_sorted_only(prev, xs.last(), y);
    if y == xs.last() {
        assert(xs[n] == y);
    } else {
        lemma_record_set_sorted(pre);
        lemma_insert_sorted_replaces(prev, xs.last(), y);
        lemma_record_set_sound(pre, y);
        let i = choose|i: int| 0 <= i < pre.len() && pre[i] == y
            && forall|k: int| i < k < pre.len() ==> record_key(#[trigger] pre[k]) != record_key(y);
        assert(xs[i] == y);
        assert forall|k: int| i < k < xs.len() implies record_key(#[trigger] xs[k]) != record_key(y) by {
            if k < n {
                assert(pre[k] == xs[k]);
            }
        }
    }
}

/// Every record of `xs` that no later record is equal to is a member of its set.
pub proof fn lemma_record_set_has_last(xs: Seq<BhavRecord>, y: BhavRecord)
    requires
        last_of_its_key(xs, y),
    ensures
        record_set(xs).contains(y),
    decreases xs.len(),
{
    let n = xs.len() - 1;
    let pre = xs.drop_last();
    let prev = record_set(pre);
    let i = choose|i: int| 0 <= i < xs.len() && xs[i] == y
        && forall|k: int| i < k < xs.len() ==> record_key(#[trigger] xs[k]) != record_key(y);
    if i == n {
        lemma_insert_sorted_contains(prev, xs.last());
    } else {
        assert(pre[i] == y);
        assert forall|k: int| i < k < pre.len() implies record_key(#[trigger] pre[k]) != record_key(y) by {
            assert(pre[k] == xs[k]);
        }
        lemma_record_set_has_last(pre, y);
        assert(record_key(xs[n]) != record_key(y));
        lemma_insert_sorted_keeps(prev, xs.last(), y);
    }
}

/// The members of the set of `xs` are exactly the records of `xs` that no later record is
/// equal to.
pub proof fn lemma_record_set_members(xs: Seq<BhavRecord>, y: BhavRecord)
    ensures
        record_set(xs).contains(y) <==> last_of_its_key(xs, y),
{
    if record_set(xs).contains(y) {
        lemma_record_set_sound(xs, y);
    }
    if last_of_its_key(xs, y) {
        lemma_record_set_has_last(xs, y);
    }
}

/// Two sorted sets with the same members are the same.
pub proof fn lemma_sorted_same_members(s: Seq<BhavRecord>, t: Seq<BhavRecord>)
    requires
        sorted_strictly(s),
        sorted_strictly(t),
        forall|x: BhavRecord| s.contains(x) <==> t.contains(x),
    ensures
        s == t,
    decreases s.len(),
{
    if s.len() == 0 {
        if t.len() > 0 {
            assert(t.contains(t[0]));
        }
        assert(s =~= t);
    } else {
        assert(s.contains(s[0]));
        let j = choose|j: int| 0 <= j < t.len() && t[j] == s[0];
        assert(t.contains(t[0]));
        let i = choose|i: int| 0 <= i < s.len() && s[i] == t[0];
        lemma_record_compare_reflexive(s[0]);
        lemma_record_compare_basics(s[0], t[0]);
        if j > 0 {
            assert(record_compare(t[0], t[j]) < 0);
        }
        if i > 0 {
            assert(record_compare(s[0], s[i]) < 0);
        }
        assert(s[0] == t[0]);
        let s1 = s.drop_first();
        let t1 = t.drop_first();
        lemma_sorted_drop_first(s);
        lemma_sorted_drop_first(t);
        assert forall|x: BhavRecord| s1.contains(x) <==> t1.contains(x) by {
            if s1.contains(x) {
                let a = choose|a: int| 0 <= a < s1.len() && s1[a] == x;
                assert(s[a + 1] == x);
                assert(record_compare(s[0], s[a + 1]) < 0);
                assert(s.contains(x));
                let b = choose|b: int| 0 <= b < t.len() && t[b] == x;
                assert(b != 0);
                assert(t1[b - 1] == x);
            }
            if t1.contains(x) {
                let a = choose|a: int| 0 <= a < t1.len() && t1[a] == x;
                assert(t[a + 1] == x);
                assert(record_compare(t[0], t[a + 1]) < 0);
                assert(t.contains(x));
                let b = choose|b: int| 0 <= b < s.len() && s[b] == x;
                assert(b != 0);
                assert(s1[b - 1] == x);
            }
        }
        lemma_sorted_same_members(s1, t1);
        assert(s =~= seq![s[0]] + s1);
        assert(t =~= seq![t[0]] + t1);
    }
}

/// Inserting a record larger than every member appends it.
proof fn lemma_insert_sorted_largest(s: Seq<BhavRecord>, r: BhavRecord)
    requires
        forall|i: int| 0 <= i < s.len() ==> record_compare(#[trigger] s[i], r) < 0,
    ensures
        insert_sorted(s, r) == s.push(r),
    decreases s.len(),
{
    if s.len() == 0 {
        assert(seq![r] =~= s.push(r));
    } else {
        lemma_record_compare_basics(s[0], r);
        let t = s.drop_first();
        assert forall|i: int| 0 <= i < t.len() implies record_compare(#[trigger] t[i], r) < 0 by {
            assert(t[i] == s[i + 1]);
        }
        lemma_insert_sorted_largest(t, r);
        assert(seq![s[0]] + t.push(r) =~= s.push(r));
    }
}

/// A sorted sequence is its own record set.
pub proof fn lemma_record_set_of_sorted(s: Seq<BhavRecord>)
    requires
        sorted_strictly(s),
    ensures
        record_set(s) == s,
    decreases s.len(),
{
    if s.len() > 0 {
        let t = s.drop_last();
        assert(sorted_strictly(t)) by {
            assert forall|i: int, j: int| 0 <= i < j < t.len() implies record_compare(#[trigger] t[i], #[trigger] t[j]) < 0 by {
                assert(t[i] == s[i] && t[j] == s[j]);
            }
        }
        lemma_record_set_of_sorted(t);
        assert forall|i: int| 0 <= i < t.len() implies record_compare(#[trigger] t[i], s.last()) < 0 by {
            assert(t[i] == s[i]);
        }
        lemma_insert_sorted_largest(t, s.last());
        assert(t.push(s.last()) =~= s);
    }
}

/// Taking the set of a record set changes nothing.
pub proof fn lemma_record_set_idempotent(xs: Seq<BhavRecord>)
    ensures
        record_set(record_set(xs)) == record_set(xs),
{
    lemma_record_set_sorted(xs);
    lemma_record_set_of_sorted(record_set(xs));
}

/// Every record that rows become is free of NaN prices.
pub proof fn lemma_accepted_prices_valid(rows: Seq<Option<BhavRawRecord>>, source: InstrumentSource)
    ensures
        forall|i: int| 0 <= i < accepted_records(rows, source).len()
            ==> record_prices_valid(#[trigger] accepted_records(rows, source)[i]),
    decreases rows.len(),
{
    if rows.len() > 0 {
        lemma_accepted_prices_valid(rows.drop_last(), source);
        let before = accepted_records(rows.drop_last(), source);
        if let Some(r) = rows.last() {
            lemma_row_outcome_prices_valid(
                r,
                source,
                chrono_parse_date(r.trade_date@, trade_date_format()),
                parsed_business_date(r),
            );
            if let Ok(rec) = raw_outcome(r, source) {
                let after = before.push(rec);
                assert forall|i: int| 0 <= i < after.len() implies record_prices_valid(#[trigger] after[i]) by {
                    if i < before.len() {
                        assert(after[i] == before[i]);
                    }
                }
            }
        }
    }
}

/// No record of the set of a bhavcopy holds a NaN price.
pub proof fn lemma_record_set_prices_valid(xs: Seq<BhavRecord>, rows: Seq<Option<BhavRawRecord>>, source: InstrumentSource)
    requires
        xs == accepted_records(rows, source),
    ensures
        forall|i: int| 0 <= i < record_set(xs).len() ==> record_prices_valid(#[trigger] record_set(xs)[i]),
{
    lemma_accepted_prices_valid(rows, source);
    assert forall|i: int| 0 <= i < record_set(xs).len() implies record_prices_valid(#[trigger] record_set(xs)[i]) by {
        let y = record_set(xs)[i];
        assert(record_set(xs).contains(y));
        lemma_record_set_sound(xs, y);
    }
}

/// Record comparison is transitive.
pub proof fn lemma_record_compare_transitive(a: BhavRecord, b: BhavRecord, c: BhavRecord)
    requires
        record_compare(a, b) < 0,
        record_compare(b, c) < 0,
    ensures
        record_compare(a, c) < 0,
{
    lemma_lex_transitive(record_key(a), record_key(b), record_key(c));
}

/// A record compares equal to itself.
pub proof fn lemma_record_compare_reflexive(a: BhavRecord)
    ensures
        record_compare(a, a) == 0,
{
    lemma_lex_eq(record_key(a), record_key(a));
}

/// Records that are already members of the set add nothing to it.
pub proof fn lemma_record_set_absorbs(xs: Seq<BhavRecord>, ys: Seq<BhavRecord>)
    requires
        forall|j: int| 0 <= j < ys.len() ==> record_set(xs).contains(#[trigger] ys[j]),
    ensures
        record_set(xs + ys) == record_set(xs),
    decreases ys.len(),
{
    if ys.len() == 0 {
        assert(xs + ys =~= xs);
    } else {
        let ys1 = ys.drop_last();
        assert forall|j: int| 0 <= j < ys1.len() implies record_set(xs).contains(#[trigger] ys1[j]) by {
            assert(ys1[j] == ys[j]);
        }
        lemma_record_set_absorbs(xs, ys1);
        assert((xs + ys).drop_last() =~= xs + ys1);
        assert((xs + ys).last() == ys.last());
        assert(record_set(xs).contains(ys[ys.len() - 1]));
        lemma_record_set_sorted(xs);
        lemma_insert_sorted_member(record_set(xs), ys.last());
    }
}

/// Reading the same rows twice gives the set of reading them once.
pub proof fn lemma_record_set_repeat(xs: Seq<BhavRecord>)
    ensures
        record_set(xs + xs) == record_set(xs),
{
    let n = xs.len();
    let zs = xs + xs;
    assert forall|y: BhavRecord| record_set(zs).contains(y) <==> record_set(xs).contains(y) by {
        lemma_record_set_members(zs, y);
        lemma_record_set_members(xs, y);
        if last_of_its_key(zs, y) {
            let i = choose|i: int| 0 <= i < zs.len() && zs[i] == y
                && forall|k: int| i < k < zs.len() ==> record_key(#[trigger] zs[k]) != record_key(y);
            if i < n {
                assert(zs[i + n] == y);
                assert(record_key(zs[i + n]) != record_key(y));
            }
            let j = i - n;
            assert(xs[j] == zs[i]);
            assert forall|k: int| j < k < xs.len() implies record_key(#[trigger] xs[k]) != record_key(y) by {
                assert(zs[k + n] == xs[k]);
            }
        }
        if last_of_its_key(xs, y) {
            let i = choose|i: int| 0 <= i < xs.len() && xs[i] == y
                && forall|k: int| i < k < xs.len() ==> record_key(#[trigger] xs[k]) != record_key(y);
            assert(zs[i + n] == y);
            assert forall|k: int| i + n < k < zs.len() implies record_key(#[trigger] zs[k]) != record_key(y) by {
                assert(zs[k] == xs[k - n]);
            }
        }
    }
    lemma_record_set_sorted(zs);
    lemma_record_set_sorted(xs);
    lemma_sorted_same_members(record_set(zs), record_set(xs));
}

} // verus!
