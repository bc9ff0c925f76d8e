use vstd::prelude::*;
use chrono::Datelike;

use crate::text::{
    all_digits, lemma_two_digits_len, lemma_zero_padded_digits, lemma_zero_padded_nonempty,
    lemma_zero_padded_value, push_zero_padded, zero_padded,
};

verus! {

/// The smallest year of a calendar date.
pub const MIN_YEAR: i32 = -262143;

/// The largest year of a calendar date.
pub const MAX_YEAR: i32 = 262142;

/// Leap years of the proleptic Gregorian calendar.
pub open spec fn is_leap_year(y: int) -> bool {
    (y % 4 == 0 && y % 100 != 0) || y % 400 == 0
}

/// The number of days of month `m` (1 to 12) of year `y`.
pub open spec fn days_in_month(y: int, m: int) -> int {
    if m == 2 {
        if is_leap_year(y) { 29 } else { 28 }
    } else if m == 4 || m == 6 || m == 9 || m == 11 {
        30
    } else {
        31
    }
}

/// `(y, m, d)` names a day of the calendar that a `Date` can hold.
pub open spec fn is_valid_ymd(y: int, m: int, d: int) -> bool {
    &&& MIN_YEAR <= y <= MAX_YEAR
    &&& 1 <= m <= 12
    &&& 1 <= d <= days_in_month(y, m)
}

/// A day of the proleptic Gregorian calendar.
#[derive(Clone, Copy, Debug, PartialEq, Eq)]
pub struct Date {
    year: i32,
    month: u32,
    day: u32,
}

impl Date {
    #[verifier::type_invariant]
    spec fn valid(self) -> bool {
        is_valid_ymd(self.year as int, self.month as int, self.day as int)
    }
}

impl View for Date {
    type V = (int, int, int);

    closed spec fn view(&self) -> (int, int, int) {
        (self.year as int, self.month as int, self.day as int)
    }
}

/// `a` comes strictly before `b` in the calendar.
pub open spec fn date_before(a: (int, int, int), b: (int, int, int)) -> bool {
    ||| a.0 < b.0
    ||| a.0 == b.0 && a.1 < b.1
    ||| a.0 == b.0 && a.1 == b.1 && a.2 < b.2
}

impl Date {
    /// The date of year `y`, month `m` and day `d`, where one exists.
    pub fn from_ymd_opt(y: i32, m: u32, d: u32) -> (res: Option<Date>)
        ensures
            res is Some <==> is_valid_ymd(y as int, m as int, d as int),
            res matches Some(date) ==> date@ == (y as int, m as int, d as int),
    {
        if y < MIN_YEAR || y > MAX_YEAR || m < 1 || m > 12 || d < 1 {
            return None;
        }
        let leap = (y % 4 == 0 && y % 100 != 0) || y % 400 == 0;
        let last = if m == 2 {
            if leap { 29 } else { 28 }
        } else if m == 4 || m == 6 || m == 9 || m == 11 {
            30
        } else {
            31
        };
        if d > last {
            None
        } else {
            Some(Date { year: y, month: m, day: d })
        }
    }

    pub fn year(&self) -> (y: i32)
        ensures
            y == self@.0,
            MIN_YEAR <= y <= MAX_YEAR,
    {
        proof { use_type_invariant(self); }
        self.year
    }

    pub fn month(&self) -> (m: u32)
        ensures
            m == self@.1,
            1 <= m <= 12,
    {
        proof { use_type_invariant(self); }
        self.month
    }

    pub fn day(&self) -> (d: u32)
        ensures
            d == self@.2,
            1 <= d <= 31,
    {
        proof { use_type_invariant(self); }
        self.day
    }

    /// Whether `self` comes strictly after `other`.
    pub fn is_after(&self, other: &Date) -> (res: bool)
        ensures
            res == date_before(other@, self@),
    {
        if self.year != other.year {
            self.year > other.year
        } else if self.month != other.month {
            self.month > other.month
        } else {
            self.day > other.day
        }
    }
}

/// ASCII upper-casing of a text, as `str::to_uppercase` does on ASCII text.
pub open spec fn ascii_upper(s: Seq<char>) -> Seq<char> {
    s.map_values(|c: char| if 97 <= (c as int) <= 122 { ((c as int) - 32) as char } else { c })
}

/// The English abbreviation of month `m` (chrono's `%b`).
pub open spec fn month_abbrev(m: int) -> Seq<char> {
    if m == 1 {
        seq!['J', 'a', 'n']
    } else if m == 2 {
        seq!['F', 'e', 'b']
    } else if m == 3 {
        seq!['M', 'a', 'r']
    } else if m == 4 {
        seq!['A', 'p', 'r']
    } else if m == 5 {
        seq!['M', 'a', 'y']
    } else if m == 6 {
        seq!['J', 'u', 'n']
    } else if m == 7 {
        seq!['J', 'u', 'l']
    } else if m == 8 {
        seq!['A', 'u', 'g']
    } else if m == 9 {
        seq!['S', 'e', 'p']
    } else if m == 10 {
        seq!['O', 'c', 't']
    } else if m == 11 {
        seq!['N', 'o', 'v']
    } else {
        seq!['D', 'e', 'c']
    }
}

/// The English abbreviation of a month.
pub fn month_abbrev_text(m: u32) -> (s: &'static str)
    requires
        1 <= m <= 12,
    ensures
        s@ == month_abbrev(m as int),
{
    if m == 1 {
        proof {
            reveal_strlit("Jan");
            assert("Jan"@ =~= month_abbrev(m as int));
        }
        "Jan"
    } else if m == 2 {
        proof {
            reveal_strlit("Feb");
            assert("Feb"@ =~= month_abbrev(m as int));
        }
        "Feb"
    } else if m == 3 {
        proof {
            reveal_strlit("Mar");
            assert("Mar"@ =~= month_abbrev(m as int));
        }
        "Mar"
    } else if m == 4 {
        proof {
            reveal_strlit("Apr");
            assert("Apr"@ =~= month_abbrev(m as int));
        }
        "Apr"
    } else if m == 5 {
        proof {
            reveal_strlit("May");
            assert("May"@ =~= month_abbrev(m as int));
        }
        "May"
    } else if m == 6 {
        proof {
            reveal_strlit("Jun");
            assert("Jun"@ =~= month_abbrev(m as int));
        }
        "Jun"
    } else if m == 7 {
        proof {
            reveal_strlit("Jul");
            assert("Jul"@ =~= month_abbrev(m as int));
        }
        "Jul"
    } else if m == 8 {
        proof {
            reveal_strlit("Aug");
            assert("Aug"@ =~= month_abbrev(m as int));
        }
        "Aug"
    } else if m == 9 {
        proof {
            reveal_strlit("Sep");
            assert("Sep"@ =~= month_abbrev(m as int));
        }
        "Sep"
    } else if m == 10 {
        proof {
            reveal_strlit("Oct");
            assert("Oct"@ =~= month_abbrev(m as int));
        }
        "Oct"
    } else if m == 11 {
        proof {
            reveal_strlit("Nov");
            assert("Nov"@ =~= month_abbrev(m as int));
        }
        "Nov"
    } else {
        proof {
            reveal_strlit("Dec");
            assert("Dec"@ =~= month_abbrev(m as int));
        }
        "Dec"
    }
}

/// The upper-case English abbreviation of a month.
pub fn month_abbrev_upper_text(m: u32) -> (s: &'static str)
    requires
        1 <= m <= 12,
    ensures
        s@ == ascii_upper(month_abbrev(m as int)),
{
    if m == 1 {
        proof {
            reveal_strlit("JAN");
            assert("JAN"@ =~= ascii_upper(month_abbrev(m as int)));
        }
        "JAN"
    } else if m == 2 {
        proof {
            reveal_strlit("FEB");
            assert("FEB"@ =~= ascii_upper(month_abbrev(m as int)));
        }
        "FEB"
    } else if m == 3 {
        proof {
            reveal_strlit("MAR");
            assert("MAR"@ =~= ascii_upper(month_abbrev(m as int)));
        }
        "MAR"
    } else if m == 4 {
        proof {
            reveal_strlit("APR");
            assert("APR"@ =~= ascii_upper(month_abbrev(m as int)));
        }
        "APR"
    } else if m == 5 {
        proof {
            reveal_strlit("MAY");
            assert("MAY"@ =~= ascii_upper(month_abbrev(m as int)));
        }
        "MAY"
    } else if m == 6 {
        proof {
            reveal_strlit("JUN");
            assert("JUN"@ =~= ascii_upper(month_abbrev(m as int)));
        }
        "JUN"
    } else if m == 7 {
        proof {
            reveal_strlit("JUL");
            assert("JUL"@ =~= ascii_upper(month_abbrev(m as int)));
        }
        "JUL"
    } else if m == 8 {
        proof {
            reveal_strlit("AUG");
            assert("AUG"@ =~= ascii_upper(month_abbrev(m as int)));
        }
        "AUG"
    } else if m == 9 {
        proof {
            reveal_strlit("SEP");
            assert("SEP"@ =~= ascii_upper(month_abbrev(m as int)));
        }
        "SEP"
    } else if m == 10 {
        proof {
            reveal_strlit("OCT");
            assert("OCT"@ =~= ascii_upper(month_abbrev(m as int)));
        }
        "OCT"
    } else if m == 11 {
        proof {
            reveal_strlit("NOV");
            assert("NOV"@ =~= ascii_upper(month_abbrev(m as int)));
        }
        "NOV"
    } else {
        proof {
            reveal_strlit("DEC");
            assert("DEC"@ =~= ascii_upper(month_abbrev(m as int)));
        }
        "DEC"
    }
}

/// The year as chrono's `%Y` writes it: four digits for years 0 to 9999,
/// otherwise an explicit sign followed by at least four digits.
pub open spec fn year_text(y: int) -> Seq<char> {
    if 0 <= y <= 9999 {
        zero_padded(y as nat, 4)
    } else if y < 0 {
        seq!['-'] + zero_padded((-y) as nat, 4)
    } else {
        seq!['+'] + zero_padded(y as nat, 4)
    }
}

/// `%Y%m%d`
pub open spec fn compact_text(d: (int, int, int)) -> Seq<char> {
    year_text(d.0) + zero_padded(d.1 as nat, 2) + zero_padded(d.2 as nat, 2)
}

/// `%Y-%m-%d`, which is also how a date displays.
pub open spec fn iso_text(d: (int, int, int)) -> Seq<char> {
    year_text(d.0) + seq!['-'] + zero_padded(d.1 as nat, 2) + seq!['-'] + zero_padded(d.2 as nat, 2)
}

/// `%d%b%Y`
pub open spec fn day_month_year_text(d: (int, int, int)) -> Seq<char> {
    zero_padded(d.2 as nat, 2) + month_abbrev(d.1) + year_text(d.0)
}

/// `%d-%b-%Y`
pub open spec fn dashed_day_month_year_text(d: (int, int, int)) -> Seq<char> {
    zero_padded(d.2 as nat, 2) + seq!['-'] + month_abbrev(d.1) + seq!['-'] + year_text(d.0)
}

/// Appends the text of year `y` (chrono's `%Y`).
pub fn push_year(out: &mut String, y: i32)
    requires
        MIN_YEAR <= y <= MAX_YEAR,
    ensures
        final(out)@ == old(out)@ + year_text(y as int),
{
    let ghost start = out@;
    if 0 <= y && y <= 9999 {
        push_zero_padded(out, y as u32, 4);
    } else if y < 0 {
        proof { reveal_strlit("-"); }
        out.append("-");
        push_zero_padded(out, (-y) as u32, 4);
        assert(out@ =~= start + year_text(y as int));
    } else {
        proof { reveal_strlit("+"); }
        out.append("+");
        push_zero_padded(out, y as u32, 4);
        assert(out@ =~= start + year_text(y as int));
    }
}

impl Date {
    /// The date as `%Y%m%d`.
    pub fn format_compact(&self) -> (s: String)
        ensures
            s@ == compact_text(self@),
    {
        let mut s = String::new();
        push_year(&mut s, self.year());
        push_zero_padded(&mut s, self.month(), 2);
        push_zero_padded(&mut s, self.day(), 2);
        assert(s@ =~= compact_text(self@));
        s
    }

    /// The date as `%Y-%m-%d`, the text of chrono's `Display` for a date.
    pub fn format_iso(&self) -> (s: String)
        ensures
            s@ == iso_text(self@),
    {
        let mut s = String::new();
        push_year(&mut s, self.year());
        proof { reveal_strlit("-"); }
        s.append("-");
        push_zero_padded(&mut s, self.month(), 2);
        s.append("-");
        push_zero_padded(&mut s, self.day(), 2);
        assert(s@ =~= iso_text(self@));
        s
    }

    /// The date as `%d-%b-%Y`.
    pub fn format_dashed_day_month_year(&self) -> (s: String)
        ensures
            s@ == dashed_day_month_year_text(self@),
    {
        let mut s = String::new();
        push_zero_padded(&mut s, self.day(), 2);
        proof { reveal_strlit("-"); }
        s.append("-");
        s.append(month_abbrev_text(self.month()));
        s.append("-");
        push_year(&mut s, self.year());
        assert(s@ =~= dashed_day_month_year_text(self@));
        s
    }
}

/// Upper-casing leaves text without ASCII lower-case letters unchanged.
pub proof fn lemma_ascii_upper_digits(s: Seq<char>)
    requires
        all_digits(s),
    ensures
        ascii_upper(s) == s,
{
    assert(ascii_upper(s) =~= s);
}

/// Upper-casing works character by character.
pub proof fn lemma_ascii_upper_concat(a: Seq<char>, b: Seq<char>)
    ensures
        ascii_upper(a + b) == ascii_upper(a) + ascii_upper(b),
{
    assert(ascii_upper(a + b) =~= ascii_upper(a) + ascii_upper(b));
}

/// A year's text holds no lower-case letter.
pub proof fn lemma_ascii_upper_year(y: int)
    ensures
        ascii_upper(year_text(y)) == year_text(y),
{
    if 0 <= y <= 9999 {
        lemma_zero_padded_digits(y as nat, 4);
        lemma_ascii_upper_digits(year_text(y));
    } else {
        let sign = if y < 0 { seq!['-'] } else { seq!['+'] };
        let mag = if y < 0 { (-y) as nat } else { y as nat };
        lemma_zero_padded_digits(mag, 4);
        lemma_ascii_upper_digits(zero_padded(mag, 4));
        lemma_ascii_upper_concat(sign, zero_padded(mag, 4));
        assert(ascii_upper(sign) =~= sign);
        assert(year_text(y) == sign + zero_padded(mag, 4));
    }
}

impl Date {
    /// The year as `%Y`.
    pub fn format_year(&self) -> (s: String)
        ensures
            s@ == year_text(self@.0),
    {
        let mut s = String::new();
        push_year(&mut s, self.year());
        assert(s@ =~= year_text(self@.0));
        s
    }

    /// The date as `%d%b%Y`, upper-cased.
    pub fn format_upper_day_month_year(&self) -> (s: String)
        ensures
            s@ == ascii_upper(day_month_year_text(self@)),
    {
        let mut s = String::new();
        push_zero_padded(&mut s, self.day(), 2);
        s.append(month_abbrev_upper_text(self.month()));
        push_year(&mut s, self.year());
        proof {
            let dd = zero_padded(self@.2 as nat, 2);
            let mm = month_abbrev(self@.1);
            let yy = year_text(self@.0);
            lemma_zero_padded_digits(self@.2 as nat, 2);
            lemma_ascii_upper_digits(dd);
            lemma_ascii_upper_year(self@.0);
            lemma_ascii_upper_concat(dd + mm, yy);
            lemma_ascii_upper_concat(dd, mm);
            assert(day_month_year_text(self@) == dd + mm + yy);
            assert(s@ =~= dd + ascii_upper(mm) + yy);
        }
        s
    }
}

/// The result of chrono's `NaiveDate::parse_from_str(text, format)` as year, month and
/// day, or `None` where chrono refuses the text.
pub uninterp spec fn chrono_parse_date(text: Seq<char>, format: Seq<char>) -> Option<(int, int, int)>;

/// `t` is the `%Y-%m-%d` text of a valid calendar day.
pub open spec fn is_iso_text_of_day(t: Seq<char>) -> bool {
    exists|y: int, m: int, d: int| is_valid_ymd(y, m, d) && t == iso_text((y, m, d))
}

/// Calls `chrono::NaiveDate::parse_from_str`. Claimed: the result is a function of the two
/// texts alone (named `chrono_parse_date`); a date chrono returns is a valid calendar day
/// (chrono's `NaiveDate` can hold no other), within chrono's year range; and with the format
/// `%Y-%m-%d`, the text that chrono's own `%Y-%m-%d` prints for a day (a year of four digits,
/// or a sign and at least four digits, then two-digit month and day) is read back as that day.
#[verifier::external_body]
fn chrono_parse_from_str(text: &str, format: &str) -> (res: Option<Date>)
    ensures
        match res {
            Some(d) => chrono_parse_date(text@, format@) == Some(d@),
            None => chrono_parse_date(text@, format@) is None,
        },
        res is None ==> !(format@ == iso_date_format() && is_iso_text_of_day(text@)),
        res matches Some(d) ==> (format@ == iso_date_format() && is_iso_text_of_day(text@) ==> iso_text(d@) == text@),
{
    match chrono::NaiveDate::parse_from_str(text, format) {
        Ok(d) => Some(Date { year: d.year(), month: d.month(), day: d.day() }),
        Err(_) => None,
    }
}

/// The format of a trade date in a bhavcopy.
pub open spec fn trade_date_format() -> Seq<char> {
    seq!['%', 'd', '-', '%', 'b', '-', '%', 'Y']
}

/// The format of a business date in a bhavcopy, and of a requested date.
pub open spec fn iso_date_format() -> Seq<char> {
    seq!['%', 'Y', '-', '%', 'm', '-', '%', 'd']
}

/// Parses a date written as `%d-%b-%Y`.
pub fn parse_trade_date(text: &str) -> (res: Option<Date>)
    ensures
        match res {
            Some(d) => chrono_parse_date(text@, trade_date_format()) == Some(d@),
            None => chrono_parse_date(text@, trade_date_format()) is None,
        },
{
    proof { reveal_strlit("%d-%b-%Y"); }
    assert("%d-%b-%Y"@ =~= trade_date_format());
    chrono_parse_from_str(text, "%d-%b-%Y")
}

/// Parses a date written as `%Y-%m-%d`. The `%Y-%m-%d` text of a day is read back as that day.
pub fn parse_iso_date(text: &str) -> (res: Option<Date>)
    ensures
        match res {
            Some(d) => chrono_parse_date(text@, iso_date_format()) == Some(d@),
            None => chrono_parse_date(text@, iso_date_format()) is None,
        },
        forall|y: int, m: int, d: int| #![trigger iso_text((y, m, d))]
            is_valid_ymd(y, m, d) && text@ == iso_text((y, m, d))
                ==> (res matches Some(p) && p@ == (y, m, d)),
{
    proof { reveal_strlit("%Y-%m-%d"); }
    assert("%Y-%m-%d"@ =~= iso_date_format());
    let res = chrono_parse_from_str(text, "%Y-%m-%d");
    if let Some(p) = res {
        proof {
            use_type_invariant(&p);
            assert forall|y: int, m: int, d: int| #![trigger iso_text((y, m, d))]
                is_valid_ymd(y, m, d) && text@ == iso_text((y, m, d)) implies p@ == (y, m, d) by {
                lemma_iso_text_injective(p@, (y, m, d));
            }
        }
    } else {
        proof {
            assert forall|y: int, m: int, d: int| #![trigger iso_text((y, m, d))]
                is_valid_ymd(y, m, d) && text@ == iso_text((y, m, d)) implies false by {
                assert(is_iso_text_of_day(text@));
            }
        }
    }
    res
}

/// The date whose view is `v`, for `v` a valid calendar day.
pub closed spec fn date_from_view(v: (int, int, int)) -> Date {
    Date { year: v.0 as i32, month: v.1 as u32, day: v.2 as u32 }
}

/// A date is the date of its own view.
pub proof fn lemma_date_from_view(d: Date)
    ensures
        date_from_view(d@) == d,
{
}

/// The date made of a valid calendar day has that day as its view.
pub proof fn lemma_view_of_date_from_view(v: (int, int, int))
    requires
        is_valid_ymd(v.0, v.1, v.2),
    ensures
        date_from_view(v)@ == v,
{
}

/// The view of an optional date.
pub open spec fn opt_date_view(o: Option<Date>) -> Option<(int, int, int)> {
    match o {
        Some(d) => Some(d@),
        None => None,
    }
}

/// `date_before` is a strict total order on dates.
pub proof fn lemma_date_before_strict_total(a: (int, int, int), b: (int, int, int), c: (int, int, int))
    ensures
        !date_before(a, a),
        date_before(a, b) && date_before(b, c) ==> date_before(a, c),
        a != b ==> date_before(a, b) || date_before(b, a),
        date_before(a, b) ==> !date_before(b, a),
{
}

/// Different years have different texts.
pub proof fn lemma_year_text_injective(y1: int, y2: int)
    requires
        year_text(y1) == year_text(y2),
    ensures
        y1 == y2,
{
    let t = year_text(y1);
    let in1 = 0 <= y1 <= 9999;
    let in2 = 0 <= y2 <= 9999;
    let m1: nat = if y1 < 0 { (-y1) as nat } else { y1 as nat };
    let m2: nat = if y2 < 0 { (-y2) as nat } else { y2 as nat };
    lemma_zero_padded_digits(m1, 4);
    lemma_zero_padded_digits(m2, 4);
    lemma_zero_padded_nonempty(m1, 4);
    lemma_zero_padded_nonempty(m2, 4);
    lemma_zero_padded_value(m1, 4);
    lemma_zero_padded_value(m2, 4);
    if in1 && in2 {
    } else if in1 {
        assert(48 <= (zero_padded(m1, 4)[0] as int) <= 57);
        assert(t[0] == year_text(y2)[0]);
    } else if in2 {
        assert(48 <= (zero_padded(m2, 4)[0] as int) <= 57);
        assert(t[0] == year_text(y2)[0]);
    } else {
        let s1: Seq<char> = if y1 < 0 { seq!['-'] } else { seq!['+'] };
        let s2: Seq<char> = if y2 < 0 { seq!['-'] } else { seq!['+'] };
        assert(t == s1 + zero_padded(m1, 4));
        assert(year_text(y2) == s2 + zero_padded(m2, 4));
        assert(t[0] == s1[0] && year_text(y2)[0] == s2[0]);
        assert(t.drop_first() =~= zero_padded(m1, 4));
        assert(year_text(y2).drop_first() =~= zero_padded(m2, 4));
    }
}

/// `month_abbrev` is chrono's `%b`: the first three letters of each month's English name, in
/// calendar order.
pub proof fn lemma_month_abbrev_english()
    ensures
        month_abbrev(1) == seq!['J', 'a', 'n'],
        month_abbrev(2) == seq!['F', 'e', 'b'],
        month_abbrev(3) == seq!['M', 'a', 'r'],
        month_abbrev(4) == seq!['A', 'p', 'r'],
        month_abbrev(5) == seq!['M', 'a', 'y'],
        month_abbrev(6) == seq!['J', 'u', 'n'],
        month_abbrev(7) == seq!['J', 'u', 'l'],
        month_abbrev(8) == seq!['A', 'u', 'g'],
        month_abbrev(9) == seq!['S', 'e', 'p'],
        month_abbrev(10) == seq!['O', 'c', 't'],
        month_abbrev(11) == seq!['N', 'o', 'v'],
        month_abbrev(12) == seq!['D', 'e', 'c'],
{
}

/// Upper-cased, the abbreviations are those of the archive's directories and file names.
pub proof fn lemma_month_abbrev_upper_english()
    ensures
        ascii_upper(month_abbrev(1)) == seq!['J', 'A', 'N'],
        ascii_upper(month_abbrev(2)) == seq!['F', 'E', 'B'],
        ascii_upper(month_abbrev(3)) == seq!['M', 'A', 'R'],
        ascii_upper(month_abbrev(4)) == seq!['A', 'P', 'R'],
        ascii_upper(month_abbrev(5)) == seq!['M', 'A', 'Y'],
        ascii_upper(month_abbrev(6)) == seq!['J', 'U', 'N'],
        ascii_upper(month_abbrev(7)) == seq!['J', 'U', 'L'],
        ascii_upper(month_abbrev(8)) == seq!['A', 'U', 'G'],
        ascii_upper(month_abbrev(9)) == seq!['S', 'E', 'P'],
        ascii_upper(month_abbrev(10)) == seq!['O', 'C', 'T'],
        ascii_upper(month_abbrev(11)) == seq!['N', 'O', 'V'],
        ascii_upper(month_abbrev(12)) == seq!['D', 'E', 'C'],
{
    assert(ascii_upper(month_abbrev(1)) =~= seq!['J', 'A', 'N']);
    assert(ascii_upper(month_abbrev(2)) =~= seq!['F', 'E', 'B']);
    assert(ascii_upper(month_abbrev(3)) =~= seq!['M', 'A', 'R']);
    assert(ascii_upper(month_abbrev(4)) =~= seq!['A', 'P', 'R']);
    assert(ascii_upper(month_abbrev(5)) =~= seq!['M', 'A', 'Y']);
    assert(ascii_upper(month_abbrev(6)) =~= seq!['J', 'U', 'N']);
    assert(ascii_upper(month_abbrev(7)) =~= seq!['J', 'U', 'L']);
    assert(ascii_upper(month_abbrev(8)) =~= seq!['A', 'U', 'G']);
    assert(ascii_upper(month_abbrev(9)) =~= seq!['S', 'E', 'P']);
    assert(ascii_upper(month_abbrev(10)) =~= seq!['O', 'C', 'T']);
    assert(ascii_upper(month_abbrev(11)) =~= seq!['N', 'O', 'V']);
    assert(ascii_upper(month_abbrev(12)) =~= seq!['D', 'E', 'C']);
}

/// The upper-case abbreviation of month `m`.
spec fn month_upper(m: int) -> Seq<char> {
    if m == 1 {
        seq!['J', 'A', 'N']
    } else if m == 2 {
        seq!['F', 'E', 'B']
    } else if m == 3 {
        seq!['M', 'A', 'R']
    } else if m == 4 {
        seq!['A', 'P', 'R']
    } else if m == 5 {
        seq!['M', 'A', 'Y']
    } else if m == 6 {
        seq!['J', 'U', 'N']
    } else if m == 7 {
        seq!['J', 'U', 'L']
    } else if m == 8 {
        seq!['A', 'U', 'G']
    } else if m == 9 {
        seq!['S', 'E', 'P']
    } else if m == 10 {
        seq!['O', 'C', 'T']
    } else if m == 11 {
        seq!['N', 'O', 'V']
    } else {
        seq!['D', 'E', 'C']
    }
}

/// Different months have different upper-case abbreviations, of three letters each.
pub proof fn lemma_month_upper_injective(m1: int, m2: int)
    requires
        1 <= m1 <= 12,
        1 <= m2 <= 12,
        ascii_upper(month_abbrev(m1)) == ascii_upper(month_abbrev(m2)),
    ensures
        m1 == m2,
        ascii_upper(month_abbrev(m1)).len() == 3,
{
    assert(ascii_upper(month_abbrev(m1)) =~= month_upper(m1));
    assert(ascii_upper(month_abbrev(m2)) =~= month_upper(m2));
    let a = month_upper(m1);
    let b = month_upper(m2);
    assert(a[0] == b[0] && a[1] == b[1] && a[2] == b[2]);
}

/// Different days of the calendar have different `%Y%m%d` texts.
pub proof fn lemma_compact_text_injective(d1: (int, int, int), d2: (int, int, int))
    requires
        is_valid_ymd(d1.0, d1.1, d1.2),
        is_valid_ymd(d2.0, d2.1, d2.2),
        compact_text(d1) == compact_text(d2),
    ensures
        d1 == d2,
{
    let y1 = year_text(d1.0);
    let y2 = year_text(d2.0);
    let m1 = zero_padded(d1.1 as nat, 2);
    let m2 = zero_padded(d2.1 as nat, 2);
    let e1 = zero_padded(d1.2 as nat, 2);
    let e2 = zero_padded(d2.2 as nat, 2);
    lemma_two_digits_len(d1.1 as nat);
    lemma_two_digits_len(d2.1 as nat);
    lemma_two_digits_len(d1.2 as nat);
    lemma_two_digits_len(d2.2 as nat);
    let s = compact_text(d1);
    let t = compact_text(d2);
    let n = s.len();
    assert(y1.len() == y2.len());
    assert(s.subrange(n - 2, n as int) =~= e1);
    assert(t.subrange(n - 2, n as int) =~= e2);
    assert(s.subrange(n - 4, n - 2) =~= m1);
    assert(t.subrange(n - 4, n - 2) =~= m2);
    assert(s.subrange(0, y1.len() as int) =~= y1);
    assert(t.subrange(0, y2.len() as int) =~= y2);
    lemma_zero_padded_value(d1.1 as nat, 2);
    lemma_zero_padded_value(d2.1 as nat, 2);
    lemma_zero_padded_value(d1.2 as nat, 2);
    lemma_zero_padded_value(d2.2 as nat, 2);
    lemma_year_text_injective(d1.0, d2.0);
}

/// The `%d%b%Y` text of a day, upper-cased, is its two-digit day, its upper-case month and its
/// year.
pub proof fn lemma_upper_day_month_year(d: (int, int, int))
    ensures
        ascii_upper(day_month_year_text(d))
            == zero_padded(d.2 as nat, 2) + ascii_upper(month_abbrev(d.1)) + year_text(d.0),
{
    let dd = zero_padded(d.2 as nat, 2);
    let mm = month_abbrev(d.1);
    let yy = year_text(d.0);
    lemma_zero_padded_digits(d.2 as nat, 2);
    lemma_ascii_upper_digits(dd);
    lemma_ascii_upper_year(d.0);
    lemma_ascii_upper_concat(dd + mm, yy);
    lemma_ascii_upper_concat(dd, mm);
}

/// Different days of the calendar have different `%Y-%m-%d` texts.
pub proof fn lemma_iso_text_injective(d1: (int, int, int), d2: (int, int, int))
    requires
        is_valid_ymd(d1.0, d1.1, d1.2),
        is_valid_ymd(d2.0, d2.1, d2.2),
        iso_text(d1) == iso_text(d2),
    ensures
        d1 == d2,
{
    let y1 = year_text(d1.0);
    let y2 = year_text(d2.0);
    let m1 = zero_padded(d1.1 as nat, 2);
    let m2 = zero_padded(d2.1 as nat, 2);
    let e1 = zero_padded(d1.2 as nat, 2);
    let e2 = zero_padded(d2.2 as nat, 2);
    lemma_two_digits_len(d1.1 as nat);
    lemma_two_digits_len(d2.1 as nat);
    lemma_two_digits_len(d1.2 as nat);
    lemma_two_digits_len(d2.2 as nat);
    let s = iso_text(d1);
    let n = s.len();
    assert(s == y1 + seq!['-'] + m1 + seq!['-'] + e1);
    assert(iso_text(d2) == y2 + seq!['-'] + m2 + seq!['-'] + e2);
    assert(y1.len() == y2.len());
    assert(s.subrange(n - 2, n as int) =~= e1);
    assert(iso_text(d2).subrange(n - 2, n as int) =~= e2);
    assert(s.subrange(n - 5, n - 3) =~= m1);
    assert(iso_text(d2).subrange(n - 5, n - 3) =~= m2);
    assert(s.subrange(0, y1.len() as int) =~= y1);
    assert(iso_text(d2).subrange(0, y2.len() as int) =~= y2);
    lemma_zero_padded_value(d1.1 as nat, 2);
    lemma_zero_padded_value(d2.1 as nat, 2);
    lemma_zero_padded_value(d1.2 as nat, 2);
    lemma_zero_padded_value(d2.2 as nat, 2);
    lemma_year_text_injective(d1.0, d2.0);
}

} // verus!
