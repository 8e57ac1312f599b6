//! Calendar dates and timestamps.

use vstd::prelude::*;

use crate::text::decimal_padded;

verus! {

/// A calendar date.
#[derive(Debug, Clone, Copy, PartialEq, Eq, Structural)]
pub struct Date {
    pub year: u64,
    pub month: u64,
    pub day: u64,
}

/// Whether a year has 366 days.
pub open spec fn leap(y: int) -> bool {
    y % 4 == 0 && (y % 100 != 0 || y % 400 == 0)
}

/// The days from the first day of year 1 to the first day of year `y`.
pub open spec fn days_before_year(y: int) -> int {
    365 * (y - 1) + (y - 1) / 4 - (y - 1) / 100 + (y - 1) / 400
}

/// The days of a year before its month `m`; month 13 stands for its end.
pub open spec fn days_before_month(y: int, m: int) -> int {
    let extra = if leap(y) {
        1int
    } else {
        0int
    };
    if m <= 1 {
        0
    } else if m == 2 {
        31
    } else if m == 3 {
        59 + extra
    } else if m == 4 {
        90 + extra
    } else if m == 5 {
        120 + extra
    } else if m == 6 {
        151 + extra
    } else if m == 7 {
        181 + extra
    } else if m == 8 {
        212 + extra
    } else if m == 9 {
        243 + extra
    } else if m == 10 {
        273 + extra
    } else if m == 11 {
        304 + extra
    } else if m == 12 {
        334 + extra
    } else {
        365 + extra
    }
}

/// Whether a date exists.
pub open spec fn valid_date(d: Date) -> bool {
    &&& 1 <= d.year
    &&& 1 <= d.month <= 12
    &&& 1 <= d.day
    &&& d.day <= days_before_month(d.year as int, d.month + 1) - days_before_month(
        d.year as int,
        d.month as int,
    )
}

/// The days from 1970-01-01 to a date.
pub open spec fn day_number(d: Date) -> int {
    days_before_year(d.year as int) + days_before_month(d.year as int, d.month as int) + d.day - 1
        - 719162
}

/// The date `days` days after 1970-01-01.
pub open spec fn civil(days: int) -> Date {
    choose|d: Date| valid_date(d) && day_number(d) == days
}

/// Whether a date comes before another.
pub open spec fn date_before(a: Date, b: Date) -> bool {
    a.year < b.year || (a.year == b.year && (a.month < b.month || (a.month == b.month && a.day
        < b.day)))
}

/// A multiple of 4 begins with every fourth year.
proof fn lemma_fourths(a: int)
    ensures
        a / 4 - (a - 1) / 4 == if a % 4 == 0 {
            1int
        } else {
            0int
        },
{
}

/// A multiple of 100 begins with every hundredth year.
proof fn lemma_hundredths(a: int)
    ensures
        a / 100 - (a - 1) / 100 == if a % 100 == 0 {
            1int
        } else {
            0int
        },
{
}

/// A multiple of 400 begins with every four-hundredth year.
proof fn lemma_four_hundredths(a: int)
    ensures
        a / 400 - (a - 1) / 400 == if a % 400 == 0 {
            1int
        } else {
            0int
        },
{
}

/// A year is as long as its months.
proof fn lemma_year_length(a: int)
    ensures
        days_before_year(a + 1) == days_before_year(a) + days_before_month(a, 13),
        days_before_month(a, 13) > 0,
{
    lemma_fourths(a);
    lemma_hundredths(a);
    lemma_four_hundredths(a);
}

/// A later year begins later.
proof fn lemma_years_grow(a: int, b: int)
    requires
        a < b,
    ensures
        days_before_year(a + 1) == days_before_year(a) + days_before_month(a, 13),
        days_before_year(a + 1) <= days_before_year(b),
    decreases b - a,
{
    lemma_year_length(a);
    if a + 1 < b {
        lemma_year_length(a + 1);
        lemma_years_grow(a + 1, b);
    }
}

/// Day numbers order dates.
proof fn lemma_order(a: Date, b: Date)
    requires
        valid_date(a),
        valid_date(b),
        date_before(a, b),
    ensures
        day_number(a) < day_number(b),
{
    if a.year < b.year {
        lemma_years_grow(a.year as int, b.year as int);
    }
}

/// A day number stands for one date.
pub proof fn date_is_unique(a: Date, b: Date)
    requires
        valid_date(a),
        valid_date(b),
        day_number(a) == day_number(b),
    ensures
        a == b,
{
    if date_before(a, b) {
        lemma_order(a, b);
    }
    if date_before(b, a) {
        lemma_order(b, a);
    }
}

/// Where the year of a day lies, counted in cycles of 400, 100, 4 and 1 years.
proof fn lemma_year_found(n: int, era: int, c: int, q: int, y: int, doy: int)
    requires
        0 <= n,
        n == 146097 * era + 36524 * c + 1461 * q + 365 * y + doy,
        0 <= era,
        0 <= c <= 3,
        0 <= q <= 24,
        0 <= y <= 3,
        0 <= doy,
        doy <= 364 || (doy == 365 && y == 3 && (q < 24 || c == 3)),
    ensures
        days_before_year(400 * era + 100 * c + 4 * q + y + 1) + doy == n,
        leap(400 * era + 100 * c + 4 * q + y + 1) == (y == 3 && (q < 24 || c == 3)),
{
    let big = 400 * era + 100 * c + 4 * q + y;
    assert(big / 4 == 100 * era + 25 * c + q);
    assert(big / 100 == 4 * era + c);
    assert(big / 400 == era);
    let year = big + 1;
    assert(year % 4 == 0 <==> y == 3);
    if y == 3 {
        assert(year == 400 * era + 100 * c + 4 * (q + 1));
        if q == 24 {
            assert(year == 400 * era + 100 * (c + 1));
            assert(year % 100 == 0);
            assert(year % 400 == 0 <==> c == 3);
        } else {
            assert(year % 100 == 4 * (q + 1));
        }
    }
}

/// The date `days` days after 1970-01-01.
pub fn civil_from_days(days: u64) -> (r: Date)
    requires
        days <= u64::MAX / 86400,
    ensures
        valid_date(r),
        day_number(r) == days,
        r == civil(days as int),
{
    let n: u64 = days + 719162;
    let era: u64 = n / 146097;
    let doe: u64 = n % 146097;
    let c: u64 = if doe / 36524 > 3 {
        3
    } else {
        doe / 36524
    };
    let doc: u64 = doe - 36524 * c;
    let q: u64 = doc / 1461;
    let doq: u64 = doc % 1461;
    let y: u64 = if doq / 365 > 3 {
        3
    } else {
        doq / 365
    };
    let doy: u64 = doq - 365 * y;
    let year: u64 = 400 * era + 100 * c + 4 * q + y + 1;
    let is_leap: bool = y == 3 && (q < 24 || c == 3);
    proof {
        assert(q <= 25);
        assert(q == 25 ==> doc >= 36525);
        assert(q <= 24);
        lemma_year_found(n as int, era as int, c as int, q as int, y as int, doy as int);
    }
    let extra: u64 = if is_leap {
        1
    } else {
        0
    };
    let (month, before): (u64, u64) = if doy < 31 {
        (1, 0)
    } else if doy < 59 + extra {
        (2, 31)
    } else if doy < 90 + extra {
        (3, 59 + extra)
    } else if doy < 120 + extra {
        (4, 90 + extra)
    } else if doy < 151 + extra {
        (5, 120 + extra)
    } else if doy < 181 + extra {
        (6, 151 + extra)
    } else if doy < 212 + extra {
        (7, 181 + extra)
    } else if doy < 243 + extra {
        (8, 212 + extra)
    } else if doy < 273 + extra {
        (9, 243 + extra)
    } else if doy < 304 + extra {
        (10, 273 + extra)
    } else if doy < 334 + extra {
        (11, 304 + extra)
    } else {
        (12, 334 + extra)
    };
    let r = Date { year, month, day: doy - before + 1 };
    assert(valid_date(r));
    assert(day_number(r) == days);
    proof {
        date_is_unique(r, civil(days as int));
    }
    r
}

/// A number with at least two digits.
pub open spec fn two(n: int) -> Seq<char> {
    crate::text::zero_padded(crate::text::decimal(n as nat), 2)
}

/// A number with at least four digits.
pub open spec fn four(n: int) -> Seq<char> {
    crate::text::zero_padded(crate::text::decimal(n as nat), 4)
}

/// A date as `YYYY-MM-DD`.
pub open spec fn date_text(d: Date) -> Seq<char> {
    four(d.year as int) + "-"@ + two(d.month as int) + "-"@ + two(d.day as int)
}

/// A second of the Unix clock as `YYYY-MM-DDTHH:MM:SSZ`.
pub open spec fn rfc3339(unix: int) -> Seq<char> {
    let secs = unix % 86400;
    date_text(civil(unix / 86400)) + "T"@ + two(secs / 3600) + ":"@ + two((secs % 3600) / 60)
        + ":"@ + two(secs % 60) + "Z"@
}

/// `d` as `YYYY-MM-DD`.
pub fn write_date(d: Date) -> (r: String)
    ensures
        r@ == date_text(d),
{
    let mut out = decimal_padded(d.year, 4);
    out.append("-");
    out.append(decimal_padded(d.month, 2).as_str());
    out.append("-");
    out.append(decimal_padded(d.day, 2).as_str());
    out
}

/// A second of the Unix clock as a timestamp in UTC.
pub fn rfc3339_from_unix(unix: u64) -> (r: String)
    ensures
        r@ == rfc3339(unix as int),
{
    let days: u64 = unix / 86400;
    let secs: u64 = unix % 86400;
    let mut out = write_date(civil_from_days(days));
    out.append("T");
    out.append(decimal_padded(secs / 3600, 2).as_str());
    out.append(":");
    out.append(decimal_padded((secs % 3600) / 60, 2).as_str());
    out.append(":");
    out.append(decimal_padded(secs % 60, 2).as_str());
    out.append("Z");
    out
}

/// Reads the system clock through `SystemTime::now`: the seconds since the Unix
/// epoch, none for a clock before it. Nothing is said of the result, which rests
/// on the clock.
#[verifier::external_body]
fn clock_seconds() -> (r: Option<u64>)
{
    match std::time::SystemTime::now().duration_since(std::time::UNIX_EPOCH) {
        Ok(d) => Some(d.as_secs()),
        Err(_) => None,
    }
}

/// The second that a reading of the clock stands for: a clock before the Unix
/// epoch counts as at it.
pub fn second_of(reading: Option<u64>) -> (r: u64)
    ensures
        r == match reading {
            Some(seconds) => seconds,
            None => 0,
        },
{
    match reading {
        Some(seconds) => seconds,
        None => 0,
    }
}

/// The current second of the Unix clock.
pub fn now_unix() -> (r: u64)
{
    second_of(clock_seconds())
}

/// The current time as a timestamp in UTC.
pub fn now_rfc3339() -> (r: String)
    ensures
        exists|unix: u64| r@ == rfc3339(unix as int),
{
    let unix = now_unix();
    let r = rfc3339_from_unix(unix);
    assert(r@ == rfc3339(unix as int));
    r
}

/// Every day has its date.
pub proof fn civil_date_is_right(days: int)
    requires
        0 <= days,
        days <= u64::MAX / 86400,
    ensures
        valid_date(civil(days)),
        day_number(civil(days)) == days,
{
    let n = days + 719162;
    let era = n / 146097;
    let doe = n % 146097;
    let c = if doe / 36524 > 3 {
        3int
    } else {
        doe / 36524
    };
    let doc = doe - 36524 * c;
    let q = doc / 1461;
    let doq = doc % 1461;
    let y = if doq / 365 > 3 {
        3int
    } else {
        doq / 365
    };
    let doy = doq - 365 * y;
    assert(q == 25 ==> doc >= 36525);
    lemma_year_found(n, era, c, q, y, doy);
    let year = 400 * era + 100 * c + 4 * q + y + 1;
    let month = lemma_month_found(year, doy);
    let d = Date {
        year: year as u64,
        month: month as u64,
        day: (doy - days_before_month(year, month) + 1) as u64,
    };
    assert(valid_date(d) && day_number(d) == days);
}

/// The month of a day of a year.
proof fn lemma_month_found(year: int, doy: int) -> (m: int)
    requires
        0 <= doy < days_before_month(year, 13),
    ensures
        1 <= m <= 12,
        days_before_month(year, m) <= doy < days_before_month(year, m + 1),
{
    if doy < days_before_month(year, 2) {
        1
    } else if doy < days_before_month(year, 3) {
        2
    } else if doy < days_before_month(year, 4) {
        3
    } else if doy < days_before_month(year, 5) {
        4
    } else if doy < days_before_month(year, 6) {
        5
    } else if doy < days_before_month(year, 7) {
        6
    } else if doy < days_before_month(year, 8) {
        7
    } else if doy < days_before_month(year, 9) {
        8
    } else if doy < days_before_month(year, 10) {
        9
    } else if doy < days_before_month(year, 11) {
        10
    } else if doy < days_before_month(year, 12) {
        11
    } else {
        12
    }
}

/// The first second after the year 9999.
pub const YEAR_10000: u64 = 253402300800;

/// Ten to the power of `w`.
spec fn ten_to(w: nat) -> nat
    decreases w,
{
    if w == 0 {
        1
    } else {
        10 * ten_to((w - 1) as nat)
    }
}

/// A number in exactly `w` digits.
spec fn fixed(n: nat, w: nat) -> Seq<char>
    decreases w,
{
    if w == 0 {
        seq![]
    } else {
        fixed(n / 10, (w - 1) as nat).push(crate::text::digit_char((n % 10) as int))
    }
}

/// Zeros alone.
proof fn lemma_fixed_zero(w: nat)
    ensures
        fixed(0, w) == crate::text::copies('0', w as int),
    decreases w,
{
    if w > 0 {
        lemma_fixed_zero((w - 1) as nat);
        assert(crate::text::copies('0', w as int) =~= crate::text::copies('0', w - 1).push('0'));
    } else {
        assert(crate::text::copies('0', 0) =~= seq![]);
    }
}

/// Padding to a width that suffices gives exactly that many digits.
proof fn lemma_padded_is_fixed(n: nat, w: nat)
    requires
        n < ten_to(w),
        w > 0,
    ensures
        crate::text::zero_padded(crate::text::decimal(n), w as int) == fixed(n, w),
        crate::text::decimal(n).len() <= w,
        fixed(n, w).len() == w,
    decreases w,
{
    let d = crate::text::digit_char((n % 10) as int);
    if n < 10 {
        lemma_fixed_zero((w - 1) as nat);
        assert(n / 10 == 0);
        assert(fixed(n, w) =~= crate::text::copies('0', w - 1).push(d));
        assert(crate::text::decimal(n) =~= seq![d]);
        assert(crate::text::zero_padded(crate::text::decimal(n), w as int)
            =~= crate::text::copies('0', w - 1).push(d));
    } else {
        assert(n / 10 < ten_to((w - 1) as nat));
        assert(w > 1) by {
            if w == 1 {
                assert(ten_to(0) == 1);
                assert(ten_to(1) == 10);
            }
        }
        lemma_padded_is_fixed(n / 10, (w - 1) as nat);
        let shorter = crate::text::decimal(n / 10);
        assert(crate::text::decimal(n) =~= shorter.push(d));
        assert(crate::text::zero_padded(crate::text::decimal(n), w as int)
            =~= crate::text::zero_padded(shorter, w - 1).push(d));
    }
}

/// Appending does not change an order that is decided, and continues one that is
/// not.
proof fn lemma_lex_append(a: Seq<char>, b: Seq<char>, x: Seq<char>, y: Seq<char>)
    requires
        a.len() == b.len(),
    ensures
        crate::text::lex_lt(a, b) ==> crate::text::lex_lt(a + x, b + y),
        a == b && crate::text::lex_lt(x, y) ==> crate::text::lex_lt(a + x, b + y),
    decreases a.len(),
{
    if a.len() > 0 {
        lemma_lex_append(a.skip(1), b.skip(1), x, y);
        assert((a + x).skip(1) =~= a.skip(1) + x);
        assert((b + y).skip(1) =~= b.skip(1) + y);
    } else {
        assert(a + x =~= x);
        assert(b + y =~= y);
    }
}

/// Numbers in the same number of digits are ordered as their texts.
proof fn lemma_fixed_order(a: nat, b: nat, w: nat)
    requires
        a < b < ten_to(w),
    ensures
        crate::text::lex_lt(fixed(a, w), fixed(b, w)),
        fixed(a, w).len() == w,
        fixed(b, w).len() == w,
    decreases w,
{
    if w > 0 {
        let x = fixed(a / 10, (w - 1) as nat);
        let y = fixed(b / 10, (w - 1) as nat);
        let c = crate::text::digit_char((a % 10) as int);
        let d = crate::text::digit_char((b % 10) as int);
        lemma_fixed_len(a / 10, (w - 1) as nat);
        lemma_fixed_len(b / 10, (w - 1) as nat);
        if a / 10 < b / 10 {
            lemma_fixed_order(a / 10, b / 10, (w - 1) as nat);
        } else {
            assert(crate::text::lex_lt(seq![c], seq![d])) by {
                assert(c < d);
            }
        }
        lemma_lex_append(x, y, seq![c], seq![d]);
        assert(fixed(a, w) =~= x + seq![c]);
        assert(fixed(b, w) =~= y + seq![d]);
    }
}

/// The length of [`fixed`].
proof fn lemma_fixed_len(n: nat, w: nat)
    ensures
        fixed(n, w).len() == w,
    decreases w,
{
    if w > 0 {
        lemma_fixed_len(n / 10, (w - 1) as nat);
    }
}

/// Two-digit numbers.
proof fn lemma_two(a: int, b: int)
    requires
        0 <= a < 100,
        0 <= b < 100,
    ensures
        two(a).len() == 2,
        two(b).len() == 2,
        a < b ==> crate::text::lex_lt(two(a), two(b)),
{
    assert(ten_to(2) == 100) by {
        reveal_with_fuel(ten_to, 3);
    }
    lemma_padded_is_fixed(a as nat, 2);
    lemma_padded_is_fixed(b as nat, 2);
    if a < b {
        lemma_fixed_order(a as nat, b as nat, 2);
    }
}

/// Four-digit numbers.
proof fn lemma_four(a: int, b: int)
    requires
        0 <= a < 10000,
        0 <= b < 10000,
    ensures
        four(a).len() == 4,
        four(b).len() == 4,
        a < b ==> crate::text::lex_lt(four(a), four(b)),
{
    assert(ten_to(4) == 10000) by {
        reveal_with_fuel(ten_to, 5);
    }
    lemma_padded_is_fixed(a as nat, 4);
    lemma_padded_is_fixed(b as nat, 4);
    if a < b {
        lemma_fixed_order(a as nat, b as nat, 4);
    }
}

/// Dates up to the year 9999 are ordered as their texts.
pub proof fn dates_sort_by_time(a: Date, b: Date)
    requires
        valid_date(a),
        valid_date(b),
        a.year <= 9999,
        b.year <= 9999,
    ensures
        date_text(a).len() == 10,
        date_text(b).len() == 10,
        date_before(a, b) ==> crate::text::lex_lt(date_text(a), date_text(b)),
{
    reveal_strlit("-");
    lemma_four(a.year as int, b.year as int);
    lemma_two(a.month as int, b.month as int);
    lemma_two(a.day as int, b.day as int);
    let ym_a = four(a.year as int) + "-"@;
    let ym_b = four(b.year as int) + "-"@;
    let m_a = two(a.month as int);
    let m_b = two(b.month as int);
    let d_a = two(a.day as int);
    let d_b = two(b.day as int);
    if date_before(a, b) {
        lemma_lex_append(four(a.year as int), four(b.year as int), "-"@, "-"@);
        lemma_lex_append(ym_a, ym_b, m_a, m_b);
        lemma_lex_append(ym_a + m_a, ym_b + m_b, "-"@, "-"@);
        lemma_lex_append(ym_a + m_a + "-"@, ym_b + m_b + "-"@, d_a, d_b);
    }
}

/// Up to the year 9999 timestamps are ordered as their texts.
pub proof fn timestamps_sort_by_time(a: int, b: int)
    requires
        0 <= a < b < YEAR_10000,
    ensures
        crate::text::lex_lt(rfc3339(a), rfc3339(b)),
{
    reveal_strlit("T");
    reveal_strlit(":");
    reveal_strlit("Z");
    let da = civil(a / 86400);
    let db = civil(b / 86400);
    civil_date_is_right(a / 86400);
    civil_date_is_right(b / 86400);
    lemma_year_below(da);
    lemma_year_below(db);
    dates_sort_by_time(da, db);
    if a / 86400 < b / 86400 {
        if da == db || date_before(db, da) {
            if date_before(db, da) {
                lemma_order(db, da);
            }
        }
    }
    let sa = a % 86400;
    let sb = b % 86400;
    let (ha, ma, ca) = (two(sa / 3600), two((sa % 3600) / 60), two(sa % 60));
    let (hb, mb, cb) = (two(sb / 3600), two((sb % 3600) / 60), two(sb % 60));
    lemma_two(sa / 3600, sb / 3600);
    lemma_two((sa % 3600) / 60, (sb % 3600) / 60);
    lemma_two(sa % 60, sb % 60);
    let (x0, y0) = (date_text(da), date_text(db));
    lemma_lex_append(x0, y0, "T"@, "T"@);
    let (x1, y1) = (x0 + "T"@, y0 + "T"@);
    lemma_lex_append(x1, y1, ha, hb);
    let (x2, y2) = (x1 + ha, y1 + hb);
    lemma_lex_append(x2, y2, ":"@, ":"@);
    let (x3, y3) = (x2 + ":"@, y2 + ":"@);
    lemma_lex_append(x3, y3, ma, mb);
    let (x4, y4) = (x3 + ma, y3 + mb);
    lemma_lex_append(x4, y4, ":"@, ":"@);
    let (x5, y5) = (x4 + ":"@, y4 + ":"@);
    lemma_lex_append(x5, y5, ca, cb);
    let (x6, y6) = (x5 + ca, y5 + cb);
    lemma_lex_append(x6, y6, "Z"@, "Z"@);
    if a / 86400 == b / 86400 {
        assert(sa < sb);
        if sa / 3600 == sb / 3600 && (sa % 3600) / 60 == (sb % 3600) / 60 {
            assert(sa % 60 < sb % 60);
        }
    }
}

/// A day before the year 10000 has a year of four digits.
proof fn lemma_year_below(d: Date)
    requires
        valid_date(d),
        day_number(d) < YEAR_10000 / 86400,
    ensures
        d.year <= 9999,
{
    let first = Date { year: 10000, month: 1, day: 1 };
    assert(valid_date(first));
    assert(days_before_year(10000) == 365 * 9999 + 2499 - 99 + 24);
    assert(day_number(first) == YEAR_10000 / 86400);
    if d.year > 9999 {
        if d != first {
            lemma_order(first, d);
        }
    }
}

} // verus!
